use crate::article_db::{chain_from, get_article_or_error_tx};
use crate::common::cur_datetime_str;
use crate::db::{Database, MAX_ID};
use crate::error::{ApiError, ClientError, DbError, ErrorKind};
use crate::model::{chain_of, ArticleObject, TransactionAddReq, TransactionObject};
use crate::settings::{within, StrichlisteSetting};
use crate::transaction_db::{
    add_transaction_with_article_tx, add_transaction_with_recipient_tx,
    add_transaction_with_value_tx, booked, credited, fits_i32, ledger_row, used_once_more,
};
use vstd::prelude::*;

verus! {

/// Both boundary checks: the resulting balance against the account boundary and
/// the booked amount against the transaction boundary.
pub open spec fn limits_ok(s: StrichlisteSetting, new_balance: int, amount: int) -> bool {
    within(s.account.boundary, new_balance) && within(s.payment.boundary, amount)
}

/// Checks a balance-changing booking against the configured boundaries.
pub fn check_limit(settings: &StrichlisteSetting, new_balance: &i64, amount: &i64) -> (r: Result<(), ClientError>)
    ensures
        r is Ok <==> limits_ok(*settings, *new_balance as int, *amount as int),
        r is Err ==> r->Err_0 is ParameterInvalid,
        !within(settings.account.boundary, *new_balance as int) ==> r->Err_0->ParameterInvalid_0@
            == "Requested balance is out of the allowed boundary."@,
        within(settings.account.boundary, *new_balance as int) && !within(settings.payment.boundary, *amount as int)
            ==> r->Err_0->ParameterInvalid_0@ == "Requested amount is out of the allowed boundary."@,
{
    if (settings.account.boundary.lower as i64) > *new_balance
        || *new_balance > (settings.account.boundary.upper as i64) {
        Err(ClientError::ParameterInvalid(String::from_str("Requested balance is out of the allowed boundary.")))
    } else if (settings.payment.boundary.lower as i64) > *amount
        || *amount > (settings.payment.boundary.upper as i64) {
        Err(ClientError::ParameterInvalid(String::from_str("Requested amount is out of the allowed boundary.")))
    } else {
        Ok(())
    }
}

/// The quantity a purchase request books: one unless given.
pub open spec fn quantity_of(req: TransactionAddReq) -> int {
    match req.quantity {
        Some(q) => q as int,
        None => 1,
    }
}

/// The signed amount of buying `quantity` units at `unit_amount`: always a debit.
pub open spec fn purchase_amount(unit_amount: int, quantity: int) -> int {
    -(unit_amount * quantity)
}

/// A request that books a plain value: an amount, no article, no recipient.
pub open spec fn is_value_request(req: TransactionAddReq) -> bool {
    req.amount is Some && req.article_id is None && req.recipient_id is None
}

/// A request that books a purchase: an article, no amount, no recipient, and a
/// quantity of at least one.
pub open spec fn is_purchase_request(req: TransactionAddReq) -> bool {
    req.amount is None && req.article_id is Some && req.recipient_id is None && quantity_of(req) >= 1
}

/// A request that books a transfer: a negative amount, no article, and a
/// recipient other than the acting account.
pub open spec fn is_transfer_request(req: TransactionAddReq, user_id: i32) -> bool {
    &&& req.amount is Some
    &&& req.article_id is None
    &&& req.recipient_id is Some
    &&& req.amount->0 < 0
    &&& req.recipient_id->0 != user_id
}

/// The failure, if any, that booking `req` for account `user_id` meets, in the
/// order the checks are made. `None` when the booking goes through.
pub open spec fn rejection(db: Database, s: StrichlisteSetting, user_id: i32, req: TransactionAddReq) -> Option<ErrorKind> {
    if db.user(user_id as int) is None {
        Some(ErrorKind::EntityNotFound)
    } else {
        let u = db.user(user_id as int)->0;
        let n = db.transactions@.len();
        if is_value_request(req) {
            let a = req.amount->0 as int;
            if !limits_ok(s, u.balance + a, a) {
                Some(ErrorKind::ParameterInvalid)
            } else if n >= MAX_ID {
                Some(ErrorKind::UnknownError)
            } else {
                None
            }
        } else if is_purchase_request(req) {
            let aid = req.article_id->0 as int;
            if db.article(aid) is None || !db.article(aid)->0.active {
                Some(ErrorKind::EntityNotFound)
            } else {
                let art = db.article(aid)->0;
                let a = purchase_amount(art.amount as int, quantity_of(req));
                if !limits_ok(s, u.balance + a, a) {
                    Some(ErrorKind::ParameterInvalid)
                } else if art.usage_count == i32::MAX {
                    Some(ErrorKind::ConstraintViolation)
                } else if n >= MAX_ID {
                    Some(ErrorKind::UnknownError)
                } else {
                    None
                }
            }
        } else if is_transfer_request(req, user_id) {
            let rid = req.recipient_id->0 as int;
            let a = req.amount->0 as int;
            if db.user(rid) is None {
                Some(ErrorKind::EntityNotFound)
            } else if !limits_ok(s, u.balance + a, a) {
                Some(ErrorKind::ParameterInvalid)
            } else if !fits_i32(-a) || !fits_i32(db.user(rid)->0.balance - a) {
                Some(ErrorKind::ConstraintViolation)
            } else if n + 2 > MAX_ID {
                Some(ErrorKind::UnknownError)
            } else {
                None
            }
        } else {
            Some(ErrorKind::ParameterInvalid)
        }
    }
}

/// What a successful booking of `req` for `user_id` did to the store, taking
/// `db` to `db2`, and what it returned as `o`; its time stamp is `o.entity.created`.
pub open spec fn applied(db: Database, db2: Database, user_id: i32, req: TransactionAddReq, o: TransactionObject) -> bool {
    let now = o.entity.created;
    let u = db.user(user_id as int)->0;
    let n = db.transactions@.len() as int;
    if is_value_request(req) {
        let a = req.amount->0 as int;
        let row = ledger_row(n + 1, user_id, None, None, None, None, req.comment, a, now);
        &&& db2.users@ == db.users@.update(user_id - 1, booked(u, a, now))
        &&& db2.articles@ == db.articles@
        &&& db2.transactions@ == db.transactions@.push(row)
        &&& o.entity == row
        &&& o.user == booked(u, a, now)
        &&& o.article is None && o.recipient is None && o.sender is None
    } else if is_purchase_request(req) {
        let aid = req.article_id->0;
        let art = db.article(aid as int)->0;
        let q = quantity_of(req);
        let a = purchase_amount(art.amount as int, q);
        let row = ledger_row(n + 1, user_id, Some(aid), None, None, Some(q as i32), req.comment, a, now);
        &&& db2.users@ == db.users@.update(user_id - 1, booked(u, a, now))
        &&& db2.articles@ == db.articles@.update(aid - 1, used_once_more(art))
        &&& db2.transactions@ == db.transactions@.push(row)
        &&& o.entity == row
        &&& o.user == booked(u, a, now)
        &&& o.article is Some
        &&& chain_of(o.article->0) == chain_from(db.articles@, aid as int).update(0, used_once_more(art))
        &&& o.recipient is None && o.sender is None
    } else {
        let rid = req.recipient_id->0;
        let rc = db.user(rid as int)->0;
        let a = req.amount->0 as int;
        let sent = ledger_row(n + 1, user_id, None, Some((n + 2) as i32), None, None, req.comment, a, now);
        let received = ledger_row(n + 2, rid, None, None, Some((n + 1) as i32), None, req.comment, -a, now);
        &&& db2.users@ == db.users@.update(user_id - 1, booked(u, a, now)).update(rid - 1, credited(rc, -a))
        &&& db2.articles@ == db.articles@
        &&& db2.transactions@ == db.transactions@.push(sent).push(received)
        &&& o.entity == sent
        &&& o.user == booked(u, a, now)
        &&& o.recipient == Some(credited(rc, -a))
        &&& o.article is None && o.sender is None
    }
}

fn not_found(what: &str) -> (r: ApiError)
    ensures
        r.spec_kind() == ErrorKind::EntityNotFound,
{
    ApiError::Db(DbError::EntityNotFound(String::from_str(what)))
}

fn invalid(what: &str) -> (r: ApiError)
    ensures
        r.spec_kind() == ErrorKind::ParameterInvalid,
{
    ApiError::Client(ClientError::ParameterInvalid(String::from_str(what)))
}

/// Books `req` for account `user_id` at time `now`, as one atomic unit: either
/// every row changes as `applied` says, or nothing changes and the failure is
/// the one `rejection` names.
pub fn add_transaction_at(
    db: &mut Database,
    settings: &StrichlisteSetting,
    user_id: i32,
    req: TransactionAddReq,
    now: String,
) -> (r: Result<TransactionObject, ApiError>)
    requires
        old(db).wf(),
    ensures
        final(db).wf(),
        r is Err <==> rejection(*old(db), *settings, user_id, req) is Some,
        r is Err ==> r->Err_0.spec_kind() == rejection(*old(db), *settings, user_id, req)->0,
        r is Err ==> *final(db) == *old(db),
        r is Ok ==> applied(*old(db), *final(db), user_id, req, r->Ok_0),
        r is Ok ==> r->Ok_0.entity.created == now,
{
    let user = match db.find_user(user_id) {
        Some(u) => u,
        None => return Err(not_found("Sender does not exist.")),
    };
    let quantity: i32 = match req.quantity {
        Some(q) => q,
        None => 1,
    };
    if req.amount.is_some() && req.article_id.is_none() && req.recipient_id.is_none() {
        let amount = req.amount.unwrap();
        let new_balance: i64 = user.balance as i64 + amount as i64;
        if let Err(e) = check_limit(settings, &new_balance, &(amount as i64)) {
            return Err(ApiError::Client(e));
        }
        match add_transaction_with_value_tx(db, user, &amount, req.comment, now) {
            Ok(o) => Ok(o),
            Err(e) => Err(ApiError::Db(e)),
        }
    } else if req.amount.is_none() && req.article_id.is_some() && req.recipient_id.is_none() && quantity >= 1 {
        let article_id = req.article_id.unwrap();
        let article: ArticleObject = match get_article_or_error_tx(db, article_id) {
            Ok(a) => a,
            Err(e) => return Err(ApiError::Db(e)),
        };
        proof {
            assert(chain_from(db.articles@, article_id as int)[0] == db.articles@[article_id - 1]);
            assert(chain_of(article)[0] == article.entity);
        }
        if !article.entity.active {
            return Err(not_found("Article is not active."));
        }
        proof {
            let x = article.entity.amount as int;
            let y = quantity as int;
            assert(-2147483648 * 2147483647 <= x * y <= 2147483647 * 2147483647) by (nonlinear_arith)
                requires
                    -2147483648 <= x <= 2147483647,
                    1 <= y <= 2147483647,
            ;
        }
        let amount: i64 = -(article.entity.amount as i64 * quantity as i64);
        let new_balance: i64 = user.balance as i64 + amount;
        if let Err(e) = check_limit(settings, &new_balance, &amount) {
            return Err(ApiError::Client(e));
        }
        let amount32 = amount as i32;
        let ghost before = article;
        let r = add_transaction_with_article_tx(db, user, &quantity, &amount32, article, req.comment, now);
        proof {
            if r is Ok {
                let o = r->Ok_0.article->0;
                assert(chain_of(o) =~= chain_of(before).update(0, used_once_more(before.entity)));
            }
        }
        match r {
            Ok(o) => Ok(o),
            Err(e) => Err(ApiError::Db(e)),
        }
    } else if req.amount.is_some() && req.article_id.is_none() && req.recipient_id.is_some()
        && req.amount.unwrap() < 0 && req.recipient_id.unwrap() != user_id {
        let amount = req.amount.unwrap();
        let recipient = match db.find_user(req.recipient_id.unwrap()) {
            Some(v) => v,
            None => return Err(not_found("Recipient does not exist.")),
        };
        // only the paying account is held to the boundaries
        let new_balance: i64 = user.balance as i64 + amount as i64;
        if let Err(e) = check_limit(settings, &new_balance, &(amount as i64)) {
            return Err(ApiError::Client(e));
        }
        match add_transaction_with_recipient_tx(db, user, &amount, recipient, req.comment, now) {
            Ok(o) => Ok(o),
            Err(e) => Err(ApiError::Db(e)),
        }
    } else {
        Err(invalid("Parameters don't match any addTransaction functionality."))
    }
}

/// Books `req` for account `user_id` now, as one atomic unit; see `add_transaction_at`.
pub fn add_transaction(
    db: &mut Database,
    settings: &StrichlisteSetting,
    user_id: i32,
    req: TransactionAddReq,
) -> (r: Result<TransactionObject, ApiError>)
    requires
        old(db).wf(),
    ensures
        final(db).wf(),
        r is Err <==> rejection(*old(db), *settings, user_id, req) is Some,
        r is Err ==> r->Err_0.spec_kind() == rejection(*old(db), *settings, user_id, req)->0,
        r is Err ==> *final(db) == *old(db),
        r is Ok ==> applied(*old(db), *final(db), user_id, req, r->Ok_0),
{
    let now = cur_datetime_str();
    add_transaction_at(db, settings, user_id, req, now)
}

} // verus!
