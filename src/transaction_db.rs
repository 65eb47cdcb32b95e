use crate::article_db::{bytes_lt, chain_from, get_article_tx, str_lt};
use crate::db::{Database, MAX_ID};
use crate::error::DbError;
use crate::model::{
    chain_of, copy_article, copy_opt_string, copy_transaction, copy_user, ArticleEntity, ArticleObject, TransactionEntity,
    TransactionObject, UserEntity,
};
use vstd::prelude::*;

verus! {

/// The acting account after its balance moved by `delta` at time `now`.
pub open spec fn booked(u: UserEntity, delta: int, now: String) -> UserEntity {
    UserEntity {
        id: u.id,
        name: u.name,
        email: u.email,
        balance: (u.balance + delta) as i32,
        active: u.active,
        disabled: u.disabled,
        created: u.created,
        updated: Some(now),
    }
}

/// A counterpart account after its balance moved by `delta`.
pub open spec fn credited(u: UserEntity, delta: int) -> UserEntity {
    UserEntity {
        id: u.id,
        name: u.name,
        email: u.email,
        balance: (u.balance + delta) as i32,
        active: u.active,
        disabled: u.disabled,
        created: u.created,
        updated: u.updated,
    }
}

/// An article revision after one more purchase.
pub open spec fn used_once_more(a: ArticleEntity) -> ArticleEntity {
    ArticleEntity {
        id: a.id,
        precursor_id: a.precursor_id,
        name: a.name,
        barcode: a.barcode,
        amount: a.amount,
        active: a.active,
        created: a.created,
        usage_count: (a.usage_count + 1) as i32,
    }
}

/// A ledger row with the given account, article, links, quantity and amount.
pub open spec fn ledger_row(
    id: int,
    user_id: i32,
    article_id: Option<i32>,
    recipient: Option<i32>,
    sender: Option<i32>,
    quantity: Option<i32>,
    comment: Option<String>,
    amount: int,
    now: String,
) -> TransactionEntity {
    TransactionEntity {
        id: id as i32,
        user_id,
        article_id,
        recipient_transaction_id: recipient,
        sender_transaction_id: sender,
        quantity,
        comment,
        amount: amount as i32,
        deleted: false,
        created: now,
    }
}

/// Whether a 32-bit signed column can hold `v`.
pub open spec fn fits_i32(v: int) -> bool {
    i32::MIN <= v <= i32::MAX
}

fn fits_in_i32(v: i64) -> (r: bool)
    ensures
        r == fits_i32(v as int),
{
    i32::MIN as i64 <= v && v <= i32::MAX as i64
}

fn new_row(
    id: i32,
    user_id: i32,
    article_id: Option<i32>,
    sender: Option<i32>,
    quantity: Option<i32>,
    comment: &Option<String>,
    amount: i32,
    now: &String,
) -> (r: TransactionEntity)
    ensures
        r == ledger_row(id as int, user_id, article_id, None, sender, quantity, *comment, amount as int, *now),
{
    TransactionEntity {
        id,
        user_id,
        article_id,
        recipient_transaction_id: None,
        sender_transaction_id: sender,
        quantity,
        comment: copy_opt_string(comment),
        amount,
        deleted: false,
        created: now.clone(),
    }
}

/// Books `amount` on `user`'s account and appends one ledger row for it.
/// Fails with `UnknownError`, changing nothing, when the ledger has no id left.
pub fn add_transaction_with_value_tx(
    db: &mut Database,
    user: UserEntity,
    amount: &i32,
    comment: Option<String>,
    now: String,
) -> (r: Result<TransactionObject, DbError>)
    requires
        old(db).wf(),
        old(db).user(user.id as int) == Some(user),
    ensures
        final(db).wf(),
        r is Err <==> (!fits_i32(user.balance + *amount) || old(db).transactions@.len() >= MAX_ID),
        r is Err ==> *final(db) == *old(db),
        r is Err ==> (!fits_i32(user.balance + *amount) ==> r->Err_0 is ConstraintViolation),
        r is Err ==> (fits_i32(user.balance + *amount) ==> r->Err_0 is UnknownError),
        r is Ok ==> {
            let row = ledger_row(old(db).transactions@.len() + 1int, user.id, None, None, None, None, comment, *amount as int, now);
            &&& final(db).users@ == old(db).users@.update(user.id - 1, booked(user, *amount as int, now))
            &&& final(db).articles@ == old(db).articles@
            &&& final(db).transactions@ == old(db).transactions@.push(row)
            &&& r->Ok_0.entity == row
            &&& r->Ok_0.user == booked(user, *amount as int, now)
            &&& final(db).user(user.id as int)->0.balance == user.balance + *amount
            &&& r->Ok_0.user.balance == user.balance + *amount
            &&& r->Ok_0.entity.amount == *amount
            &&& r->Ok_0.article is None
            &&& r->Ok_0.recipient is None
            &&& r->Ok_0.sender is None
        },
{
    if !fits_in_i32(user.balance as i64 + *amount as i64) {
        return Err(DbError::ConstraintViolation(String::from_str("balance out of range")));
    }
    if db.transactions.len() >= MAX_ID as usize {
        return Err(DbError::UnknownError(String::from_str("ledger has no row id left")));
    }
    let id = (db.transactions.len() + 1) as i32;
    let row = new_row(id, user.id, None, None, None, &comment, *amount, &now);
    let mut updated = copy_user(&user);
    updated.balance = user.balance + *amount;
    updated.updated = Some(now.clone());
    db.users.set((user.id - 1) as usize, copy_user(&updated));
    db.transactions.push(copy_transaction(&row));
    Ok(TransactionObject { entity: row, user: updated, article: None, recipient: None, sender: None })
}

/// Books the purchase of `quantity` units of `article` for `amount` on `user`'s
/// account, counts one more use of the article, and appends one ledger row.
/// Fails, changing nothing, with `ConstraintViolation` when the use counter is
/// full and with `UnknownError` when the ledger has no id left.
pub fn add_transaction_with_article_tx(
    db: &mut Database,
    user: UserEntity,
    quantity: &i32,
    amount: &i32,
    article: ArticleObject,
    comment: Option<String>,
    now: String,
) -> (r: Result<TransactionObject, DbError>)
    requires
        old(db).wf(),
        old(db).user(user.id as int) == Some(user),
        old(db).article(article.entity.id as int) == Some(article.entity),
    ensures
        final(db).wf(),
        r is Err <==> (article.entity.usage_count == i32::MAX || !fits_i32(user.balance + *amount)
            || old(db).transactions@.len() >= MAX_ID),
        r is Err ==> *final(db) == *old(db),
        r is Err ==> ((article.entity.usage_count == i32::MAX || !fits_i32(user.balance + *amount))
            ==> r->Err_0 is ConstraintViolation),
        r is Err ==> ((article.entity.usage_count < i32::MAX && fits_i32(user.balance + *amount))
            ==> r->Err_0 is UnknownError),
        r is Ok ==> {
            let row = ledger_row(
                old(db).transactions@.len() as int + 1, user.id, Some(article.entity.id), None, None,
                Some(*quantity), comment, *amount as int, now);
            &&& final(db).users@ == old(db).users@.update(user.id - 1, booked(user, *amount as int, now))
            &&& final(db).articles@ == old(db).articles@.update(article.entity.id - 1, used_once_more(article.entity))
            &&& final(db).transactions@ == old(db).transactions@.push(row)
            &&& r->Ok_0.entity == row
            &&& r->Ok_0.user == booked(user, *amount as int, now)
            &&& final(db).user(user.id as int)->0.balance == user.balance + *amount
            &&& r->Ok_0.user.balance == user.balance + *amount
            &&& r->Ok_0.entity.amount == *amount
            &&& r->Ok_0.article == Some(ArticleObject { entity: used_once_more(article.entity), precursor: article.precursor })
            &&& final(db).article(article.entity.id as int)->0.usage_count == article.entity.usage_count + 1
            &&& r->Ok_0.recipient is None
            &&& r->Ok_0.sender is None
        },
{
    if article.entity.usage_count == i32::MAX {
        return Err(DbError::ConstraintViolation(String::from_str("article usage count is full")));
    }
    if !fits_in_i32(user.balance as i64 + *amount as i64) {
        return Err(DbError::ConstraintViolation(String::from_str("balance out of range")));
    }
    if db.transactions.len() >= MAX_ID as usize {
        return Err(DbError::UnknownError(String::from_str("ledger has no row id left")));
    }
    let id = (db.transactions.len() + 1) as i32;
    let row = new_row(id, user.id, Some(article.entity.id), None, Some(*quantity), &comment, *amount, &now);
    let mut updated = copy_user(&user);
    updated.balance = user.balance + *amount;
    updated.updated = Some(now.clone());
    db.users.set((user.id - 1) as usize, copy_user(&updated));
    let mut used = copy_article(&article.entity);
    used.usage_count = article.entity.usage_count + 1;
    let ghost arts = db.articles@;
    db.articles.set((article.entity.id - 1) as usize, copy_article(&used));
    proof {
        let a2 = db.articles@;
        assert(forall|i: int| 0 <= i < a2.len() ==> #[trigger] a2[i].precursor_id == arts[i].precursor_id);
        assert(forall|i: int| 0 <= i < a2.len() ==> #[trigger] a2[i].active == arts[i].active);
        assert(forall|i: int| 0 <= i < a2.len() ==> #[trigger] a2[i].id == arts[i].id);
        assert(forall|i: int, j: int| 0 <= i < a2.len() && 0 <= j < a2.len() ==>
            #[trigger] crate::db::replaces(a2, j, i) == crate::db::replaces(arts, j, i));
    }
    db.transactions.push(copy_transaction(&row));
    Ok(TransactionObject {
        entity: row,
        user: updated,
        article: Some(ArticleObject { entity: used, precursor: article.precursor }),
        recipient: None,
        sender: None,
    })
}

/// Moves `amount` (negative) from `user` to `recipient`: debits the payer by
/// `amount`, credits the recipient by `-amount`, appends the payer's row and the
/// recipient's row, and links the two rows to each other. Fails, changing
/// nothing, with `ConstraintViolation` when the recipient's balance or row could
/// not hold the result, and with `UnknownError` when the ledger has no two ids left.
pub fn add_transaction_with_recipient_tx(
    db: &mut Database,
    user: UserEntity,
    amount: &i32,
    recipient: UserEntity,
    comment: Option<String>,
    now: String,
) -> (r: Result<TransactionObject, DbError>)
    requires
        old(db).wf(),
        old(db).user(user.id as int) == Some(user),
        old(db).user(recipient.id as int) == Some(recipient),
        user.id != recipient.id,
    ensures
        final(db).wf(),
        r is Err <==> (!fits_i32(user.balance + *amount) || !fits_i32(-(*amount as int))
            || !fits_i32(recipient.balance - *amount) || old(db).transactions@.len() + 2 > MAX_ID),
        r is Err ==> *final(db) == *old(db),
        r is Err ==> ((!fits_i32(user.balance + *amount) || !fits_i32(-(*amount as int))
            || !fits_i32(recipient.balance - *amount)) ==> r->Err_0 is ConstraintViolation),
        r is Err ==> ((fits_i32(user.balance + *amount) && fits_i32(-(*amount as int))
            && fits_i32(recipient.balance - *amount)) ==> r->Err_0 is UnknownError),
        r is Ok ==> {
            let s = old(db).transactions@.len() as int + 1;
            let sent = ledger_row(s, user.id, None, Some((s + 1) as i32), None, None, comment, *amount as int, now);
            let received = ledger_row(s + 1, recipient.id, None, None, Some(s as i32), None, comment, -(*amount as int), now);
            &&& final(db).users@ == old(db).users@.update(user.id - 1, booked(user, *amount as int, now))
                    .update(recipient.id - 1, credited(recipient, -(*amount as int)))
            &&& final(db).articles@ == old(db).articles@
            &&& final(db).transactions@ == old(db).transactions@.push(sent).push(received)
            &&& r->Ok_0.entity == sent
            &&& r->Ok_0.user == booked(user, *amount as int, now)
            &&& final(db).user(user.id as int)->0.balance == user.balance + *amount
            &&& r->Ok_0.user.balance == user.balance + *amount
            &&& r->Ok_0.entity.amount == *amount
            &&& r->Ok_0.recipient == Some(credited(recipient, -(*amount as int)))
            &&& final(db).user(recipient.id as int)->0.balance == recipient.balance - *amount
            &&& r->Ok_0.recipient->0.balance == recipient.balance - *amount
            &&& final(db).transaction(s)->0 == sent && final(db).transaction(s + 1)->0 == received
            &&& sent.recipient_transaction_id == Some(received.id) && received.sender_transaction_id == Some(sent.id)
            &&& r->Ok_0.article is None
            &&& r->Ok_0.sender is None
        },
{
    if !fits_in_i32(user.balance as i64 + *amount as i64) {
        return Err(DbError::ConstraintViolation(String::from_str("balance out of range")));
    }
    if *amount == i32::MIN {
        return Err(DbError::ConstraintViolation(String::from_str("transfer amount out of range")));
    }
    let credit: i64 = recipient.balance as i64 - *amount as i64;
    if credit < i32::MIN as i64 || credit > i32::MAX as i64 {
        return Err(DbError::ConstraintViolation(String::from_str("recipient balance out of range")));
    }
    if db.transactions.len() >= (MAX_ID - 1) as usize {
        return Err(DbError::UnknownError(String::from_str("ledger has no row id left")));
    }
    let mut payer = copy_user(&user);
    payer.balance = user.balance + *amount;
    payer.updated = Some(now.clone());
    let mut payee = copy_user(&recipient);
    payee.balance = credit as i32;
    db.users.set((user.id - 1) as usize, copy_user(&payer));
    db.users.set((recipient.id - 1) as usize, copy_user(&payee));

    // The payer's row is written first; it learns the recipient row's id once
    // that row exists.
    let sid = (db.transactions.len() + 1) as i32;
    let mut sent = new_row(sid, user.id, None, None, None, &comment, *amount, &now);
    db.transactions.push(copy_transaction(&sent));
    let rid = (db.transactions.len() + 1) as i32;
    let received = new_row(rid, recipient.id, None, Some(sid), None, &comment, -*amount, &now);
    db.transactions.push(received);
    sent.recipient_transaction_id = Some(rid);
    db.transactions.set((sid - 1) as usize, copy_transaction(&sent));
    proof {
        let s = sid as int;
        let t = db.transactions@;
        assert(t.len() == s + 1);
        assert(forall|i: int| 0 <= i < t.len() ==> #[trigger] t[i].id == i + 1);
    }
    Ok(TransactionObject { entity: sent, user: payer, article: None, recipient: Some(payee), sender: None })
}

/// The rows among `txs` that belong to account `user_id`, later rows first.
pub open spec fn rows_of(txs: Seq<TransactionEntity>, user_id: i32) -> Seq<TransactionEntity>
    decreases txs.len(),
{
    if txs.len() == 0 {
        Seq::empty()
    } else {
        let rest = rows_of(txs.drop_last(), user_id);
        if txs.last().user_id == user_id {
            seq![txs.last()].add(rest)
        } else {
            rest
        }
    }
}

/// The account that owns ledger row `id`, if the row and the account exist.
pub open spec fn owner_of(db: Database, id: Option<i32>) -> Option<UserEntity> {
    match id {
        Some(t) => match db.transaction(t as int) {
            Some(row) => db.user(row.user_id as int),
            None => None,
        },
        None => None,
    }
}

/// What listing row `t` shows: its account, its article with the article's
/// chain, and the accounts behind its linked counterpart rows.
pub open spec fn listed_as(db: Database, t: TransactionEntity, o: TransactionObject) -> bool {
    &&& o.entity == t
    &&& db.user(t.user_id as int) == Some(o.user)
    &&& (o.article is Some <==> t.article_id is Some)
    &&& (o.article is Some ==> chain_of(o.article->0) == chain_from(db.articles@, t.article_id->0 as int))
    &&& o.recipient == owner_of(db, t.recipient_transaction_id)
    &&& o.sender == owner_of(db, t.sender_transaction_id)
}

/// Row `a`'s stamp sorts strictly before row `b`'s, comparing UTF-8 bytes.
pub open spec fn stamp_lt(a: TransactionEntity, b: TransactionEntity) -> bool {
    bytes_lt(vstd::utf8::encode_utf8(a.created@), vstd::utf8::encode_utf8(b.created@))
}

/// Where row `x` goes into `s`: after every row stamped no earlier than it.
pub open spec fn stamp_pos(s: Seq<TransactionEntity>, x: TransactionEntity) -> int
    decreases s.len(),
{
    if s.len() == 0 {
        0
    } else if stamp_lt(s.last(), x) {
        stamp_pos(s.drop_last(), x)
    } else {
        s.len() as int
    }
}

/// `s` ordered by stamp, latest first; rows with equal stamps keep their order.
pub open spec fn latest_first(s: Seq<TransactionEntity>) -> Seq<TransactionEntity>
    decreases s.len(),
{
    if s.len() == 0 {
        Seq::empty()
    } else {
        let t = latest_first(s.drop_last());
        t.insert(stamp_pos(t, s.last()), s.last())
    }
}

/// Account `user_id`'s ledger rows as listed: latest stamp first, and among
/// equal stamps the later row first.
pub open spec fn listing_of(txs: Seq<TransactionEntity>, user_id: i32) -> Seq<TransactionEntity> {
    latest_first(rows_of(txs, user_id))
}

/// Looks up the account behind linked ledger row `transact_id`.
fn get_child_transaction_tx(db: &Database, transact_id: Option<i32>) -> (r: Option<UserEntity>)
    requires
        db.wf(),
    ensures
        r == owner_of(*db, transact_id),
{
    match transact_id {
        Some(t) => {
            if 1 <= t && (t as usize) <= db.transactions.len() {
                db.find_user(db.transactions[(t - 1) as usize].user_id)
            } else {
                None
            }
        },
        None => None,
    }
}

/// Splitting the ledger splits its rows for one account: the later part's rows
/// come first.
pub proof fn lemma_rows_concat(a: Seq<TransactionEntity>, b: Seq<TransactionEntity>, user_id: i32)
    ensures
        rows_of(a.add(b), user_id) == rows_of(b, user_id).add(rows_of(a, user_id)),
    decreases b.len(),
{
    if b.len() == 0 {
        assert(a.add(b) =~= a);
        assert(rows_of(b, user_id).add(rows_of(a, user_id)) =~= rows_of(a, user_id));
    } else {
        assert(a.add(b).drop_last() =~= a.add(b.drop_last()));
        assert(a.add(b).last() == b.last());
        lemma_rows_concat(a, b.drop_last(), user_id);
        if b.last().user_id == user_id {
            assert(seq![b.last()].add(rows_of(b.drop_last(), user_id).add(rows_of(a, user_id)))
                =~= seq![b.last()].add(rows_of(b.drop_last(), user_id)).add(rows_of(a, user_id)));
        }
    }
}

/// An account has no more rows than the ledger.
pub proof fn lemma_rows_len(s: Seq<TransactionEntity>, user_id: i32)
    ensures
        rows_of(s, user_id).len() <= s.len(),
    decreases s.len(),
{
    if s.len() > 0 {
        lemma_rows_len(s.drop_last(), user_id);
    }
}

proof fn lemma_stamp_pos_bounds(s: Seq<TransactionEntity>, x: TransactionEntity)
    ensures
        0 <= stamp_pos(s, x) <= s.len(),
    decreases s.len(),
{
    if s.len() > 0 {
        lemma_stamp_pos_bounds(s.drop_last(), x);
    }
}

fn insert_by_stamp(out: &mut Vec<TransactionEntity>, x: TransactionEntity)
    ensures
        final(out)@ == old(out)@.insert(stamp_pos(old(out)@, x), x),
{
    let ghost s = out@;
    let mut p: usize = out.len();
    proof {
        assert(s.take(p as int) =~= s);
    }
    while p > 0 && str_lt(&out[p - 1].created, &x.created)
        invariant
            out@ == s,
            p <= s.len(),
            stamp_pos(s, x) == stamp_pos(s.take(p as int), x),
        decreases p,
    {
        proof {
            assert(s.take(p as int).drop_last() =~= s.take(p as int - 1));
        }
        p -= 1;
    }
    proof {
        if p > 0 {
            assert(s.take(p as int).last() == s[p as int - 1]);
        }
    }
    out.insert(p, x);
}

/// Lists account `user_id`'s ledger rows latest first, skipping `offset` rows and
/// returning at most `limit` (all when it is negative), each with the account, article and counterparts it
/// concerns; nothing for an absent account.
pub fn get_transactions(db: &Database, user_id: &i32, limit: &i32, offset: &i32) -> (r: Vec<TransactionObject>)
    requires
        db.wf(),
    ensures
        db.user(*user_id as int) is None ==> r@.len() == 0,
        db.user(*user_id as int) is Some ==> ({
            let rows = listing_of(db.transactions@, *user_id);
            let skip = if *offset < 0 { 0 } else { *offset as int };
            let take = if *limit < 0 { rows.len() as int } else { *limit as int };
            let shown = if skip >= rows.len() {
                Seq::<TransactionEntity>::empty()
            } else if skip + take >= rows.len() {
                rows.subrange(skip, rows.len() as int)
            } else {
                rows.subrange(skip, skip + take)
            };
            &&& r@.len() == shown.len()
            &&& forall|k: int| 0 <= k < r@.len() ==> listed_as(*db, shown[k], #[trigger] r@[k])
            &&& forall|k: int| 0 <= k < r@.len() ==> (#[trigger] r@[k]).entity.user_id == *user_id
                && r@[k].user.id == *user_id
        }),
{
    let ghost txs = db.transactions@;
    let ghost uid = *user_id;
    let user = match db.find_user(*user_id) {
        Some(u) => u,
        None => return Vec::new(),
    };
    let mut sorted: Vec<TransactionEntity> = Vec::new();
    let mut i: usize = db.transactions.len();
    proof {
        assert(txs.skip(i as int) =~= Seq::<TransactionEntity>::empty());
        assert(rows_of(txs.skip(i as int), uid) =~= Seq::<TransactionEntity>::empty());
    }
    while i > 0
        invariant
            db.wf(),
            txs == db.transactions@,
            uid == *user_id,
            i <= txs.len(),
            sorted@ == latest_first(rows_of(txs.skip(i as int), uid)),
            forall|k: int| 0 <= k < sorted@.len() ==> {
                let t = #[trigger] sorted@[k];
                &&& t.user_id == uid
                &&& t.article_id is Some ==> 1 <= t.article_id->0 <= db.articles@.len()
            },
        decreases i,
    {
        let ghost j = i as int;
        i -= 1;
        let ghost i0 = i as int;
        let ghost t = txs[i0];
        proof {
            assert(txs.skip(i0) =~= seq![t].add(txs.skip(j)));
            lemma_rows_concat(seq![t], txs.skip(j), uid);
            assert(seq![t].drop_last() =~= Seq::<TransactionEntity>::empty());
            assert(rows_of(Seq::<TransactionEntity>::empty(), uid) =~= Seq::<TransactionEntity>::empty());
            if t.user_id == uid {
                assert(rows_of(seq![t], uid) =~= seq![t]);
                assert(rows_of(txs.skip(i0), uid) =~= rows_of(txs.skip(j), uid).push(t));
                assert(rows_of(txs.skip(j), uid).push(t).drop_last() =~= rows_of(txs.skip(j), uid));
            } else {
                assert(rows_of(seq![t], uid) =~= Seq::<TransactionEntity>::empty());
                assert(rows_of(txs.skip(i0), uid) =~= rows_of(txs.skip(j), uid));
            }
        }
        if db.transactions[i].user_id == *user_id {
            let ghost before = sorted@;
            insert_by_stamp(&mut sorted, copy_transaction(&db.transactions[i]));
            proof {
                assert forall|k: int| 0 <= k < sorted@.len() implies {
                    let u = #[trigger] sorted@[k];
                    &&& u.user_id == uid
                    &&& u.article_id is Some ==> 1 <= u.article_id->0 <= db.articles@.len()
                } by {
                    let p = stamp_pos(before, t);
                    lemma_stamp_pos_bounds(before, t);
                    if k < p {
                        assert(sorted@[k] == before[k]);
                    } else if k > p {
                        assert(sorted@[k] == before[k - 1]);
                    }
                }
            }
        }
    }
    proof {
        assert(txs.skip(0) =~= txs);
    }
    let ghost all = sorted@;
    let n = sorted.len();
    let skip: usize = if *offset < 0 { 0 } else { *offset as usize };
    let take: usize = if *limit < 0 { n } else { *limit as usize };
    let mut result: Vec<TransactionObject> = Vec::new();
    let mut k: usize = skip;
    while k < n && k - skip < take
        invariant
            db.wf(),
            txs == db.transactions@,
            uid == *user_id,
            db.user(uid as int) == Some(user),
            all == sorted@,
            n == all.len(),
            skip <= k,
            k - skip <= take,
            k <= n || result@.len() == 0,
            k <= n ==> result@.len() == k - skip,
            k > n ==> k == skip,
            forall|m: int| 0 <= m < all.len() ==> {
                let t = #[trigger] all[m];
                &&& t.user_id == uid
                &&& t.article_id is Some ==> 1 <= t.article_id->0 <= db.articles@.len()
            },
            forall|m: int| 0 <= m < result@.len() ==> listed_as(*db, all[skip + m], #[trigger] result@[m]),
            forall|m: int| 0 <= m < result@.len() ==> (#[trigger] result@[m]).entity.user_id == uid
                && result@[m].user.id == uid,
        decreases n - k,
    {
        let t = &sorted[k];
        let article = match get_article_tx(db, t.article_id) {
            Some(b) => Some(*b),
            None => None,
        };
        let o = TransactionObject {
            entity: copy_transaction(t),
            user: copy_user(&user),
            article,
            recipient: get_child_transaction_tx(db, t.recipient_transaction_id),
            sender: get_child_transaction_tx(db, t.sender_transaction_id),
        };
        result.push(o);
        k += 1;
    }
    result
}

/// Counts the ledger rows of account `user_id`, or of every account when none is given.
pub fn num_active(db: &Database, user_id: Option<i32>) -> (r: i32)
    requires
        db.wf(),
    ensures
        user_id is None ==> r as int == db.transactions@.len(),
        user_id is Some ==> r as int == rows_of(db.transactions@, user_id->0).len(),
{
    match user_id {
        None => db.transactions.len() as i32,
        Some(uid) => {
            let ghost txs = db.transactions@;
            let mut count: i32 = 0;
            let mut i: usize = 0;
            while i < db.transactions.len()
                invariant
                    db.wf(),
                    txs == db.transactions@,
                    i <= txs.len(),
                    count as int == rows_of(txs.take(i as int), uid).len(),
                decreases txs.len() - i,
            {
                proof {
                    assert(txs.take(i as int + 1).drop_last() =~= txs.take(i as int));
                    lemma_rows_len(txs.take(i as int), uid);
                }
                if db.transactions[i].user_id == uid {
                    count += 1;
                }
                i += 1;
            }
            proof {
                assert(txs.take(i as int) =~= txs);
            }
            count
        },
    }
}

} // verus!
