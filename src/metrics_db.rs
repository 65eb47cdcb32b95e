use crate::db::Database;
use crate::error::DbError;
use crate::article_db::{bytes_lt, chain_from, get_article_tx, str_lt};
use crate::model::{
    chain_of, DailyTransaction, SystemMetrics, TransactionSum, TransactionEntity, TransactionStatsEntity, UserArticles, UserEntity, UserMetrics,
    UserTransactions,
};
use vstd::prelude::*;

verus! {

/// The summed balance of the accounts that are not disabled.
pub open spec fn enabled_balance(users: Seq<UserEntity>) -> int
    decreases users.len(),
{
    if users.len() == 0 {
        0
    } else {
        enabled_balance(users.drop_last()) + if users.last().disabled { 0 } else { users.last().balance as int }
    }
}

/// Whether row `t` is one of account `user_id`'s transfer rows: a received one
/// (`incoming`, it names a sender row) or a sent one (it names a recipient row).
pub open spec fn is_transfer_row(t: TransactionEntity, user_id: i32, incoming: bool) -> bool {
    t.user_id == user_id && if incoming {
        t.sender_transaction_id is Some
    } else {
        t.recipient_transaction_id is Some
    }
}

/// The number of account `user_id`'s transfer rows of the given direction.
pub open spec fn transfer_count(txs: Seq<TransactionEntity>, user_id: i32, incoming: bool) -> int
    decreases txs.len(),
{
    if txs.len() == 0 {
        0
    } else {
        transfer_count(txs.drop_last(), user_id, incoming) + if is_transfer_row(txs.last(), user_id, incoming) { 1int } else { 0 }
    }
}

/// The summed amount of account `user_id`'s transfer rows of the given direction.
pub open spec fn transfer_sum(txs: Seq<TransactionEntity>, user_id: i32, incoming: bool) -> int
    decreases txs.len(),
{
    if txs.len() == 0 {
        0
    } else {
        transfer_sum(txs.drop_last(), user_id, incoming) + if is_transfer_row(txs.last(), user_id, incoming) { txs.last().amount as int } else { 0 }
    }
}

/// The number of account `user_id`'s rows that are not marked deleted.
pub open spec fn live_count(txs: Seq<TransactionEntity>, user_id: i32) -> int
    decreases txs.len(),
{
    if txs.len() == 0 {
        0
    } else {
        live_count(txs.drop_last(), user_id) + if txs.last().user_id == user_id && !txs.last().deleted { 1int } else { 0 }
    }
}

/// The balance held by all accounts that are not disabled.
pub fn system_balance(db: &Database) -> (r: i64)
    requires
        db.wf(),
    ensures
        r as int == enabled_balance(db.users@),
{
    let ghost us = db.users@;
    let mut sum: i64 = 0;
    let mut i: usize = 0;
    while i < db.users.len()
        invariant
            db.wf(),
            us == db.users@,
            i <= us.len(),
            sum as int == enabled_balance(us.take(i as int)),
            -2147483648 * i <= sum <= 2147483647 * i,
        decreases us.len() - i,
    {
        proof {
            assert(us.take(i as int + 1).drop_last() =~= us.take(i as int));
        }
        if !db.users[i].disabled {
            sum = sum + db.users[i].balance as i64;
        }
        i += 1;
    }
    proof {
        assert(us.take(i as int) =~= us);
    }
    sum
}

/// The number of ledger rows.
pub fn num_transactions(db: &Database) -> (r: i32)
    requires
        db.wf(),
    ensures
        r as int == db.transactions@.len(),
{
    db.transactions.len() as i32
}

/// The number of accounts.
pub fn num_users(db: &Database) -> (r: i32)
    requires
        db.wf(),
    ensures
        r as int == db.users@.len(),
{
    db.users.len() as i32
}

/// Counts and sums account `user_id`'s received (`incoming`) or sent transfer
/// rows. Fails with `UnknownError` when the sum does not fit the result.
pub fn user_transaction_stat(db: &Database, user_id: &i32, incoming: bool) -> (r: Result<TransactionStatsEntity, DbError>)
    requires
        db.wf(),
    ensures
        r is Ok <==> i32::MIN <= transfer_sum(db.transactions@, *user_id, incoming) <= i32::MAX,
        r is Ok ==> r->Ok_0.count as int == transfer_count(db.transactions@, *user_id, incoming)
            && r->Ok_0.amount as int == transfer_sum(db.transactions@, *user_id, incoming),
        r is Err ==> r->Err_0 is UnknownError,
{
    let ghost txs = db.transactions@;
    let mut count: i32 = 0;
    let mut sum: i64 = 0;
    let mut i: usize = 0;
    while i < db.transactions.len()
        invariant
            db.wf(),
            txs == db.transactions@,
            i <= txs.len(),
            count as int == transfer_count(txs.take(i as int), *user_id, incoming),
            sum as int == transfer_sum(txs.take(i as int), *user_id, incoming),
            0 <= count <= i,
            -2147483648 * i <= sum <= 2147483647 * i,
        decreases txs.len() - i,
    {
        proof {
            assert(txs.take(i as int + 1).drop_last() =~= txs.take(i as int));
        }
        let t = &db.transactions[i];
        let hit = t.user_id == *user_id && if incoming {
            t.sender_transaction_id.is_some()
        } else {
            t.recipient_transaction_id.is_some()
        };
        if hit {
            count = count + 1;
            sum = sum + t.amount as i64;
        }
        i += 1;
    }
    proof {
        assert(txs.take(i as int) =~= txs);
    }
    if sum < i32::MIN as i64 || sum > i32::MAX as i64 {
        return Err(DbError::UnknownError(String::from_str("transfer sum out of range")));
    }
    Ok(TransactionStatsEntity { count, amount: sum as i32 })
}

/// Account `user_id`'s row count, with its received and sent transfer statistics.
pub fn user_transaction_stats(db: &Database, user_id: &i32) -> (r: Result<UserTransactions, DbError>)
    requires
        db.wf(),
    ensures
        r is Ok <==> (i32::MIN <= transfer_sum(db.transactions@, *user_id, true) <= i32::MAX
            && i32::MIN <= transfer_sum(db.transactions@, *user_id, false) <= i32::MAX),
        r is Ok ==> {
            let s = r->Ok_0;
            &&& s.count as int == live_count(db.transactions@, *user_id)
            &&& s.incoming.count as int == transfer_count(db.transactions@, *user_id, true)
            &&& s.incoming.amount as int == transfer_sum(db.transactions@, *user_id, true)
            &&& s.outgoing.count as int == transfer_count(db.transactions@, *user_id, false)
            &&& s.outgoing.amount as int == transfer_sum(db.transactions@, *user_id, false)
        },
        r is Err ==> r->Err_0 is UnknownError,
{
    let ghost txs = db.transactions@;
    let mut count: i32 = 0;
    let mut i: usize = 0;
    while i < db.transactions.len()
        invariant
            db.wf(),
            txs == db.transactions@,
            i <= txs.len(),
            count as int == live_count(txs.take(i as int), *user_id),
            0 <= count <= i,
        decreases txs.len() - i,
    {
        proof {
            assert(txs.take(i as int + 1).drop_last() =~= txs.take(i as int));
        }
        if db.transactions[i].user_id == *user_id && !db.transactions[i].deleted {
            count = count + 1;
        }
        i += 1;
    }
    proof {
        assert(txs.take(i as int) =~= txs);
    }
    let incoming = match user_transaction_stat(db, user_id, true) {
        Ok(s) => s,
        Err(e) => return Err(e),
    };
    let outgoing = match user_transaction_stat(db, user_id, false) {
        Ok(s) => s,
        Err(e) => return Err(e),
    };
    Ok(UserTransactions { count, outgoing, incoming })
}

/// Whether row `t` is a purchase of article `article_id` by account `user_id`.
pub open spec fn is_purchase_of(t: TransactionEntity, user_id: i32, article_id: int) -> bool {
    t.user_id == user_id && t.article_id is Some && t.article_id->0 == article_id
}

/// How many times account `user_id` bought article `article_id`.
pub open spec fn purchase_count(txs: Seq<TransactionEntity>, user_id: i32, article_id: int) -> int
    decreases txs.len(),
{
    if txs.len() == 0 {
        0
    } else {
        purchase_count(txs.drop_last(), user_id, article_id) + if is_purchase_of(txs.last(), user_id, article_id) { 1int } else { 0 }
    }
}

/// The summed amount of account `user_id`'s purchases of article `article_id`.
pub open spec fn purchase_sum(txs: Seq<TransactionEntity>, user_id: i32, article_id: int) -> int
    decreases txs.len(),
{
    if txs.len() == 0 {
        0
    } else {
        purchase_sum(txs.drop_last(), user_id, article_id) + if is_purchase_of(txs.last(), user_id, article_id) { txs.last().amount as int } else { 0 }
    }
}

/// The ids among the first `n` articles that account `user_id` bought at least once, ascending.
pub open spec fn bought(txs: Seq<TransactionEntity>, n: int, user_id: i32) -> Seq<int>
    decreases n,
{
    if n <= 0 {
        Seq::empty()
    } else if purchase_count(txs, user_id, n) > 0 {
        bought(txs, n - 1, user_id).push(n)
    } else {
        bought(txs, n - 1, user_id)
    }
}

/// Where article `x` goes into `s`: after every article bought at least as often.
pub open spec fn count_insert_pos(txs: Seq<TransactionEntity>, user_id: i32, s: Seq<int>, x: int) -> int
    decreases s.len(),
{
    if s.len() == 0 {
        0
    } else if purchase_count(txs, user_id, s.last()) < purchase_count(txs, user_id, x) {
        count_insert_pos(txs, user_id, s.drop_last(), x)
    } else {
        s.len() as int
    }
}

/// `s` ordered by how often account `user_id` bought each, most often first;
/// equally often bought articles keep their order.
pub open spec fn sort_by_count(txs: Seq<TransactionEntity>, user_id: i32, s: Seq<int>) -> Seq<int>
    decreases s.len(),
{
    if s.len() == 0 {
        Seq::empty()
    } else {
        let t = sort_by_count(txs, user_id, s.drop_last());
        t.insert(count_insert_pos(txs, user_id, t, s.last()), s.last())
    }
}

/// The articles account `user_id` bought, most often bought first.
pub open spec fn bought_by_count(db: Database, user_id: i32) -> Seq<int> {
    sort_by_count(db.transactions@, user_id, bought(db.transactions@, db.articles@.len() as int, user_id))
}

/// Whether every per-article total of account `user_id` fits a 32-bit result.
pub open spec fn purchases_fit(db: Database, user_id: i32) -> bool {
    forall|k: int| 0 <= k < bought_by_count(db, user_id).len()
        ==> i32::MIN <= -purchase_sum(db.transactions@, user_id, #[trigger] bought_by_count(db, user_id)[k]) <= i32::MAX
}

/// Whether `r` lists account `user_id`'s purchases per article, most often bought
/// first, each with the article's chain, the count, and the total paid.
pub open spec fn purchases_of(db: Database, user_id: i32, r: Seq<UserArticles>) -> bool {
    let ids = bought_by_count(db, user_id);
    &&& r.len() == ids.len()
    &&& forall|k: int| 0 <= k < ids.len() ==> {
        let e = #[trigger] r[k];
        &&& e.count as int == purchase_count(db.transactions@, user_id, ids[k])
        &&& e.amount as int == -purchase_sum(db.transactions@, user_id, ids[k])
        &&& chain_of(e.article) == chain_from(db.articles@, ids[k])
    }
}

fn purchase_totals(db: &Database, user_id: i32, article_id: i32) -> (r: (i32, i64))
    requires
        db.wf(),
    ensures
        r.0 as int == purchase_count(db.transactions@, user_id, article_id as int),
        r.1 as int == purchase_sum(db.transactions@, user_id, article_id as int),
{
    let ghost txs = db.transactions@;
    let mut count: i32 = 0;
    let mut sum: i64 = 0;
    let mut i: usize = 0;
    while i < db.transactions.len()
        invariant
            db.wf(),
            txs == db.transactions@,
            i <= txs.len(),
            count as int == purchase_count(txs.take(i as int), user_id, article_id as int),
            sum as int == purchase_sum(txs.take(i as int), user_id, article_id as int),
            0 <= count <= i,
            -2147483648 * i <= sum <= 2147483647 * i,
        decreases txs.len() - i,
    {
        proof {
            assert(txs.take(i as int + 1).drop_last() =~= txs.take(i as int));
        }
        let t = &db.transactions[i];
        if t.user_id == user_id && t.article_id == Some(article_id) {
            count = count + 1;
            sum = sum + t.amount as i64;
        }
        i += 1;
    }
    proof {
        assert(txs.take(i as int) =~= txs);
    }
    (count, sum)
}

/// Account `user_id`'s purchases per article, most often bought first: each
/// article with its chain, the number of purchases and the total paid. Fails
/// with `UnknownError` when a total does not fit the result.
pub fn user_article_stats(db: &Database, user_id: &i32) -> (r: Result<Vec<UserArticles>, DbError>)
    requires
        db.wf(),
    ensures
        r is Ok <==> purchases_fit(*db, *user_id),
        r is Err ==> r->Err_0 is UnknownError,
        r is Ok ==> purchases_of(*db, *user_id, r->Ok_0@),
{
    let ghost txs = db.transactions@;
    let ghost uid = *user_id;
    // (article id, purchases, total paid), most often bought first
    let mut rows: Vec<(i32, i32, i64)> = Vec::new();
    let mut a: usize = 0;
    while a < db.articles.len()
        invariant
            db.wf(),
            txs == db.transactions@,
            uid == *user_id,
            a <= db.articles@.len(),
            rows@.map_values(|t: (i32, i32, i64)| t.0 as int) == sort_by_count(txs, uid, bought(txs, a as int, uid)),
            forall|k: int| 0 <= k < rows@.len() ==> {
                let t = #[trigger] rows@[k];
                &&& t.1 as int == purchase_count(txs, uid, t.0 as int)
                &&& t.2 as int == purchase_sum(txs, uid, t.0 as int)
                &&& 1 <= t.0 <= a
            },
        decreases db.articles@.len() - a,
    {
        let id = (a + 1) as i32;
        let (count, sum) = purchase_totals(db, *user_id, id);
        if count > 0 {
            let ghost s = rows@.map_values(|t: (i32, i32, i64)| t.0 as int);
            let ghost b = bought(txs, a as int, uid);
            proof {
                assert(b.push(id as int).drop_last() =~= b);
            }
            let mut p: usize = rows.len();
            proof {
                assert(s.take(p as int) =~= s);
            }
            while p > 0 && rows[p - 1].1 < count
                invariant
                    s == rows@.map_values(|t: (i32, i32, i64)| t.0 as int),
                    p <= rows@.len(),
                    count as int == purchase_count(txs, uid, id as int),
                    count_insert_pos(txs, uid, s, id as int) == count_insert_pos(txs, uid, s.take(p as int), id as int),
                    forall|k: int| 0 <= k < rows@.len() ==> (#[trigger] rows@[k]).1 as int == purchase_count(txs, uid, rows@[k].0 as int),
                decreases p,
            {
                proof {
                    assert(s.take(p as int).drop_last() =~= s.take(p as int - 1));
                }
                p -= 1;
            }
            proof {
                if p > 0 {
                    assert(s.take(p as int).last() == s[p as int - 1]);
                }
            }
            rows.insert(p, (id, count, sum));
            proof {
                assert(rows@.map_values(|t: (i32, i32, i64)| t.0 as int) =~= s.insert(p as int, id as int));
            }
        }
        a += 1;
    }
    let ghost ids = rows@.map_values(|t: (i32, i32, i64)| t.0 as int);
    let mut result: Vec<UserArticles> = Vec::new();
    let mut k: usize = 0;
    while k < rows.len()
        invariant
            db.wf(),
            txs == db.transactions@,
            uid == *user_id,
            ids == rows@.map_values(|t: (i32, i32, i64)| t.0 as int),
            ids == sort_by_count(txs, uid, bought(txs, db.articles@.len() as int, uid)),
            k <= rows@.len(),
            result@.len() == k,
            forall|m: int| 0 <= m < rows@.len() ==> {
                let t = #[trigger] rows@[m];
                &&& t.1 as int == purchase_count(txs, uid, t.0 as int)
                &&& t.2 as int == purchase_sum(txs, uid, t.0 as int)
                &&& 1 <= t.0 <= db.articles@.len()
            },
            forall|m: int| 0 <= m < k ==> i32::MIN <= -purchase_sum(txs, uid, #[trigger] ids[m]) <= i32::MAX,
            forall|m: int| 0 <= m < k ==> {
                let e = #[trigger] result@[m];
                &&& e.count as int == purchase_count(txs, uid, ids[m])
                &&& e.amount as int == -purchase_sum(txs, uid, ids[m])
                &&& chain_of(e.article) == chain_from(db.articles@, ids[m])
            },
        decreases rows@.len() - k,
    {
        let (id, count, sum) = rows[k];
        assert(ids[k as int] == id as int);
        if sum > 2147483648 || sum < -2147483647 {
            assert(!(i32::MIN <= -purchase_sum(txs, uid, ids[k as int]) <= i32::MAX));
            assert(bought_by_count(*db, uid)[k as int] == ids[k as int]);
            return Err(DbError::UnknownError(String::from_str("purchase total out of range")));
        }
        let article = match get_article_tx(db, Some(id)) {
            Some(o) => *o,
            None => return Err(DbError::UnknownError(String::from_str("article vanished"))),
        };
        result.push(UserArticles { article, count, amount: (-sum) as i32 });
        k += 1;
    }
    Ok(result)
}

/// Account `user_id`'s balance with its purchase and transfer statistics.
/// Fails with `EntityNotFound` when the account is absent, else as the two
/// statistics do.
pub fn get_user_metrics(db: &Database, user_id: i32) -> (r: Result<UserMetrics, DbError>)
    requires
        db.wf(),
    ensures
        db.user(user_id as int) is None ==> r is Err && r->Err_0 is EntityNotFound,
        r is Ok <==> (db.user(user_id as int) is Some && purchases_fit(*db, user_id)
            && i32::MIN <= transfer_sum(db.transactions@, user_id, true) <= i32::MAX
            && i32::MIN <= transfer_sum(db.transactions@, user_id, false) <= i32::MAX),
        r is Ok ==> r->Ok_0.balance == db.user(user_id as int)->0.balance,
        r is Ok ==> purchases_of(*db, user_id, r->Ok_0.articles@),
        r is Ok ==> {
            let t = r->Ok_0.transactions;
            &&& t.count as int == live_count(db.transactions@, user_id)
            &&& t.incoming.count as int == transfer_count(db.transactions@, user_id, true)
            &&& t.incoming.amount as int == transfer_sum(db.transactions@, user_id, true)
            &&& t.outgoing.count as int == transfer_count(db.transactions@, user_id, false)
            &&& t.outgoing.amount as int == transfer_sum(db.transactions@, user_id, false)
        },
{
    let user = match db.find_user(user_id) {
        Some(u) => u,
        None => return Err(DbError::EntityNotFound(String::from_str("Requested user does not exist."))),
    };
    let articles = match user_article_stats(db, &user_id) {
        Ok(a) => a,
        Err(e) => return Err(e),
    };
    let transactions = match user_transaction_stats(db, &user_id) {
        Ok(t) => t,
        Err(e) => return Err(e),
    };
    Ok(UserMetrics { balance: user.balance, articles, transactions })
}

/// The calendar day of a `YYYY-MM-DD HH:MM:SS` stamp: its first ten characters.
pub open spec fn day_of(created: Seq<char>) -> Seq<char> {
    if created.len() >= 10 {
        created.take(10)
    } else {
        created
    }
}

/// Whether row `t` was booked on day `day`, after the stamp `begin`.
pub open spec fn booked_on(t: TransactionEntity, begin: Seq<char>, day: Seq<char>) -> bool {
    bytes_lt(vstd::utf8::encode_utf8(begin), vstd::utf8::encode_utf8(t.created@)) && day_of(t.created@) == day
}

/// Whether row `i` is the first row of its account booked on `day` after `begin`.
pub open spec fn first_of_account(txs: Seq<TransactionEntity>, i: int, begin: Seq<char>, day: Seq<char>) -> bool {
    booked_on(txs[i], begin, day) && forall|j: int| 0 <= j < i ==> !(#[trigger] booked_on(txs[j], begin, day) && txs[j].user_id == txs[i].user_id)
}

/// Totals over the first `n` rows booked on `day` after `begin`, of the rows whose
/// amount is charged (non-negative, `sign` 1), spent (negative, `sign` -1) or
/// either (`sign` 0): how many there are, and their summed amount.
pub open spec fn day_totals(txs: Seq<TransactionEntity>, n: int, begin: Seq<char>, day: Seq<char>, sign: int) -> (int, int)
    decreases n,
{
    if n <= 0 {
        (0, 0)
    } else {
        let r = day_totals(txs, n - 1, begin, day, sign);
        let t = txs[n - 1];
        if booked_on(t, begin, day) && (sign == 0 || (sign == 1 && t.amount >= 0) || (sign == -1 && t.amount < 0)) {
            (r.0 + 1, r.1 + t.amount)
        } else {
            r
        }
    }
}

/// How many accounts booked among the first `n` rows on `day` after `begin`.
pub open spec fn day_accounts(txs: Seq<TransactionEntity>, n: int, begin: Seq<char>, day: Seq<char>) -> int
    decreases n,
{
    if n <= 0 {
        0
    } else {
        day_accounts(txs, n - 1, begin, day) + if first_of_account(txs, n - 1, begin, day) { 1int } else { 0 }
    }
}

/// Where day `d` goes into the ascending list `s`.
pub open spec fn day_pos(s: Seq<Seq<char>>, d: Seq<char>) -> int
    decreases s.len(),
{
    if s.len() == 0 {
        0
    } else if bytes_lt(vstd::utf8::encode_utf8(d), vstd::utf8::encode_utf8(s.last())) {
        day_pos(s.drop_last(), d)
    } else {
        s.len() as int
    }
}

/// The distinct days of the first `n` rows booked after `begin`, ascending.
pub open spec fn days_after(txs: Seq<TransactionEntity>, n: int, begin: Seq<char>) -> Seq<Seq<char>>
    decreases n,
{
    if n <= 0 {
        Seq::empty()
    } else {
        let s = days_after(txs, n - 1, begin);
        let t = txs[n - 1];
        let d = day_of(t.created@);
        if bytes_lt(vstd::utf8::encode_utf8(begin), vstd::utf8::encode_utf8(t.created@)) && !s.contains(d) {
            s.insert(day_pos(s, d), d)
        } else {
            s
        }
    }
}

/// Whether the three sums of `day` fit a 32-bit result.
pub open spec fn day_fits(txs: Seq<TransactionEntity>, begin: Seq<char>, day: Seq<char>) -> bool {
    let n = txs.len() as int;
    &&& i32::MIN <= day_totals(txs, n, begin, day, 0).1 <= i32::MAX
    &&& i32::MIN <= day_totals(txs, n, begin, day, 1).1 <= i32::MAX
    &&& i32::MIN <= day_totals(txs, n, begin, day, -1).1 <= i32::MAX
}

/// Whether `r` is the daily rollup of the rows booked after `begin`: one entry per
/// day, ascending, each with that day's figures.
pub open spec fn rollup_of(txs: Seq<TransactionEntity>, begin: Seq<char>, r: Seq<DailyTransaction>) -> bool {
    let n = txs.len() as int;
    let days = days_after(txs, n, begin);
    &&& r.len() == days.len()
    &&& forall|k: int| 0 <= k < days.len() ==> {
        let d = #[trigger] r[k];
        &&& d.date@ == days[k]
        &&& d.transactions as int == day_totals(txs, n, begin, days[k], 0).0
        &&& d.balance as int == day_totals(txs, n, begin, days[k], 0).1
        &&& d.charged.transactions as int == day_totals(txs, n, begin, days[k], 1).0
        &&& d.charged.amount as int == day_totals(txs, n, begin, days[k], 1).1
        &&& d.spent.transactions as int == day_totals(txs, n, begin, days[k], -1).0
        &&& d.spent.amount as int == day_totals(txs, n, begin, days[k], -1).1
        &&& d.distinct_users as int == day_accounts(txs, n, begin, days[k])
    }
}

fn day_string(created: &String) -> (r: String)
    ensures
        r@ == day_of(created@),
{
    let n = created.as_str().unicode_len();
    if n >= 10 {
        String::from_str(created.as_str().substring_char(0, 10))
    } else {
        created.clone()
    }
}

fn is_booked_on(t: &TransactionEntity, begin: &String, day: &String) -> (r: bool)
    ensures
        r == booked_on(*t, begin@, day@),
{
    str_lt(begin, &t.created) && day_string(&t.created) == *day
}

fn one_day(db: &Database, begin: &String, day: &String) -> (r: Result<DailyTransaction, DbError>)
    requires
        db.wf(),
    ensures
        ({
            let txs = db.transactions@;
            let n = txs.len() as int;
            let all = day_totals(txs, n, begin@, day@, 0);
            let charged = day_totals(txs, n, begin@, day@, 1);
            let spent = day_totals(txs, n, begin@, day@, -1);
            &&& r is Ok <==> (i32::MIN <= all.1 <= i32::MAX && i32::MIN <= charged.1 <= i32::MAX
                && i32::MIN <= spent.1 <= i32::MAX)
            &&& r is Err ==> r->Err_0 is UnknownError
            &&& r is Ok ==> {
                let d = r->Ok_0;
                &&& d.date@ == day@
                &&& d.transactions as int == all.0 && d.balance as int == all.1
                &&& d.charged.transactions as int == charged.0 && d.charged.amount as int == charged.1
                &&& d.spent.transactions as int == spent.0 && d.spent.amount as int == spent.1
                &&& d.distinct_users as int == day_accounts(txs, n, begin@, day@)
            }
        }),
{
    let ghost txs = db.transactions@;
    let ghost b = begin@;
    let ghost dv = day@;
    let mut count: i32 = 0;
    let mut sum: i64 = 0;
    let mut c_count: i32 = 0;
    let mut c_sum: i64 = 0;
    let mut s_count: i32 = 0;
    let mut s_sum: i64 = 0;
    let mut users: i32 = 0;
    let mut i: usize = 0;
    while i < db.transactions.len()
        invariant
            db.wf(),
            txs == db.transactions@,
            b == begin@,
            dv == day@,
            i <= txs.len(),
            (count as int, sum as int) == day_totals(txs, i as int, b, dv, 0),
            (c_count as int, c_sum as int) == day_totals(txs, i as int, b, dv, 1),
            (s_count as int, s_sum as int) == day_totals(txs, i as int, b, dv, -1),
            users as int == day_accounts(txs, i as int, b, dv),
            0 <= count <= i && 0 <= c_count <= i && 0 <= s_count <= i && 0 <= users <= i,
            -2147483648 * i <= sum <= 2147483647 * i,
            -2147483648 * i <= c_sum <= 2147483647 * i,
            -2147483648 * i <= s_sum <= 2147483647 * i,
        decreases txs.len() - i,
    {
        let t = &db.transactions[i];
        if is_booked_on(t, begin, day) {
            count = count + 1;
            sum = sum + t.amount as i64;
            if t.amount >= 0 {
                c_count = c_count + 1;
                c_sum = c_sum + t.amount as i64;
            } else {
                s_count = s_count + 1;
                s_sum = s_sum + t.amount as i64;
            }
            let mut j: usize = 0;
            let mut seen = false;
            while j < i
                invariant
                    txs == db.transactions@,
                    b == begin@,
                    dv == day@,
                    i < txs.len(),
                    j <= i,
                    *t == txs[i as int],
                    seen ==> exists|k: int| 0 <= k < j && #[trigger] booked_on(txs[k], b, dv) && txs[k].user_id == txs[i as int].user_id,
                    !seen ==> forall|k: int| 0 <= k < j ==> !(#[trigger] booked_on(txs[k], b, dv) && txs[k].user_id == txs[i as int].user_id),
                decreases i - j,
            {
                if db.transactions[j].user_id == t.user_id && is_booked_on(&db.transactions[j], begin, day) {
                    assert(booked_on(txs[j as int], b, dv) && txs[j as int].user_id == txs[i as int].user_id);
                    seen = true;
                }
                j += 1;
            }
            if !seen {
                users = users + 1;
            }
        }
        i += 1;
    }
    if sum < i32::MIN as i64 || sum > i32::MAX as i64 || c_sum < i32::MIN as i64 || c_sum > i32::MAX as i64
        || s_sum < i32::MIN as i64 || s_sum > i32::MAX as i64 {
        return Err(DbError::UnknownError(String::from_str("daily total out of range")));
    }
    Ok(DailyTransaction {
        date: day.clone(),
        transactions: count,
        distinct_users: users,
        balance: sum as i32,
        charged: TransactionSum { amount: c_sum as i32, transactions: c_count },
        spent: TransactionSum { amount: s_sum as i32, transactions: s_count },
    })
}

/// Per calendar day, ascending, the rows booked after the stamp `date_begin`:
/// how many, by how many accounts, their sum, and the charged (non-negative)
/// and spent (negative) rows apart. The day of a row is the date part of its
/// stamp. Fails with `UnknownError` when a sum does not fit the result.
pub fn transactions_per_day(db: &Database, date_begin: &String) -> (r: Result<Vec<DailyTransaction>, DbError>)
    requires
        db.wf(),
    ensures
        r is Ok <==> (forall|k: int| 0 <= k < days_after(db.transactions@, db.transactions@.len() as int, date_begin@).len()
            ==> day_fits(db.transactions@, date_begin@, #[trigger] days_after(db.transactions@, db.transactions@.len() as int, date_begin@)[k])),
        r is Ok ==> rollup_of(db.transactions@, date_begin@, r->Ok_0@),
        r is Err ==> r->Err_0 is UnknownError,
{
    let ghost txs = db.transactions@;
    let mut days: Vec<String> = Vec::new();
    let mut i: usize = 0;
    while i < db.transactions.len()
        invariant
            db.wf(),
            txs == db.transactions@,
            i <= txs.len(),
            days@.map_values(|d: String| d@) == days_after(txs, i as int, date_begin@),
        decreases txs.len() - i,
    {
        let t = &db.transactions[i];
        let ghost s = days@.map_values(|d: String| d@);
        if str_lt(date_begin, &t.created) {
            let d = day_string(&t.created);
            let mut known = false;
            let mut k: usize = 0;
            while k < days.len()
                invariant
                    s == days@.map_values(|d: String| d@),
                    k <= days@.len(),
                    known ==> exists|m: int| 0 <= m < k && #[trigger] s[m] == d@,
                    !known ==> forall|m: int| 0 <= m < k ==> #[trigger] s[m] != d@,
                decreases days@.len() - k,
            {
                if days[k] == d {
                    assert(s[k as int] == d@);
                    known = true;
                }
                k += 1;
            }
            proof {
                if s.contains(d@) {
                    let m = choose|m: int| 0 <= m < s.len() && s[m] == d@;
                    assert(s[m] == d@);
                }
            }
            if !known {
                let mut p: usize = days.len();
                proof {
                    assert(s.take(p as int) =~= s);
                }
                while p > 0 && str_lt(&d, &days[p - 1])
                    invariant
                        s == days@.map_values(|d: String| d@),
                        p <= s.len(),
                        day_pos(s, d@) == day_pos(s.take(p as int), d@),
                    decreases p,
                {
                    proof {
                        assert(s.take(p as int).drop_last() =~= s.take(p as int - 1));
                    }
                    p -= 1;
                }
                proof {
                    if p > 0 {
                        assert(s.take(p as int).last() == s[p as int - 1]);
                    }
                }
                days.insert(p, d);
                proof {
                    assert(days@.map_values(|d: String| d@) =~= s.insert(p as int, day_of(t.created@)));
                }
            }
        }
        i += 1;
    }
    let ghost keys = days@.map_values(|d: String| d@);
    let mut result: Vec<DailyTransaction> = Vec::new();
    let mut k: usize = 0;
    while k < days.len()
        invariant
            db.wf(),
            txs == db.transactions@,
            keys == days@.map_values(|d: String| d@),
            keys == days_after(txs, txs.len() as int, date_begin@),
            k <= days@.len(),
            result@.len() == k,
            forall|m: int| 0 <= m < k ==> day_fits(txs, date_begin@, #[trigger] keys[m]),
            forall|m: int| 0 <= m < k ==> {
                let d = #[trigger] result@[m];
                let n = txs.len() as int;
                &&& d.date@ == keys[m]
                &&& d.transactions as int == day_totals(txs, n, date_begin@, keys[m], 0).0
                &&& d.balance as int == day_totals(txs, n, date_begin@, keys[m], 0).1
                &&& d.charged.transactions as int == day_totals(txs, n, date_begin@, keys[m], 1).0
                &&& d.charged.amount as int == day_totals(txs, n, date_begin@, keys[m], 1).1
                &&& d.spent.transactions as int == day_totals(txs, n, date_begin@, keys[m], -1).0
                &&& d.spent.amount as int == day_totals(txs, n, date_begin@, keys[m], -1).1
                &&& d.distinct_users as int == day_accounts(txs, n, date_begin@, keys[m])
            },
        decreases days@.len() - k,
    {
        assert(keys[k as int] == days@[k as int]@);
        let d = match one_day(db, date_begin, &days[k]) {
            Ok(d) => d,
            Err(e) => {
                assert(!day_fits(txs, date_begin@, keys[k as int]));
                return Err(e);
            },
        };
        result.push(d);
        k += 1;
    }
    Ok(result)
}

/// The longest look-back for system metrics, in days: well inside the range of
/// dates that the calendar arithmetic handles.
pub const MAX_METRIC_DAYS: u32 = 3650000;

/// Relies on chrono's `Local::now`, `TimeDelta::days` and `format("%F")`: the
/// local date `days` days ago as `YYYY-MM-DD`. It depends on the clock, so
/// nothing is promised of the value. Within `MAX_METRIC_DAYS` neither the
/// duration nor the subtraction leaves chrono's range, where both would panic.
#[verifier::external_body]
fn date_days_ago(days: u32) -> (r: String)
    requires
        days <= MAX_METRIC_DAYS,
{
    (chrono::Local::now() - chrono::TimeDelta::days(days as i64)).format("%F").to_string()
}

/// The system figures for rows booked after the stamp `date_begin`: the balance
/// of the enabled accounts, the row and account counts, and the daily rollup.
/// Fails with `UnknownError` when the balance or a daily sum does not fit.
pub fn get_sys_metrics_since(db: &Database, date_begin: &String) -> (r: Result<SystemMetrics, DbError>)
    requires
        db.wf(),
    ensures
        r is Ok ==> {
            let m = r->Ok_0;
            &&& m.balance as int == enabled_balance(db.users@)
            &&& m.transaction_count as int == db.transactions@.len()
            &&& m.user_count as int == db.users@.len()
            &&& m.articles@.len() == 0
            &&& rollup_of(db.transactions@, date_begin@, m.days@)
        },
        r is Ok <==> (i32::MIN <= enabled_balance(db.users@) <= i32::MAX
            && forall|k: int| 0 <= k < days_after(db.transactions@, db.transactions@.len() as int, date_begin@).len()
            ==> day_fits(db.transactions@, date_begin@, #[trigger] days_after(db.transactions@, db.transactions@.len() as int, date_begin@)[k])),
        r is Err ==> r->Err_0 is UnknownError,
{
    let balance = system_balance(db);
    if balance < i32::MIN as i64 || balance > i32::MAX as i64 {
        return Err(DbError::UnknownError(String::from_str("system balance out of range")));
    }
    let days = match transactions_per_day(db, date_begin) {
        Ok(d) => d,
        Err(e) => return Err(e),
    };
    Ok(SystemMetrics {
        balance: balance as i32,
        transaction_count: num_transactions(db),
        user_count: num_users(db),
        articles: Vec::new(),
        days,
    })
}

/// The system figures over the last `days` days; see `get_sys_metrics_since`.
pub fn get_sys_metrics(db: &Database, days: u32) -> (r: Result<SystemMetrics, DbError>)
    requires
        db.wf(),
        days <= MAX_METRIC_DAYS,
    ensures
        r is Ok ==> {
            let m = r->Ok_0;
            &&& m.balance as int == enabled_balance(db.users@)
            &&& m.transaction_count as int == db.transactions@.len()
            &&& m.user_count as int == db.users@.len()
            &&& m.articles@.len() == 0
        },
        !(i32::MIN <= enabled_balance(db.users@) <= i32::MAX) ==> r is Err,
        db.transactions@.len() == 0 && i32::MIN <= enabled_balance(db.users@) <= i32::MAX ==> r is Ok,
        r is Err ==> r->Err_0 is UnknownError,
{
    let begin = date_days_ago(days);
    assert(days_after(db.transactions@, 0, begin@) =~= Seq::<Seq<char>>::empty());
    get_sys_metrics_since(db, &begin)
}

} // verus!
