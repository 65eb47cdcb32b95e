use crate::article_db::{bytes_lt, chain_from, insert_pos, name_lt, sort_by_name};
use crate::db::{articles_wf, Database};
use crate::model::{ArticleEntity, TransactionAddReq, TransactionObject};
use crate::settings::StrichlisteSetting;
use crate::transaction_api::{
    applied, is_purchase_request, is_transfer_request, is_value_request, purchase_amount,
    quantity_of, rejection,
};
use vstd::prelude::*;

verus! {

/// A booked value moves the account's balance by exactly the requested amount,
/// and the stored ledger row holds exactly that amount.
pub proof fn value_booking_moves_balance_by_amount(
    db: Database,
    db2: Database,
    s: StrichlisteSetting,
    user_id: i32,
    req: TransactionAddReq,
    o: TransactionObject,
)
    requires
        db.wf(),
        is_value_request(req),
        rejection(db, s, user_id, req) is None,
        applied(db, db2, user_id, req, o),
    ensures
        db2.user(user_id as int) is Some,
        db2.user(user_id as int)->0.balance == db.user(user_id as int)->0.balance + req.amount->0,
        db2.transactions@.len() == db.transactions@.len() + 1,
        db2.transactions@.last().amount == req.amount->0,
        db2.transactions@.last().user_id == user_id,
        o.entity.amount == req.amount->0,
{
}

/// A purchase debits exactly `unit_amount * quantity`, and counts exactly one more
/// use of the article whatever the quantity.
pub proof fn purchase_debits_price_and_counts_one_use(
    db: Database,
    db2: Database,
    s: StrichlisteSetting,
    user_id: i32,
    req: TransactionAddReq,
    o: TransactionObject,
)
    requires
        db.wf(),
        is_purchase_request(req),
        rejection(db, s, user_id, req) is None,
        applied(db, db2, user_id, req, o),
    ensures
        ({
            let aid = req.article_id->0 as int;
            let price = purchase_amount(db.article(aid)->0.amount as int, quantity_of(req));
            &&& price == -(db.article(aid)->0.amount * quantity_of(req))
            &&& o.entity.amount == price
            &&& o.entity.quantity == Some(quantity_of(req) as i32)
            &&& db2.user(user_id as int)->0.balance == db.user(user_id as int)->0.balance + price
            &&& db2.article(aid)->0.usage_count == db.article(aid)->0.usage_count + 1
            &&& db2.transactions@.last() == o.entity
        }),
{
}

/// A transfer moves the payer's balance by `amount` and the recipient's by
/// `-amount`, and leaves two ledger rows that name each other.
pub proof fn transfer_moves_both_balances_and_links_rows(
    db: Database,
    db2: Database,
    s: StrichlisteSetting,
    user_id: i32,
    req: TransactionAddReq,
    o: TransactionObject,
)
    requires
        db.wf(),
        is_transfer_request(req, user_id),
        rejection(db, s, user_id, req) is None,
        applied(db, db2, user_id, req, o),
    ensures
        ({
            let rid = req.recipient_id->0 as int;
            let a = req.amount->0 as int;
            let n = db.transactions@.len() as int;
            let sent = db2.transaction(n + 1)->0;
            let received = db2.transaction(n + 2)->0;
            &&& db2.user(user_id as int)->0.balance == db.user(user_id as int)->0.balance + a
            &&& db2.user(rid)->0.balance == db.user(rid)->0.balance - a
            &&& db2.transactions@.len() == n + 2
            &&& sent.amount == a && received.amount == -a
            &&& sent.user_id == user_id && received.user_id == rid
            &&& sent.recipient_transaction_id == Some(received.id)
            &&& received.sender_transaction_id == Some(sent.id)
            &&& o.entity == sent
        }),
{
    let n = db.transactions@.len() as int;
    assert(db2.transactions@[n] == db2.transaction(n + 1)->0);
}

/// Resolving article `id` gives its revisions newest to oldest: the row itself
/// first, each next node being the previous one's precursor, and the last one a
/// root. A root article resolves to exactly one node.
pub proof fn resolved_chain_runs_newest_to_oldest(arts: Seq<ArticleEntity>, id: int)
    requires
        articles_wf(arts),
        1 <= id <= arts.len(),
    ensures
        chain_from(arts, id).len() >= 1,
        chain_from(arts, id)[0] == arts[id - 1],
        forall|k: int| 0 <= k < chain_from(arts, id).len() - 1 ==>
            (#[trigger] chain_from(arts, id)[k]).precursor_id == Some(chain_from(arts, id)[k + 1].id)
            && chain_from(arts, id)[k + 1].id < chain_from(arts, id)[k].id,
        chain_from(arts, id).last().precursor_id is None,
        arts[id - 1].precursor_id is None ==> chain_from(arts, id).len() == 1,
    decreases id,
{
    let a = arts[id - 1];
    assert(arts[id - 1].id == id);
    match a.precursor_id {
        Some(p) => {
            assert(1 <= p < id);
            resolved_chain_runs_newest_to_oldest(arts, p as int);
            let c = chain_from(arts, id);
            let t = chain_from(arts, p as int);
            assert(c == seq![a].add(t));
            assert(arts[p - 1].id == p);
            assert forall|k: int| 0 <= k < c.len() - 1 implies (#[trigger] c[k]).precursor_id == Some(c[k + 1].id)
                && c[k + 1].id < c[k].id by {
                if k > 0 {
                    assert(c[k] == t[k - 1]);
                    assert(c[k + 1] == t[k]);
                }
            }
        },
        None => {},
    }
}

/// A replaced revision has exactly one successor, and that successor's chain is
/// the successor itself followed by the replaced revision's chain.
pub proof fn successor_chain_extends_precursor_chain(arts: Seq<ArticleEntity>, j: int)
    requires
        articles_wf(arts),
        1 <= j <= arts.len(),
        arts[j - 1].precursor_id is Some,
    ensures
        chain_from(arts, j) == seq![arts[j - 1]].add(chain_from(arts, arts[j - 1].precursor_id->0 as int)),
        chain_from(arts, j).len() == chain_from(arts, arts[j - 1].precursor_id->0 as int).len() + 1,
        forall|k: int| 0 <= k < arts.len() && (#[trigger] arts[k]).precursor_id == arts[j - 1].precursor_id ==> k == j - 1,
{
}

proof fn lemma_bytes_lt_asymmetric(a: Seq<u8>, b: Seq<u8>)
    ensures
        bytes_lt(a, b) ==> !bytes_lt(b, a),
    decreases a.len(),
{
    if a.len() > 0 && b.len() > 0 && a[0] == b[0] {
        lemma_bytes_lt_asymmetric(a.drop_first(), b.drop_first());
    }
}

proof fn lemma_insert_pos_bounds(t: Seq<ArticleEntity>, x: ArticleEntity)
    ensures
        0 <= insert_pos(t, x) <= t.len(),
        insert_pos(t, x) > 0 ==> !name_lt(x, t[insert_pos(t, x) - 1]),
        insert_pos(t, x) < t.len() ==> name_lt(x, t[insert_pos(t, x)]),
    decreases t.len(),
{
    if t.len() > 0 && name_lt(x, t.last()) {
        let d = t.drop_last();
        lemma_insert_pos_bounds(d, x);
        let p = insert_pos(d, x);
        if p > 0 {
            assert(d[p - 1] == t[p - 1]);
        }
        if p < d.len() {
            assert(d[p] == t[p]);
        }
    }
}

/// Names in order: no row's name sorts strictly before the name of the row
/// just ahead of it.
pub open spec fn ordered_by_name(s: Seq<ArticleEntity>) -> bool {
    forall|k: int| 0 <= k < s.len() - 1 ==> !name_lt(#[trigger] s[k + 1], s[k])
}

/// Ordering rows by name keeps exactly the same rows and puts them in name order.
pub proof fn sort_by_name_orders_and_permutes(s: Seq<ArticleEntity>)
    ensures
        ordered_by_name(sort_by_name(s)),
        sort_by_name(s).to_multiset() =~= s.to_multiset(),
    decreases s.len(),
{
    broadcast use vstd::seq_lib::group_to_multiset_ensures;
    if s.len() > 0 {
        let d = s.drop_last();
        let x = s.last();
        sort_by_name_orders_and_permutes(d);
        let t = sort_by_name(d);
        let p = insert_pos(t, x);
        lemma_insert_pos_bounds(t, x);
        let u = t.insert(p, x);
        assert(u == sort_by_name(s));
        assert forall|k: int| 0 <= k < u.len() - 1 implies !name_lt(#[trigger] u[k + 1], u[k]) by {
            if k + 1 < p {
                assert(u[k] == t[k] && u[k + 1] == t[k + 1]);
                assert(!name_lt(t[k + 1], t[k]));
            } else if k + 1 == p {
                assert(u[k] == t[p - 1] && u[k + 1] == x);
            } else if k == p {
                assert(u[k] == x && u[k + 1] == t[p]);
                lemma_bytes_lt_asymmetric(
                    vstd::utf8::encode_utf8(x.name@),
                    vstd::utf8::encode_utf8(t[p].name@),
                );
            } else {
                assert(u[k] == t[k - 1] && u[k + 1] == t[k]);
                assert(!name_lt(t[(k - 1) + 1], t[k - 1]));
            }
        }
        vstd::seq_lib::to_multiset_insert(t, p, x);
        assert(s =~= d.push(x));
    }
}

} // verus!
