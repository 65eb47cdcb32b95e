use crate::db::{articles_wf, replaces, Database, MAX_ID};
use crate::error::DbError;
use crate::model::{chain_of, copy_article, ArticleEntity, ArticleObject};
use vstd::prelude::*;

verus! {

/// The revision chain that starts at article `id`, newest first: the row itself,
/// then the row it replaced, and so on until a row without a precursor.
pub open spec fn chain_from(arts: Seq<ArticleEntity>, id: int) -> Seq<ArticleEntity>
    decreases id,
{
    if 1 <= id <= arts.len() {
        let a = arts[id - 1];
        match a.precursor_id {
            Some(p) => if 1 <= p < id {
                seq![a].add(chain_from(arts, p as int))
            } else {
                seq![a]
            },
            None => seq![a],
        }
    } else {
        Seq::empty()
    }
}

/// Folds rows listed newest first into one nested object whose precursors
/// follow the list; `None` for an empty list.
pub fn build_article_chain(chain: Vec<ArticleEntity>) -> (r: Option<Box<ArticleObject>>)
    ensures
        r is None <==> chain@.len() == 0,
        r is Some ==> chain_of(*r->0) == chain@,
{
    let ghost orig = chain@;
    let mut chain = chain;
    let mut acc: Option<Box<ArticleObject>> = None;
    while chain.len() > 0
        invariant
            chain@.len() <= orig.len(),
            chain@ == orig.subrange(0, chain@.len() as int),
            acc is None <==> chain@.len() == orig.len(),
            acc is Some ==> chain_of(*acc->0) == orig.subrange(chain@.len() as int, orig.len() as int),
        decreases chain@.len(),
    {
        let next = chain.pop().unwrap();
        let ghost k = chain@.len() as int;
        proof {
            assert(next == orig[k]);
            if acc is Some {
                assert(seq![orig[k]].add(orig.subrange(k + 1, orig.len() as int)) =~= orig.subrange(k, orig.len() as int));
            } else {
                assert(seq![orig[k]] =~= orig.subrange(k, orig.len() as int));
            }
        }
        acc = Some(Box::new(ArticleObject { entity: next, precursor: acc }));
    }
    proof {
        assert(orig.subrange(0, orig.len() as int) =~= orig);
    }
    acc
}

/// Loads article `article_id` with its whole revision chain; `None` when no id is
/// given or no such article exists.
pub fn get_article_tx(db: &Database, article_id: Option<i32>) -> (r: Option<Box<ArticleObject>>)
    requires
        db.wf(),
    ensures
        r is Some <==> (article_id is Some && db.article(article_id->0 as int) is Some),
        r is Some ==> chain_of(*r->0) == chain_from(db.articles@, article_id->0 as int),
{
    match article_id {
        None => None,
        Some(id) => {
            let ghost arts = db.articles@;
            let mut chain: Vec<ArticleEntity> = Vec::new();
            let mut cur: i32 = id;
            if cur < 0 {
                cur = 0;
            }
            proof {
                if id < 0 {
                    assert(chain_from(arts, id as int) =~= Seq::<ArticleEntity>::empty());
                }
            }
            while 1 <= cur && (cur as usize) <= db.articles.len()
                invariant
                    db.wf(),
                    arts == db.articles@,
                    0 <= cur,
                    chain@.add(chain_from(arts, cur as int)) == chain_from(arts, id as int),
                    chain@.len() == 0 ==> (cur as int == id as int || id < 0),
                decreases cur,
            {
                let a = &db.articles[(cur - 1) as usize];
                let ghost old_chain = chain@;
                let ghost old_cur = cur as int;
                chain.push(copy_article(a));
                match a.precursor_id {
                    Some(p) => {
                        if 1 <= p && p < cur {
                            cur = p;
                        } else {
                            cur = 0;
                        }
                    },
                    None => {
                        cur = 0;
                    },
                }
                proof {
                    assert(chain_from(arts, old_cur) == seq![arts[old_cur - 1]].add(chain_from(arts, cur as int)));
                    assert(chain@.add(chain_from(arts, cur as int)) =~= old_chain.add(chain_from(arts, old_cur)));
                }
            }
            proof {
                assert(chain_from(arts, cur as int) =~= Seq::<ArticleEntity>::empty());
                assert(chain@.add(Seq::<ArticleEntity>::empty()) =~= chain@);
            }
            build_article_chain(chain)
        },
    }
}

/// Loads article `article_id` with its chain, or fails with `EntityNotFound`.
pub fn get_article_or_error_tx(db: &Database, article_id: i32) -> (r: Result<ArticleObject, DbError>)
    requires
        db.wf(),
    ensures
        r is Ok <==> db.article(article_id as int) is Some,
        r is Ok ==> chain_of(r->Ok_0) == chain_from(db.articles@, article_id as int),
        r is Err ==> r->Err_0 is EntityNotFound && r->Err_0->EntityNotFound_0@ == "Article"@,
{
    match get_article_tx(db, Some(article_id)) {
        Some(a) => Ok(*a),
        None => Err(DbError::EntityNotFound(String::from_str("Article"))),
    }
}

/// Whether active row `a` clashes with a revision named `name` with `barcode`:
/// same name, or both with the same barcode.
pub open spec fn clashes(a: ArticleEntity, name: Seq<char>, barcode: Option<Seq<char>>) -> bool {
    a.active && (a.name@ == name || (barcode is Some && a.barcode is Some && a.barcode->0@ == barcode->0))
}

/// The characters of an optional text.
pub open spec fn opt_view(s: Option<String>) -> Option<Seq<char>> {
    match s {
        Some(v) => Some(v@),
        None => None,
    }
}

/// Whether some active row other than `except` clashes with `name` or `barcode`.
pub open spec fn name_taken(arts: Seq<ArticleEntity>, name: Seq<char>, barcode: Option<Seq<char>>, except: int) -> bool {
    exists|i: int| 0 <= i < arts.len() && i + 1 != except && #[trigger] clashes(arts[i], name, barcode)
}

/// A new root revision.
pub open spec fn root_article(id: int, name: String, barcode: Option<String>, amount: i32, now: String) -> ArticleEntity {
    ArticleEntity { id: id as i32, precursor_id: None, name, barcode, amount, active: true, created: now, usage_count: 0 }
}

/// A new revision replacing `old`, carrying its use count forward.
pub open spec fn successor(id: int, old: ArticleEntity, name: String, barcode: Option<String>, amount: i32, now: String) -> ArticleEntity {
    ArticleEntity {
        id: id as i32,
        precursor_id: Some(old.id),
        name,
        barcode,
        amount,
        active: true,
        created: now,
        usage_count: old.usage_count,
    }
}

/// `a` withdrawn from sale.
pub open spec fn deactivated(a: ArticleEntity) -> ArticleEntity {
    ArticleEntity {
        id: a.id,
        precursor_id: a.precursor_id,
        name: a.name,
        barcode: a.barcode,
        amount: a.amount,
        active: false,
        created: a.created,
        usage_count: a.usage_count,
    }
}

fn opt_string_eq(a: &Option<String>, b: &Option<String>) -> (r: bool)
    ensures
        r == (a is Some && b is Some && a->0@ == b->0@),
{
    match (a, b) {
        (Some(x), Some(y)) => *x == *y,
        _ => false,
    }
}

fn find_clash(arts: &Vec<ArticleEntity>, name: &String, barcode: &Option<String>, except: i32) -> (r: bool)
    ensures
        r == name_taken(arts@, name@, opt_view(*barcode), except as int),
{
    let mut i: usize = 0;
    while i < arts.len()
        invariant
            i <= arts@.len(),
            forall|j: int| 0 <= j < i && j + 1 != except ==> !#[trigger] clashes(arts@[j], name@, opt_view(*barcode)),
        decreases arts@.len() - i,
    {
        let a = &arts[i];
        let is_except = except >= 1 && (except - 1) as usize == i;
        if !is_except && a.active && (a.name == *name || opt_string_eq(barcode, &a.barcode)) {
            assert(clashes(arts@[i as int], name@, opt_view(*barcode)));
            return true;
        }
        i += 1;
    }
    false
}

/// Adds a new active root article with no uses. Fails with `Conflict` when an
/// active article has the same name or barcode, and with `UnknownError` when the
/// catalog has no id left; a failure changes nothing.
pub fn add_article(db: &mut Database, name: String, barcode: Option<String>, amount: i32, now: String) -> (r: Result<ArticleObject, DbError>)
    requires
        old(db).wf(),
    ensures
        final(db).wf(),
        r is Err <==> (name_taken(old(db).articles@, name@, opt_view(barcode), 0) || old(db).articles@.len() >= MAX_ID),
        r is Err ==> *final(db) == *old(db),
        r is Err ==> (name_taken(old(db).articles@, name@, opt_view(barcode), 0) ==> r->Err_0 is Conflict),
        r is Err ==> (!name_taken(old(db).articles@, name@, opt_view(barcode), 0) ==> r->Err_0 is UnknownError),
        r is Ok ==> {
            let a = root_article(old(db).articles@.len() as int + 1, name, barcode, amount, now);
            &&& final(db).articles@ == old(db).articles@.push(a)
            &&& final(db).users@ == old(db).users@
            &&& final(db).transactions@ == old(db).transactions@
            &&& r->Ok_0.entity == a
            &&& r->Ok_0.precursor is None
        },
{
    if find_clash(&db.articles, &name, &barcode, 0) {
        return Err(DbError::Conflict(String::from_str("Name or barcode is not unique.")));
    }
    if db.articles.len() >= MAX_ID as usize {
        return Err(DbError::UnknownError(String::from_str("catalog has no row id left")));
    }
    let id = (db.articles.len() + 1) as i32;
    let entity = ArticleEntity {
        id,
        precursor_id: None,
        name,
        barcode,
        amount,
        active: true,
        created: now,
        usage_count: 0,
    };
    let ghost arts = db.articles@;
    db.articles.push(copy_article(&entity));
    proof {
        let a2 = db.articles@;
        assert forall|i: int, j: int| 0 <= i < a2.len() && 0 <= j < a2.len() && #[trigger] replaces(a2, j, i)
            implies !(#[trigger] a2[i]).active by {
            assert(j < arts.len());
            assert(replaces(arts, j, i));
        }
    }
    Ok(ArticleObject { entity, precursor: None })
}

/// Replaces article `precursor_id` by a new active revision that carries its
/// use count forward, and withdraws the old revision, in one step. Fails with
/// `EntityNotFound` when there is no such article, `Conflict` when it is already
/// inactive, `Conflict` as well when another active article has the same name or
/// barcode, and `UnknownError` when the catalog has no id left; a failure
/// changes nothing. Returns the new revision with its whole chain.
pub fn update_article(
    db: &mut Database,
    precursor_id: i32,
    name: String,
    barcode: Option<String>,
    amount: i32,
    now: String,
) -> (r: Result<ArticleObject, DbError>)
    requires
        old(db).wf(),
    ensures
        final(db).wf(),
        r is Err <==> (old(db).article(precursor_id as int) is None
            || !old(db).article(precursor_id as int)->0.active
            || name_taken(old(db).articles@, name@, opt_view(barcode), precursor_id as int)
            || old(db).articles@.len() >= MAX_ID),
        r is Err ==> *final(db) == *old(db),
        r is Err ==> (old(db).article(precursor_id as int) is None ==> r->Err_0 is EntityNotFound),
        r is Err ==> (old(db).article(precursor_id as int) is Some && !old(db).article(precursor_id as int)->0.active
            ==> r->Err_0 is Conflict),
        r is Err ==> (old(db).article(precursor_id as int) is Some && old(db).article(precursor_id as int)->0.active
            && name_taken(old(db).articles@, name@, opt_view(barcode), precursor_id as int) ==> r->Err_0 is Conflict),
        r is Err ==> (old(db).article(precursor_id as int) is Some && old(db).article(precursor_id as int)->0.active
            && !name_taken(old(db).articles@, name@, opt_view(barcode), precursor_id as int) ==> r->Err_0 is UnknownError),
        r is Err && r->Err_0 is EntityNotFound ==> r->Err_0->EntityNotFound_0@ == "Article"@,
        r is Ok ==> {
            let prev = old(db).article(precursor_id as int)->0;
            let n = old(db).articles@.len() as int;
            &&& final(db).articles@ == old(db).articles@.update(precursor_id - 1, deactivated(prev))
                    .push(successor(n + 1, prev, name, barcode, amount, now))
            &&& final(db).users@ == old(db).users@
            &&& final(db).transactions@ == old(db).transactions@
            &&& chain_of(r->Ok_0) == chain_from(final(db).articles@, n + 1)
        },
{
    let prev = match db.find_article(precursor_id) {
        Some(a) => a,
        None => return Err(DbError::EntityNotFound(String::from_str("Article"))),
    };
    if !prev.active {
        return Err(DbError::Conflict(String::from_str("Updating inactive article is not allowed.")));
    }
    if find_clash(&db.articles, &name, &barcode, precursor_id) {
        return Err(DbError::Conflict(String::from_str("Name or barcode is not unique.")));
    }
    if db.articles.len() >= MAX_ID as usize {
        return Err(DbError::UnknownError(String::from_str("catalog has no row id left")));
    }
    let id = (db.articles.len() + 1) as i32;
    let ghost arts = db.articles@;
    let ghost p = precursor_id - 1;
    let mut withdrawn = copy_article(&prev);
    withdrawn.active = false;
    db.articles.set((precursor_id - 1) as usize, withdrawn);
    let entity = ArticleEntity {
        id,
        precursor_id: Some(prev.id),
        name,
        barcode,
        amount,
        active: true,
        created: now,
        usage_count: prev.usage_count,
    };
    db.articles.push(entity);
    proof {
        let a2 = db.articles@;
        let n = arts.len() as int;
        assert(a2.len() == n + 1);
        assert(forall|i: int| 0 <= i < n ==> #[trigger] a2[i].precursor_id == arts[i].precursor_id);
        assert(forall|i: int| 0 <= i < n && i != p ==> #[trigger] a2[i] == arts[i]);
        assert forall|i: int, j: int| 0 <= i < a2.len() && 0 <= j < a2.len() && #[trigger] replaces(a2, j, i)
            implies !(#[trigger] a2[i]).active by {
            if j < n {
                assert(replaces(arts, j, i));
                assert(i < n);
            }
        }
        assert forall|j: int, k: int|
            0 <= j < a2.len() && 0 <= k < a2.len() && (#[trigger] a2[j]).precursor_id is Some
                && (#[trigger] a2[k]).precursor_id == a2[j].precursor_id implies j == k by {
            if j == n && k < n {
                assert(replaces(arts, k, p));
            } else if k == n && j < n {
                assert(replaces(arts, j, p));
            }
        }
        assert(articles_wf(a2));
    }
    match get_article_tx(db, Some(id)) {
        Some(o) => Ok(*o),
        None => Err(DbError::UnknownError(String::from_str("article vanished"))),
    }
}

/// Withdraws article `article_id` from sale, active or not, and returns it with
/// its chain. Fails with `EntityNotFound`, changing nothing, when it is absent.
pub fn delete_article(db: &mut Database, article_id: i32) -> (r: Result<ArticleObject, DbError>)
    requires
        old(db).wf(),
    ensures
        final(db).wf(),
        r is Err <==> old(db).article(article_id as int) is None,
        r is Err ==> r->Err_0 is EntityNotFound && *final(db) == *old(db),
        r is Err ==> r->Err_0->EntityNotFound_0@ == "Article"@,
        r is Ok ==> {
            &&& final(db).articles@ == old(db).articles@.update(article_id - 1, deactivated(old(db).article(article_id as int)->0))
            &&& final(db).users@ == old(db).users@
            &&& final(db).transactions@ == old(db).transactions@
            &&& chain_of(r->Ok_0) == chain_from(final(db).articles@, article_id as int)
        },
{
    let prev = match db.find_article(article_id) {
        Some(a) => a,
        None => return Err(DbError::EntityNotFound(String::from_str("Article"))),
    };
    let ghost arts = db.articles@;
    let mut withdrawn = prev;
    withdrawn.active = false;
    db.articles.set((article_id - 1) as usize, withdrawn);
    proof {
        let a2 = db.articles@;
        assert(forall|i: int| 0 <= i < a2.len() ==> #[trigger] a2[i].precursor_id == arts[i].precursor_id);
        assert(forall|i: int| 0 <= i < a2.len() ==> #[trigger] a2[i].id == arts[i].id);
        assert forall|i: int, j: int| 0 <= i < a2.len() && 0 <= j < a2.len() && #[trigger] replaces(a2, j, i)
            implies !(#[trigger] a2[i]).active by {
            assert(replaces(arts, j, i));
        }
    }
    match get_article_tx(db, Some(article_id)) {
        Some(o) => Ok(*o),
        None => Err(DbError::EntityNotFound(String::from_str("Article"))),
    }
}

/// The number of active rows among `arts`.
pub open spec fn active_count(arts: Seq<ArticleEntity>) -> nat
    decreases arts.len(),
{
    if arts.len() == 0 {
        0
    } else {
        active_count(arts.drop_last()) + if arts.last().active { 1nat } else { 0nat }
    }
}

/// Counts the active article revisions.
pub fn num_active(db: &Database) -> (r: i32)
    requires
        db.wf(),
    ensures
        r as int == active_count(db.articles@),
{
    let mut count: i32 = 0;
    let mut i: usize = 0;
    while i < db.articles.len()
        invariant
            db.wf(),
            i <= db.articles@.len(),
            count as int == active_count(db.articles@.take(i as int)),
            count <= i,
        decreases db.articles@.len() - i,
    {
        proof {
            assert(db.articles@.take(i as int + 1).drop_last() =~= db.articles@.take(i as int));
        }
        if db.articles[i].active {
            count += 1;
        }
        i += 1;
    }
    proof {
        assert(db.articles@.take(i as int) =~= db.articles@);
    }
    count
}

/// Byte-wise lexicographic order: `a` sorts strictly before `b`.
pub open spec fn bytes_lt(a: Seq<u8>, b: Seq<u8>) -> bool
    decreases a.len(),
{
    if a.len() == 0 {
        b.len() > 0
    } else if b.len() == 0 {
        false
    } else if a[0] != b[0] {
        a[0] < b[0]
    } else {
        bytes_lt(a.drop_first(), b.drop_first())
    }
}

/// Article `a`'s name sorts strictly before `b`'s, comparing their UTF-8 bytes.
pub open spec fn name_lt(a: ArticleEntity, b: ArticleEntity) -> bool {
    bytes_lt(vstd::utf8::encode_utf8(a.name@), vstd::utf8::encode_utf8(b.name@))
}

/// Where `x` goes into `s`: after every row whose name does not sort after it.
pub open spec fn insert_pos(s: Seq<ArticleEntity>, x: ArticleEntity) -> int
    decreases s.len(),
{
    if s.len() == 0 {
        0
    } else if name_lt(x, s.last()) {
        insert_pos(s.drop_last(), x)
    } else {
        s.len() as int
    }
}

/// `s` ordered by name; rows with equal names keep their order.
pub open spec fn sort_by_name(s: Seq<ArticleEntity>) -> Seq<ArticleEntity>
    decreases s.len(),
{
    if s.len() == 0 {
        Seq::empty()
    } else {
        let t = sort_by_name(s.drop_last());
        t.insert(insert_pos(t, s.last()), s.last())
    }
}

/// Whether some row names row `i` as its precursor.
pub open spec fn has_successor(arts: Seq<ArticleEntity>, i: int) -> bool {
    exists|j: int| 0 <= j < arts.len() && #[trigger] replaces(arts, j, i)
}

/// The head revisions among the first `n` rows whose active flag is `active`, by id.
pub open spec fn heads_of(arts: Seq<ArticleEntity>, n: int, active: bool) -> Seq<ArticleEntity>
    decreases n,
{
    if n <= 0 {
        Seq::empty()
    } else {
        let rest = heads_of(arts, n - 1, active);
        if arts[n - 1].active == active && !has_successor(arts, n - 1) {
            rest.push(arts[n - 1])
        } else {
            rest
        }
    }
}

/// The head revisions whose active flag is `active`, ordered by name.
pub open spec fn listed_heads(arts: Seq<ArticleEntity>, active: bool) -> Seq<ArticleEntity> {
    sort_by_name(heads_of(arts, arts.len() as int, active))
}

proof fn lemma_bytes_lt_step(a: Seq<u8>, b: Seq<u8>, i: int)
    requires
        0 <= i < a.len(),
        i < b.len(),
        a[i] == b[i],
    ensures
        bytes_lt(a.skip(i), b.skip(i)) == bytes_lt(a.skip(i + 1), b.skip(i + 1)),
{
    assert(a.skip(i).drop_first() =~= a.skip(i + 1));
    assert(b.skip(i).drop_first() =~= b.skip(i + 1));
}

/// Whether text `a` sorts strictly before text `b`, comparing UTF-8 bytes.
pub fn str_lt(a: &String, b: &String) -> (r: bool)
    ensures
        r == bytes_lt(vstd::utf8::encode_utf8(a@), vstd::utf8::encode_utf8(b@)),
{
    let x = a.as_str().as_bytes();
    let y = b.as_str().as_bytes();
    let mut i: usize = 0;
    proof {
        assert(x@.skip(0) =~= x@);
        assert(y@.skip(0) =~= y@);
    }
    while i < x.len() && i < y.len() && x[i] == y[i]
        invariant
            i <= x@.len(),
            i <= y@.len(),
            bytes_lt(x@, y@) == bytes_lt(x@.skip(i as int), y@.skip(i as int)),
        decreases x@.len() - i,
    {
        proof {
            lemma_bytes_lt_step(x@, y@, i as int);
        }
        i += 1;
    }
    if i == x.len() {
        i < y.len()
    } else if i == y.len() {
        false
    } else {
        x[i] < y[i]
    }
}

fn insert_by_name(out: &mut Vec<ArticleEntity>, x: ArticleEntity)
    ensures
        final(out)@ == old(out)@.insert(insert_pos(old(out)@, x), x),
{
    let ghost s = out@;
    let mut p: usize = out.len();
    proof {
        assert(s.take(p as int) =~= s);
    }
    while p > 0 && str_lt(&x.name, &out[p - 1].name)
        invariant
            out@ == s,
            p <= s.len(),
            insert_pos(s, x) == insert_pos(s.take(p as int), x),
        decreases p,
    {
        proof {
            assert(s.take(p as int).drop_last() =~= s.take(p as int - 1));
        }
        p -= 1;
    }
    proof {
        if p > 0 {
            assert(s.take(p as int).last() == s[p as int - 1]);
        }
    }
    out.insert(p, x);
}

fn has_successor_exec(arts: &Vec<ArticleEntity>, i: usize) -> (r: bool)
    requires
        i < arts@.len(),
    ensures
        r == has_successor(arts@, i as int),
{
    let mut j: usize = 0;
    while j < arts.len()
        invariant
            i < arts@.len(),
            j <= arts@.len(),
            forall|k: int| 0 <= k < j ==> !#[trigger] replaces(arts@, k, i as int),
        decreases arts@.len() - j,
    {
        if arts[j].precursor_id == Some((i + 1) as i32) {
            assert(replaces(arts@, j as int, i as int));
            return true;
        }
        j += 1;
    }
    false
}

/// Lists the head revisions (those no row replaces) whose active flag is
/// `active`, ordered by name, skipping `offset` and returning at most `limit` (all when it is negative);
/// with `ancestor`, each comes with its chain of earlier revisions.
pub fn get_articles(db: &Database, limit: i32, offset: i32, active: bool, ancestor: bool) -> (r: Vec<ArticleObject>)
    requires
        db.wf(),
    ensures
        ({
            let all = listed_heads(db.articles@, active);
            let skip = if offset < 0 { 0 } else { offset as int };
            let take = if limit < 0 { all.len() as int } else { limit as int };
            let shown = if skip >= all.len() {
                Seq::<ArticleEntity>::empty()
            } else if skip + take >= all.len() {
                all.subrange(skip, all.len() as int)
            } else {
                all.subrange(skip, skip + take)
            };
            &&& r@.len() == shown.len()
            &&& forall|k: int| 0 <= k < r@.len() ==> (#[trigger] r@[k]).entity == shown[k]
            &&& forall|k: int| 0 <= k < r@.len() ==> ((#[trigger] r@[k]).precursor is Some <==>
                    (ancestor && shown[k].precursor_id is Some && db.article(shown[k].precursor_id->0 as int) is Some))
            &&& forall|k: int| 0 <= k < r@.len() && (#[trigger] r@[k]).precursor is Some ==>
                    chain_of(*r@[k].precursor->0) == chain_from(db.articles@, shown[k].precursor_id->0 as int)
        }),
{
    let ghost arts = db.articles@;
    let mut sorted: Vec<ArticleEntity> = Vec::new();
    let mut i: usize = 0;
    while i < db.articles.len()
        invariant
            db.wf(),
            arts == db.articles@,
            i <= arts.len(),
            sorted@ == sort_by_name(heads_of(arts, i as int, active)),
        decreases arts.len() - i,
    {
        if db.articles[i].active == active && !has_successor_exec(&db.articles, i) {
            let ghost h = heads_of(arts, i as int, active);
            proof {
                assert(h.push(arts[i as int]).drop_last() =~= h);
            }
            insert_by_name(&mut sorted, copy_article(&db.articles[i]));
        }
        i += 1;
    }
    let ghost all = sorted@;
    let n = sorted.len();
    let skip: usize = if offset < 0 { 0 } else { offset as usize };
    let take: usize = if limit < 0 { n } else { limit as usize };
    let mut result: Vec<ArticleObject> = Vec::new();
    let mut k: usize = skip;
    while k < n && k - skip < take
        invariant
            db.wf(),
            arts == db.articles@,
            all == sorted@,
            n == all.len(),
            skip <= k,
            k - skip <= take,
            k <= n || result@.len() == 0,
            k <= n ==> result@.len() == k - skip,
            k > n ==> k == skip,
            forall|m: int| 0 <= m < result@.len() ==> (#[trigger] result@[m]).entity == all[skip + m],
            forall|m: int| 0 <= m < result@.len() ==> ((#[trigger] result@[m]).precursor is Some <==>
                (ancestor && all[skip + m].precursor_id is Some && db.article(all[skip + m].precursor_id->0 as int) is Some)),
            forall|m: int| 0 <= m < result@.len() && (#[trigger] result@[m]).precursor is Some ==>
                chain_of(*result@[m].precursor->0) == chain_from(arts, all[skip + m].precursor_id->0 as int),
        decreases n - k,
    {
        let head = &sorted[k];
        let precursor = if ancestor {
            get_article_tx(db, head.precursor_id)
        } else {
            None
        };
        result.push(ArticleObject { entity: copy_article(head), precursor });
        k += 1;
    }
    result
}

} // verus!
