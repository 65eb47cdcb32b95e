use crate::article_db::{name_taken, opt_view, root_article, successor, deactivated, chain_from};
use crate::common::{trim, trimmed};
use crate::db::{Database, MAX_ID};
use crate::error::DbError;
use crate::model::{chain_of, ArticleAddReq, ArticleObject};
use crate::article_db;
use vstd::prelude::*;

verus! {

/// The barcode a request stores: the trimmed text, or none when it is absent or blank.
pub open spec fn clean_barcode(b: Option<String>) -> Option<Seq<char>> {
    match b {
        Some(v) => if trimmed(v@).len() > 0 { Some(trimmed(v@)) } else { None },
        None => None,
    }
}

fn clean_barcode_of(b: Option<String>) -> (r: Option<String>)
    ensures
        opt_view(r) == clean_barcode(b),
{
    match b {
        Some(v) => {
            let t = trim(v.as_str());
            if t.as_str().unicode_len() > 0 {
                Some(t)
            } else {
                None
            }
        },
        None => None,
    }
}

/// Adds a new active root article from a request, with its name trimmed and a
/// blank barcode dropped. Fails as `article_db::add_article` does.
pub fn add_article(db: &mut Database, req: ArticleAddReq, now: String) -> (r: Result<ArticleObject, DbError>)
    requires
        old(db).wf(),
    ensures
        final(db).wf(),
        r is Err <==> (name_taken(old(db).articles@, trimmed(req.name@), clean_barcode(req.barcode), 0)
            || old(db).articles@.len() >= MAX_ID),
        r is Err ==> *final(db) == *old(db),
        r is Err ==> (name_taken(old(db).articles@, trimmed(req.name@), clean_barcode(req.barcode), 0)
            ==> r->Err_0 is Conflict),
        r is Err ==> (!name_taken(old(db).articles@, trimmed(req.name@), clean_barcode(req.barcode), 0)
            ==> r->Err_0 is UnknownError),
        r is Ok ==> {
            let a = r->Ok_0.entity;
            &&& a == root_article(old(db).articles@.len() as int + 1, a.name, a.barcode, req.amount, now)
            &&& a.name@ == trimmed(req.name@)
            &&& opt_view(a.barcode) == clean_barcode(req.barcode)
            &&& final(db).articles@ == old(db).articles@.push(a)
            &&& final(db).users@ == old(db).users@
            &&& final(db).transactions@ == old(db).transactions@
            &&& r->Ok_0.precursor is None
        },
{
    let name = trim(req.name.as_str());
    let barcode = clean_barcode_of(req.barcode);
    article_db::add_article(db, name, barcode, req.amount, now)
}

/// Replaces article `precursor_id` by a new revision described by a request,
/// with its name trimmed and a blank barcode dropped. Fails as
/// `article_db::update_article` does.
pub fn update_article(db: &mut Database, precursor_id: i32, req: ArticleAddReq, now: String) -> (r: Result<ArticleObject, DbError>)
    requires
        old(db).wf(),
    ensures
        final(db).wf(),
        r is Err <==> (old(db).article(precursor_id as int) is None
            || !old(db).article(precursor_id as int)->0.active
            || name_taken(old(db).articles@, trimmed(req.name@), clean_barcode(req.barcode), precursor_id as int)
            || old(db).articles@.len() >= MAX_ID),
        r is Err ==> *final(db) == *old(db),
        r is Err ==> (old(db).article(precursor_id as int) is None ==> r->Err_0 is EntityNotFound
            && r->Err_0->EntityNotFound_0@ == "Article"@),
        r is Err ==> (old(db).article(precursor_id as int) is Some && !old(db).article(precursor_id as int)->0.active
            ==> r->Err_0 is Conflict),
        r is Err ==> (old(db).article(precursor_id as int) is Some && old(db).article(precursor_id as int)->0.active
            && name_taken(old(db).articles@, trimmed(req.name@), clean_barcode(req.barcode), precursor_id as int)
            ==> r->Err_0 is Conflict),
        r is Err ==> (old(db).article(precursor_id as int) is Some && old(db).article(precursor_id as int)->0.active
            && !name_taken(old(db).articles@, trimmed(req.name@), clean_barcode(req.barcode), precursor_id as int)
            ==> r->Err_0 is UnknownError),
        r is Ok ==> {
            let prev = old(db).article(precursor_id as int)->0;
            let n = old(db).articles@.len() as int;
            let a = r->Ok_0.entity;
            &&& a == successor(n + 1, prev, a.name, a.barcode, req.amount, now)
            &&& a.name@ == trimmed(req.name@)
            &&& opt_view(a.barcode) == clean_barcode(req.barcode)
            &&& final(db).articles@ == old(db).articles@.update(precursor_id - 1, deactivated(prev)).push(a)
            &&& final(db).users@ == old(db).users@
            &&& final(db).transactions@ == old(db).transactions@
            &&& chain_of(r->Ok_0) == chain_from(final(db).articles@, n + 1)
        },
{
    let name = trim(req.name.as_str());
    let barcode = clean_barcode_of(req.barcode);
    let r = article_db::update_article(db, precursor_id, name, barcode, req.amount, now);
    proof {
        if r is Ok {
            let n = old(db).articles@.len() as int;
            assert(db.articles@[n] == chain_from(db.articles@, n + 1)[0]);
        }
    }
    r
}

} // verus!
