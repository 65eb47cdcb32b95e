use crate::common::{assert_email, is_email_shaped, sanitize_control_chars, trim, trimmed, without_control_chars};
use crate::db::{Database, MAX_ID};
use crate::error::{ApiError, ErrorKind};
use crate::model::{UserAddReq, UserEntity, UserUpdateReq};
use crate::user_db::{self, edited, new_account, user_name_taken};
use vstd::prelude::*;

verus! {

/// The name a request stores: trimmed, with control characters removed.
pub open spec fn clean_name(name: String) -> Seq<char> {
    without_control_chars(trimmed(name@))
}

/// The email a request stores: trimmed.
pub open spec fn clean_email(email: Option<String>) -> Option<Seq<char>> {
    match email {
        Some(e) => Some(trimmed(e@)),
        None => None,
    }
}

/// Whether a request's email is refused: given, not blank, and not shaped like an address.
pub open spec fn email_refused(email: Option<String>) -> bool {
    clean_email(email) is Some && clean_email(email)->0.len() > 0 && !is_email_shaped(clean_email(email)->0)
}

fn clean_email_of(email: Option<String>) -> (r: Result<Option<String>, ApiError>)
    ensures
        r is Err <==> email_refused(email),
        r is Err ==> r->Err_0.spec_kind() == ErrorKind::ParameterInvalid,
        r is Ok ==> match r->Ok_0 {
            Some(e) => clean_email(email) == Some(e@),
            None => clean_email(email) is None,
        },
{
    match email {
        Some(e) => {
            let t = trim(e.as_str());
            if t.as_str().unicode_len() > 0 {
                match assert_email(t.as_str()) {
                    Ok(()) => {},
                    Err(err) => return Err(ApiError::Client(err)),
                }
            }
            Ok(Some(t))
        },
        None => Ok(None),
    }
}

/// Opens an account from a request: the name trimmed and cleaned of control
/// characters, the email trimmed and, unless blank, checked. Fails with
/// `ParameterInvalid` on a malformed email, else as `user_db::create_user`.
pub fn add_user(db: &mut Database, req: UserAddReq, now: String) -> (r: Result<UserEntity, ApiError>)
    requires
        old(db).wf(),
    ensures
        final(db).wf(),
        r is Err <==> (email_refused(req.email) || user_name_taken(old(db).users@, clean_name(req.name), 0)
            || old(db).users@.len() >= MAX_ID),
        r is Err ==> *final(db) == *old(db),
        r is Err ==> (email_refused(req.email) ==> r->Err_0.spec_kind() == ErrorKind::ParameterInvalid),
        r is Err ==> (!email_refused(req.email) && user_name_taken(old(db).users@, clean_name(req.name), 0)
            ==> r->Err_0.spec_kind() == ErrorKind::DuplicateKey),
        r is Ok ==> {
            let u = r->Ok_0;
            &&& u == new_account(old(db).users@.len() as int + 1, u.name, u.email, now)
            &&& u.name@ == clean_name(req.name)
            &&& (match u.email { Some(e) => clean_email(req.email) == Some(e@), None => clean_email(req.email) is None })
            &&& final(db).users@ == old(db).users@.push(u)
            &&& final(db).articles@ == old(db).articles@
            &&& final(db).transactions@ == old(db).transactions@
        },
{
    let trimmed_name = trim(req.name.as_str());
    let name = sanitize_control_chars(trimmed_name.as_str());
    let email = match clean_email_of(req.email) {
        Ok(e) => e,
        Err(e) => return Err(e),
    };
    match user_db::create_user(db, name, email, now) {
        Ok(u) => Ok(u),
        Err(e) => Err(ApiError::Db(e)),
    }
}

/// Edits an account from a request, cleaning name and email as `add_user` does.
/// Fails with `ParameterInvalid` on a malformed email, else as `user_db::update_user`.
pub fn update_user(db: &mut Database, user_id: i32, req: UserUpdateReq) -> (r: Result<UserEntity, ApiError>)
    requires
        old(db).wf(),
    ensures
        final(db).wf(),
        r is Err <==> (email_refused(req.email) || old(db).user(user_id as int) is None
            || user_name_taken(old(db).users@, clean_name(req.name), user_id as int)),
        r is Err ==> *final(db) == *old(db),
        r is Err ==> (email_refused(req.email) ==> r->Err_0.spec_kind() == ErrorKind::ParameterInvalid),
        r is Err ==> (!email_refused(req.email) && old(db).user(user_id as int) is None
            ==> r->Err_0.spec_kind() == ErrorKind::EntityNotFound),
        r is Ok ==> {
            let u = r->Ok_0;
            &&& u == edited(old(db).user(user_id as int)->0, u.name, u.email, req.is_disabled)
            &&& u.name@ == clean_name(req.name)
            &&& (match u.email { Some(e) => clean_email(req.email) == Some(e@), None => clean_email(req.email) is None })
            &&& final(db).users@ == old(db).users@.update(user_id - 1, u)
            &&& final(db).articles@ == old(db).articles@
            &&& final(db).transactions@ == old(db).transactions@
        },
{
    let trimmed_name = trim(req.name.as_str());
    let name = sanitize_control_chars(trimmed_name.as_str());
    let email = match clean_email_of(req.email) {
        Ok(e) => e,
        Err(e) => return Err(e),
    };
    match user_db::update_user(db, user_id, name, email, req.is_disabled) {
        Ok(u) => Ok(u),
        Err(e) => Err(ApiError::Db(e)),
    }
}

} // verus!
