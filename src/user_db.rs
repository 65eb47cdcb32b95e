use crate::article_db::{bytes_lt, str_lt};
use crate::db::{Database, MAX_ID};
use crate::settings::{get_stale_period, stale_period_for, StrichlisteSetting};
use crate::error::DbError;
use crate::model::{copy_user, UserEntity};
use vstd::prelude::*;

verus! {

/// Whether an account other than `except` is named `name`.
pub open spec fn user_name_taken(users: Seq<UserEntity>, name: Seq<char>, except: int) -> bool {
    exists|i: int| 0 <= i < users.len() && i + 1 != except && (#[trigger] users[i]).name@ == name
}

/// A freshly opened account.
pub open spec fn new_account(id: int, name: String, email: Option<String>, now: String) -> UserEntity {
    UserEntity {
        id: id as i32,
        name,
        email,
        balance: 0,
        active: false,
        disabled: false,
        created: now,
        updated: None,
    }
}

/// `u` with new name, email and disabled flag.
pub open spec fn edited(u: UserEntity, name: String, email: Option<String>, disabled: bool) -> UserEntity {
    UserEntity {
        id: u.id,
        name,
        email,
        balance: u.balance,
        active: u.active,
        disabled,
        created: u.created,
        updated: u.updated,
    }
}

fn find_name(users: &Vec<UserEntity>, name: &String, except: i32) -> (r: bool)
    ensures
        r == user_name_taken(users@, name@, except as int),
{
    let mut i: usize = 0;
    while i < users.len()
        invariant
            i <= users@.len(),
            forall|j: int| 0 <= j < i && j + 1 != except ==> (#[trigger] users@[j]).name@ != name@,
        decreases users@.len() - i,
    {
        let is_except = except >= 1 && (except - 1) as usize == i;
        if !is_except && users[i].name == *name {
            assert(users@[i as int].name@ == name@);
            return true;
        }
        i += 1;
    }
    false
}

/// Looks up an account by id.
pub fn get_user_tx(db: &Database, user_id: &i32) -> (r: Option<UserEntity>)
    requires
        db.wf(),
    ensures
        r == db.user(*user_id as int),
{
    db.find_user(*user_id)
}

/// Looks up account `user_id` with its activity flag at time `now`: it booked
/// less than the configured stale period ago.
pub fn get_user(db: &Database, settings: &StrichlisteSetting, user_id: &i32, now: &str) -> (r: Option<UserEntity>)
    requires
        db.wf(),
    ensures
        db.user(*user_id as int) is None ==> r is None,
        db.user(*user_id as int) is Some ==> exists|parsed: Option<i64>| {
            let u = db.user(*user_id as int)->0;
            r == Some(with_activity(u, recently_active(u.updated, timestamp_of(now@), #[trigger] stale_period_for(parsed))))
        },
{
    let stale = get_stale_period(settings);
    let ghost parsed = choose|p: Option<i64>| stale as int == stale_period_for(p);
    match db.find_user(*user_id) {
        Some(u) => {
            let mut c = u;
            c.active = is_recently_active(&c.updated, parse_timestamp(now), stale);
            assert(c == with_activity(db.user(*user_id as int)->0, recently_active(c.updated, timestamp_of(now@),
                stale_period_for(parsed))));
            Some(c)
        },
        None => None,
    }
}

/// Opens an account with a zero balance. Fails with `DuplicateKey` when the name
/// is taken and with `UnknownError` when no id is left; a failure changes nothing.
pub fn create_user(db: &mut Database, name: String, email: Option<String>, now: String) -> (r: Result<UserEntity, DbError>)
    requires
        old(db).wf(),
    ensures
        final(db).wf(),
        r is Err <==> (user_name_taken(old(db).users@, name@, 0) || old(db).users@.len() >= MAX_ID),
        r is Err ==> *final(db) == *old(db),
        r is Err ==> (user_name_taken(old(db).users@, name@, 0) ==> r->Err_0 is DuplicateKey),
        r is Ok ==> {
            let u = new_account(old(db).users@.len() as int + 1, name, email, now);
            &&& final(db).users@ == old(db).users@.push(u)
            &&& final(db).articles@ == old(db).articles@
            &&& final(db).transactions@ == old(db).transactions@
            &&& r->Ok_0 == u
        },
{
    if find_name(&db.users, &name, 0) {
        return Err(DbError::DuplicateKey(String::from_str("user")));
    }
    if db.users.len() >= MAX_ID as usize {
        return Err(DbError::UnknownError(String::from_str("no account id left")));
    }
    let u = UserEntity {
        id: (db.users.len() + 1) as i32,
        name,
        email,
        balance: 0,
        active: false,
        disabled: false,
        created: now,
        updated: None,
    };
    db.users.push(copy_user(&u));
    Ok(u)
}

/// Renames an account, sets its email and its disabled flag. Fails with
/// `EntityNotFound` when it is absent and with `DuplicateKey` when another
/// account has the name; a failure changes nothing.
pub fn update_user(
    db: &mut Database,
    user_id: i32,
    name: String,
    email: Option<String>,
    disabled: bool,
) -> (r: Result<UserEntity, DbError>)
    requires
        old(db).wf(),
    ensures
        final(db).wf(),
        r is Err <==> (old(db).user(user_id as int) is None || user_name_taken(old(db).users@, name@, user_id as int)),
        r is Err ==> *final(db) == *old(db),
        r is Err ==> (old(db).user(user_id as int) is None ==> r->Err_0 is EntityNotFound),
        r is Err ==> (old(db).user(user_id as int) is Some ==> r->Err_0 is DuplicateKey),
        r is Ok ==> {
            let u = edited(old(db).user(user_id as int)->0, name, email, disabled);
            &&& final(db).users@ == old(db).users@.update(user_id - 1, u)
            &&& final(db).articles@ == old(db).articles@
            &&& final(db).transactions@ == old(db).transactions@
            &&& r->Ok_0 == u
        },
{
    let prev = match db.find_user(user_id) {
        Some(u) => u,
        None => return Err(DbError::EntityNotFound(String::from_str("User"))),
    };
    if find_name(&db.users, &name, user_id) {
        return Err(DbError::DuplicateKey(String::from_str("user")));
    }
    let mut u = prev;
    u.name = name;
    u.email = email;
    u.disabled = disabled;
    db.users.set((user_id - 1) as usize, copy_user(&u));
    Ok(u)
}

/// The time a `YYYY-MM-DD HH:MM:SS` stamp denotes, in seconds, when it is one.
pub uninterp spec fn timestamp_of(s: Seq<char>) -> Option<i64>;

/// Relies on chrono's `NaiveDateTime::parse_from_str` with the format
/// `%Y-%m-%d %H:%M:%S`, and on `timestamp` of its value read as UTC: the
/// seconds since the epoch, or nothing when the text has another shape. The
/// result depends on the text alone.
#[verifier::external_body]
fn parse_timestamp(s: &str) -> (r: Option<i64>)
    ensures
        r == timestamp_of(s@),
{
    chrono::NaiveDateTime::parse_from_str(s, "%Y-%m-%d %H:%M:%S").ok().map(|d| d.and_utc().timestamp())
}

/// Whether an account last booked at `updated` counts as active at `now`: it has
/// booked, and less than `stale` seconds have passed since.
pub open spec fn recently_active(updated: Option<String>, now: Option<i64>, stale: int) -> bool {
    match updated {
        Some(u) => now is Some && timestamp_of(u@) is Some && now->0 - timestamp_of(u@)->0 < stale,
        None => false,
    }
}

fn is_recently_active(updated: &Option<String>, now: Option<i64>, stale: i64) -> (r: bool)
    ensures
        r == recently_active(*updated, now, stale as int),
{
    match (updated, now) {
        (Some(u), Some(n)) => match parse_timestamp(u.as_str()) {
            Some(t) => (n as i128) - (t as i128) < stale as i128,
            None => false,
        },
        _ => false,
    }
}

/// `u` with its activity flag set to `active`.
pub open spec fn with_activity(u: UserEntity, active: bool) -> UserEntity {
    UserEntity {
        id: u.id,
        name: u.name,
        email: u.email,
        balance: u.balance,
        active,
        disabled: u.disabled,
        created: u.created,
        updated: u.updated,
    }
}

/// Where account `x` goes into `s`: after every account whose name does not sort after it.
pub open spec fn user_insert_pos(s: Seq<UserEntity>, x: UserEntity) -> int
    decreases s.len(),
{
    if s.len() == 0 {
        0
    } else if bytes_lt(vstd::utf8::encode_utf8(x.name@), vstd::utf8::encode_utf8(s.last().name@)) {
        user_insert_pos(s.drop_last(), x)
    } else {
        s.len() as int
    }
}

/// `s` ordered by name; accounts with equal names keep their order.
pub open spec fn sort_users_by_name(s: Seq<UserEntity>) -> Seq<UserEntity>
    decreases s.len(),
{
    if s.len() == 0 {
        Seq::empty()
    } else {
        let t = sort_users_by_name(s.drop_last());
        t.insert(user_insert_pos(t, s.last()), s.last())
    }
}

/// The first `n` accounts whose disabled flag is `disabled` and, when `active` is
/// given, whose activity at `now` is `active`, each with its activity flag set, by id.
pub open spec fn selected_users(
    users: Seq<UserEntity>,
    n: int,
    disabled: bool,
    active: Option<bool>,
    now: Option<i64>,
    stale: int,
) -> Seq<UserEntity>
    decreases n,
{
    if n <= 0 {
        Seq::empty()
    } else {
        let rest = selected_users(users, n - 1, disabled, active, now, stale);
        let u = users[n - 1];
        let act = recently_active(u.updated, now, stale);
        if u.disabled == disabled && (active is None || active == Some(act)) {
            rest.push(with_activity(u, act))
        } else {
            rest
        }
    }
}

fn insert_user_by_name(out: &mut Vec<UserEntity>, x: UserEntity)
    ensures
        final(out)@ == old(out)@.insert(user_insert_pos(old(out)@, x), x),
{
    let ghost s = out@;
    let mut p: usize = out.len();
    proof {
        assert(s.take(p as int) =~= s);
    }
    while p > 0 && str_lt(&x.name, &out[p - 1].name)
        invariant
            out@ == s,
            p <= s.len(),
            user_insert_pos(s, x) == user_insert_pos(s.take(p as int), x),
        decreases p,
    {
        proof {
            assert(s.take(p as int).drop_last() =~= s.take(p as int - 1));
        }
        p -= 1;
    }
    proof {
        if p > 0 {
            assert(s.take(p as int).last() == s[p as int - 1]);
        }
    }
    out.insert(p, x);
}

/// Lists the accounts whose disabled flag is `disabled` and, when `active` is
/// given, whose activity at time `now` equals it, ordered by name. Each comes
/// with its activity flag: it booked less than the configured stale period ago.
pub fn get_users(db: &Database, settings: &StrichlisteSetting, disabled: bool, active: Option<bool>, now: &str) -> (r: Vec<UserEntity>)
    requires
        db.wf(),
    ensures
        exists|parsed: Option<i64>| r@ == sort_users_by_name(selected_users(db.users@, db.users@.len() as int, disabled, active,
            timestamp_of(now@), #[trigger] stale_period_for(parsed))),
{
    let ghost us = db.users@;
    let stale = get_stale_period(settings);
    let ghost parsed = choose|p: Option<i64>| stale as int == stale_period_for(p);
    let now_ts = parse_timestamp(now);
    let ghost stale_i = stale as int;
    let mut out: Vec<UserEntity> = Vec::new();
    let mut i: usize = 0;
    while i < db.users.len()
        invariant
            db.wf(),
            us == db.users@,
            i <= us.len(),
            now_ts == timestamp_of(now@),
            stale_i == stale as int,
            out@ == sort_users_by_name(selected_users(us, i as int, disabled, active, now_ts, stale_i)),
        decreases us.len() - i,
    {
        let u = &db.users[i];
        let act = is_recently_active(&u.updated, now_ts, stale);
        let wanted = match active {
            Some(a) => a == act,
            None => true,
        };
        if u.disabled == disabled && wanted {
            let mut c = copy_user(u);
            c.active = act;
            let ghost h = selected_users(us, i as int, disabled, active, now_ts, stale_i);
            proof {
                assert(h.push(c).drop_last() =~= h);
            }
            insert_user_by_name(&mut out, c);
        }
        i += 1;
    }
    assert(out@ == sort_users_by_name(selected_users(us, us.len() as int, disabled, active, now_ts, stale_period_for(parsed))));
    out
}

/// A character's code with ASCII capitals folded to lower case.
pub open spec fn fold_char(c: char) -> u32 {
    if 'A' <= c && c <= 'Z' {
        (c as u32 + 32) as u32
    } else {
        c as u32
    }
}

/// Whether `q` occurs in `name` at position `i`, ignoring ASCII case.
pub open spec fn matches_at(name: Seq<char>, q: Seq<char>, i: int) -> bool {
    forall|k: int| 0 <= k < q.len() ==> fold_char(#[trigger] name[i + k]) == fold_char(q[k])
}

/// Whether `q` occurs somewhere in `name`, ignoring ASCII case.
pub open spec fn contains_folded(name: Seq<char>, q: Seq<char>) -> bool {
    exists|i: int| 0 <= i && i + q.len() <= name.len() && #[trigger] matches_at(name, q, i)
}

fn fold(c: char) -> (r: u32)
    ensures
        r == fold_char(c),
{
    if 'A' <= c && c <= 'Z' {
        c as u32 + 32
    } else {
        c as u32
    }
}

fn chars_of(s: &str) -> (r: Vec<char>)
    ensures
        r@ == s@,
{
    let n = s.unicode_len();
    let mut out: Vec<char> = Vec::new();
    let mut i: usize = 0;
    while i < n
        invariant
            n == s@.len(),
            i <= n,
            out@ == s@.take(i as int),
        decreases n - i,
    {
        out.push(s.get_char(i));
        proof {
            assert(out@ =~= s@.take(i as int + 1));
        }
        i += 1;
    }
    proof {
        assert(s@.take(n as int) =~= s@);
    }
    out
}

fn contains_folded_exec(name: &Vec<char>, q: &Vec<char>) -> (r: bool)
    ensures
        r == contains_folded(name@, q@),
{
    if q.len() > name.len() {
        return false;
    }
    if q.len() == 0 {
        assert(matches_at(name@, q@, 0));
        return true;
    }
    let nl = name.len();
    let last = nl - q.len();
    let mut i: usize = 0;
    while i <= last
        invariant
            last == name@.len() - q@.len(),
            q@.len() <= name@.len(),
            q@.len() >= 1,
            nl == name@.len(),
            i <= last + 1,
            forall|j: int| 0 <= j < i ==> !#[trigger] matches_at(name@, q@, j),
        decreases last + 1 - i,
    {
        let mut k: usize = 0;
        let mut ok = true;
        while k < q.len()
            invariant
                i <= last,
                last == name@.len() - q@.len(),
                q@.len() <= name@.len(),
                nl == name@.len(),
                k <= q@.len(),
                ok == (forall|m: int| 0 <= m < k ==> fold_char(#[trigger] name@[i + m]) == fold_char(q@[m])),
            decreases q@.len() - k,
        {
            if fold(name[i + k]) != fold(q[k]) {
                ok = false;
            }
            k += 1;
        }
        if ok {
            assert(matches_at(name@, q@, i as int));
            return true;
        }
        i += 1;
    }
    false
}

/// The first `n` enabled accounts whose name contains `q` ignoring ASCII case,
/// each with its activity flag at `now` set, by id.
pub open spec fn found_users(users: Seq<UserEntity>, n: int, q: Seq<char>, now: Option<i64>, stale: int) -> Seq<UserEntity>
    decreases n,
{
    if n <= 0 {
        Seq::empty()
    } else {
        let rest = found_users(users, n - 1, q, now, stale);
        let u = users[n - 1];
        if !u.disabled && contains_folded(u.name@, q) {
            rest.push(with_activity(u, recently_active(u.updated, now, stale)))
        } else {
            rest
        }
    }
}

/// Finds the enabled accounts whose name contains `name_search`, ignoring ASCII
/// case, ordered by name, at most `limit` of them (all when `limit` is negative),
/// each with its activity at `now` under the configured stale period.
pub fn search_user(db: &Database, settings: &StrichlisteSetting, name_search: &str, limit: i32, now: &str) -> (r: Vec<UserEntity>)
    requires
        db.wf(),
    ensures
        exists|parsed: Option<i64>| ({
            let all = sort_users_by_name(found_users(db.users@, db.users@.len() as int, name_search@,
                timestamp_of(now@), #[trigger] stale_period_for(parsed)));
            r@ == if limit < 0 || limit >= all.len() { all } else { all.take(limit as int) }
        }),
{
    let ghost us = db.users@;
    let stale = get_stale_period(settings);
    let ghost parsed = choose|p: Option<i64>| stale as int == stale_period_for(p);
    let now_ts = parse_timestamp(now);
    let ghost stale_i = stale as int;
    let q = chars_of(name_search);
    let mut out: Vec<UserEntity> = Vec::new();
    let mut i: usize = 0;
    while i < db.users.len()
        invariant
            db.wf(),
            us == db.users@,
            i <= us.len(),
            now_ts == timestamp_of(now@),
            stale_i == stale as int,
            q@ == name_search@,
            out@ == sort_users_by_name(found_users(us, i as int, name_search@, now_ts, stale_i)),
        decreases us.len() - i,
    {
        let u = &db.users[i];
        if !u.disabled && contains_folded_exec(&chars_of(u.name.as_str()), &q) {
            let mut c = copy_user(u);
            c.active = is_recently_active(&u.updated, now_ts, stale);
            let ghost h = found_users(us, i as int, name_search@, now_ts, stale_i);
            proof {
                assert(h.push(c).drop_last() =~= h);
            }
            insert_user_by_name(&mut out, c);
        }
        i += 1;
    }
    let ghost all = out@;
    assert(all == sort_users_by_name(found_users(us, us.len() as int, name_search@, now_ts, stale_period_for(parsed))));
    if limit >= 0 && (limit as usize) < out.len() {
        out.truncate(limit as usize);
    }
    assert(out@ == if limit < 0 || limit >= all.len() { all } else { all.take(limit as int) });
    out
}

} // verus!
