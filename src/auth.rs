//! Login sessions.
use vstd::prelude::*;

use crate::error::APIError;
use crate::store::{new_id, Store};
use crate::user::{first_user, get_password_hash, get_user_id, no_user};

verus! {

#[verifier::external_type_specification]
#[verifier::external_body]
pub struct ExBcryptError(bcrypt::BcryptError);

/// Whether `password` matches the bcrypt hash `hash`, as the `bcrypt`
/// crate decides.
pub uninterp spec fn bcrypt_accepts(password: Seq<char>, hash: Seq<char>) -> bool;

/// Relies on `bcrypt::verify`: where the hash can be read, whether the
/// password hashes to it, which depends on the two texts alone.
#[verifier::external_body]
fn verify_password(password: &str, hash: &str) -> (r: Result<bool, bcrypt::BcryptError>)
    ensures
        r matches Ok(b) ==> b == bcrypt_accepts(password@, hash@),
{
    bcrypt::verify(password, hash)
}

/// A login session; its id is the bearer token.
#[derive(Debug)]
pub struct Session {
    pub id: String,
    pub user_id: String,
    pub created_at: i64,
    pub accessed_at: i64,
    pub ip_address: String,
    pub user_agent: String,
}

/// Where a request came from.
#[derive(Debug)]
pub struct SessionMetadata {
    pub ip_address: String,
    pub user_agent: String,
}

/// Credentials of a login.
#[derive(Debug)]
pub struct UserCredentials {
    pub email: String,
    pub password: String,
}

/// Registration settings that clients may read.
#[derive(Debug)]
pub struct AuthConfig {
    pub invite_required: bool,
}

impl Session {
    pub fn duplicate(&self) -> (r: Session)
        ensures
            r == *self,
    {
        Session {
            id: self.id.clone(),
            user_id: self.user_id.clone(),
            created_at: self.created_at,
            accessed_at: self.accessed_at,
            ip_address: self.ip_address.clone(),
            user_agent: self.user_agent.clone(),
        }
    }
}

/// `i` is the first session of `ss` with id `id`.
pub open spec fn first_session(ss: Seq<Session>, id: Seq<char>, i: int) -> bool {
    &&& 0 <= i < ss.len()
    &&& ss[i].id@ == id
    &&& forall|j: int| 0 <= j < i ==> (#[trigger] ss[j]).id@ != id
}

/// The session whose id is `session_id`: `SessionNotFound` where there is
/// none.
pub fn get_user_session_by_id(store: &Store, session_id: &str) -> (r: Result<Session, APIError>)
    ensures
        match r {
            Ok(s) => exists|i: int|
                first_session(store.sessions@, session_id@, i) && s == #[trigger] store.sessions@[i],
            Err(e) => e == APIError::SessionNotFound && forall|j: int|
                0 <= j < store.sessions.len() ==> (#[trigger] store.sessions@[j]).id@
                    != session_id@,
        },
{
    let id = session_id.to_string();
    let mut i: usize = 0;
    while i < store.sessions.len()
        invariant
            i <= store.sessions.len(),
            id@ == session_id@,
            forall|j: int| 0 <= j < i ==> (#[trigger] store.sessions@[j]).id@ != id@,
        decreases store.sessions.len() - i,
    {
        let s = &store.sessions[i];
        if s.id == id {
            return Ok(s.duplicate());
        }
        i = i + 1;
    }
    Err(APIError::SessionNotFound)
}

/// The sessions of `user_id`, in the order of the snapshot.
pub open spec fn sessions_of(ss: Seq<Session>, user_id: Seq<char>) -> Seq<Session>
    decreases ss.len(),
{
    if ss.len() == 0 {
        Seq::empty()
    } else if ss.last().user_id@ == user_id {
        sessions_of(ss.drop_last(), user_id).push(ss.last())
    } else {
        sessions_of(ss.drop_last(), user_id)
    }
}

/// Most recently used first.
pub open spec fn by_recent_use(ss: Seq<Session>) -> bool {
    forall|i: int, j: int| 0 <= i < j < ss.len() ==> ss[i].accessed_at >= ss[j].accessed_at
}

/// Every session of a user, the most recently used first.
pub fn get_all_user_sessions(store: &Store, user_id: &str) -> (r: Result<Vec<Session>, APIError>)
    ensures
        r matches Ok(ss) && by_recent_use(ss@) && ss@.to_multiset() == sessions_of(
            store.sessions@,
            user_id@,
        ).to_multiset(),
{
    broadcast use vstd::seq_lib::group_to_multiset_ensures;

    let owner = user_id.to_string();
    let mut r: Vec<Session> = Vec::new();
    let mut i: usize = 0;
    while i < store.sessions.len()
        invariant
            i <= store.sessions.len(),
            owner@ == user_id@,
            by_recent_use(r@),
            r@.to_multiset() == sessions_of(store.sessions@.subrange(0, i as int), owner@).to_multiset(),
        decreases store.sessions.len() - i,
    {
        let s = &store.sessions[i];
        assert(store.sessions@.subrange(0, i + 1).drop_last() =~= store.sessions@.subrange(
            0,
            i as int,
        ));
        if s.user_id == owner {
            // Insert after every session used at the same time or later.
            let mut p: usize = 0;
            while p < r.len() && r[p].accessed_at >= s.accessed_at
                invariant
                    p <= r.len(),
                    forall|m: int| 0 <= m < p ==> (#[trigger] r@[m]).accessed_at >= s.accessed_at,
                decreases r.len() - p,
            {
                p = p + 1;
            }
            let ghost before = r@;
            r.insert(p, s.duplicate());
            proof {
                assert(r@ == before.insert(p as int, *s));
                vstd::seq_lib::to_multiset_insert(before, p as int, *s);
                vstd::seq_lib::to_multiset_build(
                    sessions_of(store.sessions@.subrange(0, i as int), owner@),
                    *s,
                );
                assert forall|a: int, b: int| 0 <= a < b < r.len() implies r@[a].accessed_at
                    >= r@[b].accessed_at by {
                    if p < before.len() {
                        assert(before[p as int].accessed_at < s.accessed_at);
                    }
                }
            }
        }
        i = i + 1;
    }
    assert(store.sessions@.subrange(0, store.sessions.len() as int) =~= store.sessions@);
    Ok(r)
}

/// Which sessions a deletion selects: the one with id `key`, or, when
/// `by_user`, all of user `key`.
pub open spec fn session_selected(s: Session, key: Seq<char>, by_user: bool) -> bool {
    if by_user {
        s.user_id@ == key
    } else {
        s.id@ == key
    }
}

/// The sessions that a deletion keeps, in order.
pub open spec fn sessions_kept(ss: Seq<Session>, key: Seq<char>, by_user: bool) -> Seq<Session>
    decreases ss.len(),
{
    if ss.len() == 0 {
        Seq::empty()
    } else if session_selected(ss.last(), key, by_user) {
        sessions_kept(ss.drop_last(), key, by_user)
    } else {
        sessions_kept(ss.drop_last(), key, by_user).push(ss.last())
    }
}

/// Removes the selected sessions; whether any was removed.
fn remove_sessions(store: &mut Store, key: &str, by_user: bool) -> (r: bool)
    ensures
        final(store).users == old(store).users,
        final(store).categories == old(store).categories,
        final(store).tags == old(store).tags,
        final(store).invites == old(store).invites,
        final(store).entries == old(store).entries,
        final(store).sessions@ == sessions_kept(old(store).sessions@, key@, by_user),
        r == exists|i: int|
            0 <= i < old(store).sessions.len() && session_selected(
                #[trigger] old(store).sessions@[i],
                key@,
                by_user,
            ),
{
    let wanted = key.to_string();
    let mut kept: Vec<Session> = Vec::new();
    let mut removed = false;
    let mut i: usize = 0;
    while i < store.sessions.len()
        invariant
            i <= store.sessions.len(),
            wanted@ == key@,
            kept@ == sessions_kept(store.sessions@.subrange(0, i as int), key@, by_user),
            removed == exists|j: int|
                0 <= j < i && session_selected(#[trigger] store.sessions@[j], key@, by_user),
        decreases store.sessions.len() - i,
    {
        let s = &store.sessions[i];
        assert(store.sessions@.subrange(0, i + 1).drop_last() =~= store.sessions@.subrange(
            0,
            i as int,
        ));
        let selected = if by_user {
            s.user_id == wanted
        } else {
            s.id == wanted
        };
        if selected {
            removed = true;
        } else {
            kept.push(s.duplicate());
        }
        i = i + 1;
    }
    assert(store.sessions@.subrange(0, store.sessions.len() as int) =~= store.sessions@);
    store.sessions = kept;
    removed
}

/// Ends the session `session_id`: `Ok(true)` where there was one.
pub fn delete_user_session(store: &mut Store, session_id: &str) -> (r: Result<bool, APIError>)
    ensures
        final(store).users == old(store).users,
        final(store).categories == old(store).categories,
        final(store).tags == old(store).tags,
        final(store).invites == old(store).invites,
        final(store).entries == old(store).entries,
        final(store).sessions@ == sessions_kept(old(store).sessions@, session_id@, false),
        r == Ok::<bool, APIError>(
            exists|i: int|
                0 <= i < old(store).sessions.len() && (#[trigger] old(store).sessions@[i]).id@
                    == session_id@,
        ),
{
    Ok(remove_sessions(store, session_id, false))
}

/// Ends every session of the user: `Ok(true)` where there was one.
pub fn delete_all_user_sessions(store: &mut Store, user_id: &str) -> (r: Result<bool, APIError>)
    ensures
        final(store).users == old(store).users,
        final(store).categories == old(store).categories,
        final(store).tags == old(store).tags,
        final(store).invites == old(store).invites,
        final(store).entries == old(store).entries,
        final(store).sessions@ == sessions_kept(old(store).sessions@, user_id@, true),
        r == Ok::<bool, APIError>(
            exists|i: int|
                0 <= i < old(store).sessions.len() && (#[trigger] old(store).sessions@[i]).user_id@
                    == user_id@,
        ),
{
    Ok(remove_sessions(store, user_id, true))
}

/// The session that a successful login at `now` opens.
pub open spec fn opened(s: Session, id: String, user_id: String, metadata: SessionMetadata, now: i64) -> bool {
    &&& s.id == id
    &&& s.user_id == user_id
    &&& s.created_at == now
    &&& s.accessed_at == now
    &&& s.ip_address == metadata.ip_address
    &&& s.user_agent == metadata.user_agent
}

/// Opens session `id` for `user_id` once the password check has answered
/// `check`: `None` where the stored hash could not be read
/// (`InternalServerError`), `Some(false)` for a wrong password
/// (`InvalidPassword`). Only a success adds the session.
pub fn start_session(
    store: &mut Store,
    user_id: String,
    check: Option<bool>,
    metadata: SessionMetadata,
    id: String,
    now: i64,
) -> (r: Result<Session, APIError>)
    ensures
        final(store).users == old(store).users,
        final(store).categories == old(store).categories,
        final(store).tags == old(store).tags,
        final(store).invites == old(store).invites,
        final(store).entries == old(store).entries,
        match check {
            None => r == Err::<Session, APIError>(APIError::InternalServerError) && final(store).sessions == old(store).sessions,
            Some(false) => r == Err::<Session, APIError>(APIError::InvalidPassword) && final(store).sessions == old(store).sessions,
            Some(true) => r matches Ok(s) && opened(s, id, user_id, metadata, now) && final(store).sessions@ == old(store).sessions@.push(s),
        },
{
    match check {
        None => Err(APIError::InternalServerError),
        Some(false) => Err(APIError::InvalidPassword),
        Some(true) => {
            let session = Session {
                id,
                user_id,
                created_at: now,
                accessed_at: now,
                ip_address: metadata.ip_address,
                user_agent: metadata.user_agent,
            };
            store.sessions.push(session.duplicate());
            Ok(session)
        },
    }
}

/// Logs a user in at `now`: `UserNotFound` where no account has the
/// e-mail, `InvalidPassword` where the password does not match the stored
/// hash, `InternalServerError` where that hash cannot be read. A success
/// stores and returns a new session with a fresh random id.
pub fn create_user_session(
    store: &mut Store,
    user_credentials: UserCredentials,
    metadata: SessionMetadata,
    now: i64,
) -> (r: Result<Session, APIError>)
    ensures
        final(store).users == old(store).users,
        final(store).categories == old(store).categories,
        final(store).tags == old(store).tags,
        final(store).invites == old(store).invites,
        final(store).entries == old(store).entries,
        no_user(old(store).users@, user_credentials.email@, true) ==> r == Err::<
            Session,
            APIError,
        >(APIError::UserNotFound),
        match r {
            Ok(s) => {
                &&& exists|i: int|
                    first_user(old(store).users@, user_credentials.email@, true, i) && s.user_id
                        == (#[trigger] old(store).users@[i]).id
                &&& exists|k: int|
                    first_user(old(store).users@, s.user_id@, false, k) && bcrypt_accepts(
                        user_credentials.password@,
                        (#[trigger] old(store).users@[k]).password@,
                    )
                &&& s.created_at == now && s.accessed_at == now
                &&& s.ip_address == metadata.ip_address && s.user_agent == metadata.user_agent
                &&& final(store).sessions@ == old(store).sessions@.push(s)
            },
            Err(e) => {
                &&& final(store).sessions == old(store).sessions
                &&& e == APIError::UserNotFound || e == APIError::InvalidPassword || e
                    == APIError::InternalServerError
            },
        },
{
    let user_id = match get_user_id(store, user_credentials.email.as_str()) {
        Ok(id) => id,
        Err(_) => return Err(APIError::UserNotFound),
    };
    let password_hash = match get_password_hash(store, user_id.as_str()) {
        Ok(hash) => hash,
        Err(_) => return Err(APIError::InternalServerError),
    };
    let check = match verify_password(user_credentials.password.as_str(), password_hash.as_str()) {
        Ok(b) => Some(b),
        Err(_) => None,
    };
    start_session(store, user_id, check, metadata, new_id(), now)
}

/// The sessions after session `id` is used at `now` from `metadata`.
pub open spec fn touched(ss: Seq<Session>, id: Seq<char>, metadata: SessionMetadata, now: i64) -> Seq<Session> {
    Seq::new(
        ss.len(),
        |i: int|
            if ss[i].id@ == id {
                Session {
                    accessed_at: now,
                    ip_address: metadata.ip_address,
                    user_agent: metadata.user_agent,
                    ..ss[i]
                }
            } else {
                ss[i]
            },
    )
}

/// Records that session `session_id` was used at `now` from `metadata`:
/// `SessionNotFound` where there is no such session; otherwise the
/// updated session.
pub fn update_session(store: &mut Store, session_id: &str, metadata: SessionMetadata, now: i64) -> (r: Result<
    Session,
    APIError,
>)
    ensures
        final(store).users == old(store).users,
        final(store).categories == old(store).categories,
        final(store).tags == old(store).tags,
        final(store).invites == old(store).invites,
        final(store).entries == old(store).entries,
        final(store).sessions@ == touched(old(store).sessions@, session_id@, metadata, now),
        match r {
            Ok(s) => exists|i: int|
                first_session(old(store).sessions@, session_id@, i) && s == touched(
                    old(store).sessions@,
                    session_id@,
                    metadata,
                    now,
                )[i],
            Err(e) => e == APIError::SessionNotFound && forall|j: int|
                0 <= j < old(store).sessions.len() ==> (#[trigger] old(store).sessions@[j]).id@
                    != session_id@,
        },
{
    let wanted = session_id.to_string();
    let ghost before = store.sessions@;
    let mut updated: Vec<Session> = Vec::new();
    let mut i: usize = 0;
    while i < store.sessions.len()
        invariant
            i <= store.sessions.len(),
            store.sessions@ == before,
            wanted@ == session_id@,
            updated.len() == i,
            forall|m: int|
                0 <= m < i ==> #[trigger] updated@[m] == touched(before, session_id@, metadata, now)[m],
        decreases store.sessions.len() - i,
    {
        let s = &store.sessions[i];
        let mut t = s.duplicate();
        if s.id == wanted {
            t.accessed_at = now;
            t.ip_address = metadata.ip_address.clone();
            t.user_agent = metadata.user_agent.clone();
        }
        updated.push(t);
        i = i + 1;
    }
    assert(updated@ =~= touched(before, session_id@, metadata, now));
    store.sessions = updated;
    let found = get_user_session_by_id(store, session_id);
    proof {
        let after = store.sessions@;
        assert forall|j: int| 0 <= j < after.len() implies (#[trigger] after[j]).id@ == before[j].id@ by {}
        if found is Ok {
            let i = choose|i: int| first_session(after, session_id@, i) && found->Ok_0 == #[trigger] after[i];
            assert forall|j: int| 0 <= j < i implies (#[trigger] before[j]).id@ != session_id@ by {
                assert(after[j].id@ == before[j].id@);
            }
            assert(before[i].id@ == after[i].id@);
            assert(first_session(before, session_id@, i));
        } else {
            assert forall|j: int| 0 <= j < before.len() implies (#[trigger] before[j]).id@ != session_id@ by {
                assert(after[j].id@ == before[j].id@);
            }
        }
    }
    found
}

} // verus!
