//! User accounts and their lookups.
use vstd::prelude::*;

use crate::error::APIError;
use crate::auth::{delete_all_user_sessions, sessions_kept, Session};
use crate::engine::same_entries;
use crate::log::{
    categories_not_of, create_default_data, defaults_added, delete_all_user_data, entries_not_of,
    tags_not_of,
};
use crate::store::new_id;
use crate::validation::{email_ok, name_ok, password_ok};
use crate::store::Store;

verus! {

/// Input for creating an account.
#[derive(Debug)]
pub struct CreateUser {
    pub name: String,
    pub email: String,
    pub password: String,
    pub invite: Option<String>,
}

/// Credentials of a login attempt.
#[derive(Debug)]
pub struct AuthUser {
    pub email: String,
    pub password: String,
}

/// Input for changing name and e-mail.
#[derive(Debug)]
pub struct UpdateUser {
    pub name: String,
    pub email: String,
}

/// Input for changing the password.
#[derive(Debug)]
pub struct UpdatePassword {
    pub password: String,
}

/// A stored account; `password` holds the password's hash.
#[derive(Debug)]
pub struct User {
    pub id: String,
    pub created_at: i64,
    pub name: String,
    pub email: String,
    pub password: String,
    pub invite: Option<String>,
}

/// An account without its password hash.
#[derive(Debug)]
pub struct UserDetails {
    pub id: String,
    pub created_at: i64,
    pub name: String,
    pub email: String,
    pub invite: Option<String>,
}

pub fn copy_text(s: &Option<String>) -> (r: Option<String>)
    ensures
        r == *s,
{
    match s {
        Some(t) => Some(t.clone()),
        None => None,
    }
}

/// The public details of an account.
pub open spec fn details_of(u: User) -> UserDetails {
    UserDetails {
        id: u.id,
        created_at: u.created_at,
        name: u.name,
        email: u.email,
        invite: u.invite,
    }
}

impl User {
    pub fn details(&self) -> (r: UserDetails)
        ensures
            r == details_of(*self),
    {
        UserDetails {
            id: self.id.clone(),
            created_at: self.created_at,
            name: self.name.clone(),
            email: self.email.clone(),
            invite: copy_text(&self.invite),
        }
    }
}

/// Index of the first user whose field `key` selects, if any: by e-mail
/// when `by_email`, else by id.
pub open spec fn user_key(u: User, key: Seq<char>, by_email: bool) -> bool {
    if by_email {
        u.email@ == key
    } else {
        u.id@ == key
    }
}

/// `i` is the first row of `users` that `key` selects.
pub open spec fn first_user(users: Seq<User>, key: Seq<char>, by_email: bool, i: int) -> bool {
    &&& 0 <= i < users.len()
    &&& user_key(users[i], key, by_email)
    &&& forall|j: int| 0 <= j < i ==> !user_key(#[trigger] users[j], key, by_email)
}

/// No row of `users` is selected by `key`.
pub open spec fn no_user(users: Seq<User>, key: Seq<char>, by_email: bool) -> bool {
    forall|j: int| 0 <= j < users.len() ==> !user_key(#[trigger] users[j], key, by_email)
}

/// Position of the first user selected by `key`.
fn find_user(users: &Vec<User>, key: &str, by_email: bool) -> (r: Option<usize>)
    ensures
        match r {
            Some(i) => first_user(users@, key@, by_email, i as int),
            None => no_user(users@, key@, by_email),
        },
{
    let wanted = key.to_string();
    assert(wanted@ == key@);
    let mut i: usize = 0;
    while i < users.len()
        invariant
            i <= users.len(),
            wanted@ == key@,
            forall|j: int| 0 <= j < i ==> !user_key(#[trigger] users@[j], key@, by_email),
        decreases users.len() - i,
    {
        let hit = if by_email {
            users[i].email == wanted
        } else {
            users[i].id == wanted
        };
        if hit {
            return Some(i);
        }
        i = i + 1;
    }
    None
}

/// The id of the account registered under `email`.
pub fn get_user_id(store: &Store, email: &str) -> (r: Result<String, APIError>)
    ensures
        match r {
            Ok(id) => exists|i: int|
                first_user(store.users@, email@, true, i) && id == (#[trigger] store.users@[i]).id,
            Err(e) => e == APIError::UserNotFound && no_user(store.users@, email@, true),
        },
{
    match find_user(&store.users, email, true) {
        Some(i) => Ok(store.users[i].id.clone()),
        None => Err(APIError::UserNotFound),
    }
}

/// The public details of the account `id`.
pub fn get_user(store: &Store, id: &str) -> (r: Result<UserDetails, APIError>)
    ensures
        match r {
            Ok(u) => exists|i: int|
                first_user(store.users@, id@, false, i) && u == details_of(
                    #[trigger] store.users@[i],
                ),
            Err(e) => e == APIError::UserNotFound && no_user(store.users@, id@, false),
        },
{
    match find_user(&store.users, id, false) {
        Some(i) => Ok(store.users[i].details()),
        None => Err(APIError::UserNotFound),
    }
}

/// The password hash of the account `id`.
pub fn get_password_hash(store: &Store, id: &str) -> (r: Result<String, APIError>)
    ensures
        match r {
            Ok(h) => exists|i: int|
                first_user(store.users@, id@, false, i) && h == (
                #[trigger] store.users@[i]).password,
            Err(e) => e == APIError::UserNotFound && no_user(store.users@, id@, false),
        },
{
    match find_user(&store.users, id, false) {
        Some(i) => Ok(store.users[i].password.clone()),
        None => Err(APIError::UserNotFound),
    }
}

/// Number of accounts.
pub fn user_count(store: &Store) -> (r: usize)
    ensures
        r == store.users.len(),
{
    store.users.len()
}

/// The user `id` has a session used at `since` or later.
pub open spec fn is_active(ss: Seq<Session>, id: Seq<char>, since: int) -> bool {
    exists|j: int| 0 <= j < ss.len() && (#[trigger] ss[j]).user_id@ == id && ss[j].accessed_at >= since
}

/// Some user of `us` has the id `id`.
pub open spec fn id_taken(us: Seq<User>, id: Seq<char>) -> bool {
    exists|j: int| 0 <= j < us.len() && (#[trigger] us[j]).id@ == id
}

/// Number of distinct user ids of `us` that are active since `since`.
pub open spec fn active_users(us: Seq<User>, ss: Seq<Session>, since: int) -> nat
    decreases us.len(),
{
    if us.len() == 0 {
        0
    } else {
        let prev = us.drop_last();
        let u = us.last();
        active_users(prev, ss, since) + if is_active(ss, u.id@, since) && !id_taken(prev, u.id@) {
            1nat
        } else {
            0nat
        }
    }
}

fn has_recent_session(sessions: &Vec<Session>, id: &String, since: i64) -> (r: bool)
    ensures
        r == is_active(sessions@, id@, since as int),
{
    let mut j: usize = 0;
    while j < sessions.len()
        invariant
            j <= sessions.len(),
            forall|m: int|
                0 <= m < j ==> !((#[trigger] sessions@[m]).user_id@ == id@ && sessions@[m].accessed_at
                    >= since),
        decreases sessions.len() - j,
    {
        if sessions[j].user_id == *id && sessions[j].accessed_at >= since {
            return true;
        }
        j = j + 1;
    }
    false
}

fn id_before(users: &Vec<User>, i: usize) -> (r: bool)
    requires
        i < users.len(),
    ensures
        r == id_taken(users@.subrange(0, i as int), users@[i as int].id@),
{
    let mut j: usize = 0;
    while j < i
        invariant
            i < users.len(),
            j <= i,
            forall|m: int| 0 <= m < j ==> (#[trigger] users@[m]).id@ != users@[i as int].id@,
        decreases i - j,
    {
        if users[j].id == users[i].id {
            assert(users@.subrange(0, i as int)[j as int] == users@[j as int]);
            return true;
        }
        j = j + 1;
    }
    false
}

/// Number of distinct users with a session used at `since` or later.
pub fn active_user_count(store: &Store, since: i64) -> (r: usize)
    ensures
        r == active_users(store.users@, store.sessions@, since as int),
{
    let mut count: usize = 0;
    let mut i: usize = 0;
    while i < store.users.len()
        invariant
            i <= store.users.len(),
            count == active_users(store.users@.subrange(0, i as int), store.sessions@, since as int),
            count <= i,
        decreases store.users.len() - i,
    {
        assert(store.users@.subrange(0, i + 1).drop_last() =~= store.users@.subrange(0, i as int));
        if has_recent_session(&store.sessions, &store.users[i].id, since) && !id_before(
            &store.users,
            i,
        ) {
            count = count + 1;
        }
        i = i + 1;
    }
    assert(store.users@.subrange(0, store.users.len() as int) =~= store.users@);
    count
}

/// Relies on `bcrypt::hash`: a hash of the password under a random salt,
/// or an error (for a cost outside the allowed range), of which nothing
/// is promised.
#[verifier::external_body]
fn hash_password(password: &str, cost: u32) -> (r: Result<String, bcrypt::BcryptError>) {
    bcrypt::hash(password, cost)
}

/// The users after giving account `id` a new name and e-mail.
pub open spec fn with_details(us: Seq<User>, id: Seq<char>, name: String, email: String) -> Seq<User> {
    Seq::new(
        us.len(),
        |i: int|
            if us[i].id@ == id {
                User { name: name, email: email, ..us[i] }
            } else {
                us[i]
            },
    )
}

/// The users after giving account `id` a new password hash.
pub open spec fn with_password(us: Seq<User>, id: Seq<char>, hash: String) -> Seq<User> {
    Seq::new(
        us.len(),
        |i: int|
            if us[i].id@ == id {
                User { password: hash, ..us[i] }
            } else {
                us[i]
            },
    )
}

/// Changes name and e-mail of account `id`: `BadRequest` for an empty or
/// over-long name or a malformed e-mail, `EmailAlreadyInUse` where the
/// first account with that e-mail is another one; otherwise whether the
/// account exists.
pub fn update_user(store: &mut Store, id: &str, user: UpdateUser) -> (r: Result<bool, APIError>)
    ensures
        final(store).sessions == old(store).sessions,
        final(store).categories == old(store).categories,
        final(store).tags == old(store).tags,
        final(store).invites == old(store).invites,
        final(store).entries == old(store).entries,
        match r {
            Ok(b) => {
                &&& name_ok(user.name@) && email_ok(user.email@)
                &&& forall|i: int|
                    first_user(old(store).users@, user.email@, true, i) ==> (
                    #[trigger] old(store).users@[i]).id@ == id@
                &&& b == !no_user(old(store).users@, id@, false)
                &&& final(store).users@ == with_details(old(store).users@, id@, user.name, user.email)
            },
            Err(e) => {
                &&& final(store).users == old(store).users
                &&& {
                    ||| e == APIError::BadRequest && !(name_ok(user.name@) && email_ok(user.email@))
                    ||| e == APIError::EmailAlreadyInUse && name_ok(user.name@) && email_ok(
                        user.email@,
                    ) && exists|i: int|
                        first_user(old(store).users@, user.email@, true, i) && (
                        #[trigger] old(store).users@[i]).id@ != id@
                }
            },
        },
{
    if !user.validate() {
        return Err(APIError::BadRequest);
    }
    let wanted = id.to_string();
    if let Ok(existing) = get_user_id(store, user.email.as_str()) {
        if existing != wanted {
            return Err(APIError::EmailAlreadyInUse);
        }
    }
    proof {
        assert forall|i: int| first_user(store.users@, user.email@, true, i) implies (
        #[trigger] store.users@[i]).id@ == id@ by {
            assert forall|k: int| #![all_triggers] first_user(store.users@, user.email@, true, k) ==> k == i by {
                if first_user(store.users@, user.email@, true, k) && k != i {
                    if k < i {
                        assert(!user_key(store.users@[k], user.email@, true));
                    } else {
                        assert(!user_key(store.users@[i], user.email@, true));
                    }
                }
            }
        }
    }
    let ghost before = store.users@;
    let mut updated: Vec<User> = Vec::new();
    let mut found = false;
    let mut i: usize = 0;
    while i < store.users.len()
        invariant
            i <= store.users.len(),
            store.users@ == before,
            wanted@ == id@,
            updated.len() == i,
            forall|m: int|
                0 <= m < i ==> #[trigger] updated@[m] == with_details(
                    before,
                    id@,
                    user.name,
                    user.email,
                )[m],
            found == exists|m: int| 0 <= m < i && (#[trigger] before[m]).id@ == id@,
        decreases store.users.len() - i,
    {
        let u = &store.users[i];
        if u.id == wanted {
            found = true;
            updated.push(
                User {
                    id: u.id.clone(),
                    created_at: u.created_at,
                    name: user.name.clone(),
                    email: user.email.clone(),
                    password: u.password.clone(),
                    invite: copy_text(&u.invite),
                },
            );
        } else {
            updated.push(
                User {
                    id: u.id.clone(),
                    created_at: u.created_at,
                    name: u.name.clone(),
                    email: u.email.clone(),
                    password: u.password.clone(),
                    invite: copy_text(&u.invite),
                },
            );
        }
        i = i + 1;
    }
    assert(updated@ =~= with_details(before, id@, user.name, user.email));
    store.users = updated;
    Ok(found)
}

impl User {
    pub fn duplicate(&self) -> (r: User)
        ensures
            r == *self,
    {
        User {
            id: self.id.clone(),
            created_at: self.created_at,
            name: self.name.clone(),
            email: self.email.clone(),
            password: self.password.clone(),
            invite: copy_text(&self.invite),
        }
    }
}

/// Stores a new password hash of bcrypt cost `cost` for account `id`:
/// `InternalServerError` where hashing fails; otherwise whether the
/// account exists.
pub fn update_password(store: &mut Store, id: &str, password: UpdatePassword, cost: u32) -> (r: Result<
    bool,
    APIError,
>)
    ensures
        final(store).sessions == old(store).sessions,
        final(store).categories == old(store).categories,
        final(store).tags == old(store).tags,
        final(store).invites == old(store).invites,
        final(store).entries == old(store).entries,
        match r {
            Ok(b) => {
                &&& b == !no_user(old(store).users@, id@, false)
                &&& exists|h: String| final(store).users@ == with_password(old(store).users@, id@, h)
            },
            Err(e) => e == APIError::InternalServerError && final(store).users == old(store).users,
        },
{
    let hash = match hash_password(password.password.as_str(), cost) {
        Ok(h) => h,
        Err(_) => return Err(APIError::InternalServerError),
    };
    let wanted = id.to_string();
    let ghost before = store.users@;
    let mut updated: Vec<User> = Vec::new();
    let mut found = false;
    let mut i: usize = 0;
    while i < store.users.len()
        invariant
            i <= store.users.len(),
            store.users@ == before,
            wanted@ == id@,
            updated.len() == i,
            forall|m: int| 0 <= m < i ==> #[trigger] updated@[m] == with_password(before, id@, hash)[m],
            found == exists|m: int| 0 <= m < i && (#[trigger] before[m]).id@ == id@,
        decreases store.users.len() - i,
    {
        let u = &store.users[i];
        let mut v = u.duplicate();
        if u.id == wanted {
            found = true;
            v.password = hash.clone();
        }
        updated.push(v);
        i = i + 1;
    }
    assert(updated@ =~= with_password(before, id@, hash));
    store.users = updated;
    Ok(found)
}

/// The users other than account `id`, in order.
pub open spec fn users_without(us: Seq<User>, id: Seq<char>) -> Seq<User>
    decreases us.len(),
{
    if us.len() == 0 {
        Seq::empty()
    } else if us.last().id@ == id {
        users_without(us.drop_last(), id)
    } else {
        users_without(us.drop_last(), id).push(us.last())
    }
}

/// Deletes account `id` with its sessions, entries, tags and categories.
/// The sessions go first; `DatabaseError` where there is no such account,
/// otherwise `Ok(true)`.
pub fn delete_user(store: &mut Store, id: &str) -> (r: Result<bool, APIError>)
    ensures
        final(store).invites == old(store).invites,
        final(store).sessions@ == sessions_kept(old(store).sessions@, id@, true),
        match r {
            Ok(b) => {
                &&& b
                &&& !no_user(old(store).users@, id@, false)
                &&& final(store).users@ == users_without(old(store).users@, id@)
                &&& same_entries(final(store).entries@, entries_not_of(old(store).entries@, id@))
                &&& final(store).tags@ == tags_not_of(old(store).tags@, id@)
                &&& final(store).categories@ == categories_not_of(old(store).categories@, id@)
            },
            Err(e) => {
                &&& e == APIError::DatabaseError && no_user(old(store).users@, id@, false)
                &&& final(store).users == old(store).users
                &&& final(store).entries == old(store).entries
                &&& final(store).tags == old(store).tags
                &&& final(store).categories == old(store).categories
            },
        },
{
    if delete_all_user_sessions(store, id).is_err() {
        return Err(APIError::DatabaseError);
    }
    if delete_all_user_data(store, id).is_err() {
        return Err(APIError::DatabaseError);
    }
    let wanted = id.to_string();
    let mut kept: Vec<User> = Vec::new();
    let mut removed = false;
    let mut i: usize = 0;
    while i < store.users.len()
        invariant
            i <= store.users.len(),
            wanted@ == id@,
            kept@ == users_without(store.users@.subrange(0, i as int), id@),
            removed == exists|m: int| 0 <= m < i && (#[trigger] store.users@[m]).id@ == id@,
        decreases store.users.len() - i,
    {
        let u = &store.users[i];
        assert(store.users@.subrange(0, i + 1).drop_last() =~= store.users@.subrange(0, i as int));
        if u.id == wanted {
            removed = true;
        } else {
            kept.push(u.duplicate());
        }
        i = i + 1;
    }
    assert(store.users@.subrange(0, store.users.len() as int) =~= store.users@);
    store.users = kept;
    Ok(removed)
}

/// The input of an account passes validation.
pub open spec fn account_ok(u: CreateUser) -> bool {
    name_ok(u.name@) && email_ok(u.email@) && password_ok(u.password@)
}

/// Registers an account at time `now`, its password hashed with bcrypt
/// cost `cost`, and gives it the default categories and tags:
/// `BadRequest` for invalid input, `EmailAlreadyInUse` where an account
/// has the e-mail, `InternalServerError` where hashing fails,
/// `DatabaseError` where the defaults cannot be created.
pub fn create_user(store: &mut Store, user: CreateUser, cost: u32, now: i64) -> (r: Result<
    UserDetails,
    APIError,
>)
    ensures
        final(store).sessions == old(store).sessions,
        final(store).invites == old(store).invites,
        final(store).entries == old(store).entries,
        match r {
            Ok(d) => {
                &&& account_ok(user)
                &&& no_user(old(store).users@, user.email@, true)
                &&& d.name == user.name && d.email == user.email && d.invite == user.invite
                &&& d.created_at == now
                &&& exists|h: String|
                    final(store).users@ == old(store).users@.push(
                        User {
                            id: d.id,
                            created_at: now,
                            name: user.name,
                            email: user.email,
                            password: h,
                            invite: user.invite,
                        },
                    )
                &&& defaults_added(
                    old(store).categories@,
                    old(store).tags@,
                    final(store).categories@,
                    final(store).tags@,
                    d.id@,
                    now,
                )
            },
            Err(e) => {
                ||| e == APIError::BadRequest && !account_ok(user) && final(store).users
                    == old(store).users && final(store).categories == old(store).categories
                    && final(store).tags == old(store).tags
                ||| e == APIError::EmailAlreadyInUse && account_ok(user) && !no_user(
                    old(store).users@,
                    user.email@,
                    true,
                ) && final(store).users == old(store).users && final(store).categories == old(store).categories && final(store).tags == old(store).tags
                ||| e == APIError::InternalServerError && account_ok(user) && no_user(
                    old(store).users@,
                    user.email@,
                    true,
                ) && final(store).users == old(store).users && final(store).categories == old(store).categories && final(store).tags == old(store).tags
                ||| e == APIError::DatabaseError && account_ok(user) && no_user(
                    old(store).users@,
                    user.email@,
                    true,
                )
            },
        },
{
    if !user.validate() {
        return Err(APIError::BadRequest);
    }
    if get_user_id(store, user.email.as_str()).is_ok() {
        return Err(APIError::EmailAlreadyInUse);
    }
    let password_hash = match hash_password(user.password.as_str(), cost) {
        Ok(h) => h,
        Err(_) => return Err(APIError::InternalServerError),
    };
    let details = UserDetails {
        id: new_id(),
        created_at: now,
        name: user.name,
        email: user.email,
        invite: user.invite,
    };
    let new_user = User {
        id: details.id.clone(),
        created_at: details.created_at,
        name: details.name.clone(),
        email: details.email.clone(),
        password: password_hash,
        invite: copy_text(&details.invite),
    };
    store.users.push(new_user);
    match create_default_data(store, details.id.clone(), now) {
        Ok(_) => (),
        Err(_) => return Err(APIError::DatabaseError),
    }
    Ok(details)
}

} // verus!
