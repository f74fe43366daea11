//! An in-memory snapshot of the service's tables. The lookups of the other
//! modules read it; whoever fills it decides where the rows come from.
use vstd::prelude::*;

use crate::auth::Session;
use crate::category::Category;
use crate::engine::Entry;
use crate::invite::Invite;
use crate::tag::Tag;
use crate::user::User;

verus! {

/// Relies on uuid's `Uuid::new_v4` and its `Display`: a fresh random id,
/// of which nothing is promised.
#[verifier::external_body]
pub(crate) fn new_id() -> (r: String) {
    uuid::Uuid::new_v4().to_string()
}

/// The rows of each table.
#[derive(Debug)]
pub struct Store {
    pub users: Vec<User>,
    pub sessions: Vec<Session>,
    pub categories: Vec<Category>,
    pub tags: Vec<Tag>,
    pub invites: Vec<Invite>,
    pub entries: Vec<Entry>,
}

} // verus!
