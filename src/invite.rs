//! Invite codes for registration.
use vstd::prelude::*;

use crate::error::APIError;
use crate::store::Store;

verus! {

#[derive(Debug)]
pub struct Invite {
    pub id: String,
    pub created_at: i64,
    pub code: String,
    pub used: bool,
}

impl Invite {
    pub fn duplicate(&self) -> (r: Invite)
        ensures
            r == *self,
    {
        Invite {
            id: self.id.clone(),
            created_at: self.created_at,
            code: self.code.clone(),
            used: self.used,
        }
    }
}

/// The invite with the code `code`: `InviteNotFound` where there is none.
pub fn get_invite(store: &Store, code: &str) -> (r: Result<Invite, APIError>)
    ensures
        match r {
            Ok(v) => exists|i: int|
                0 <= i < store.invites.len() && v == #[trigger] store.invites@[i] && v.code@
                    == code@ && forall|j: int|
                    0 <= j < i ==> (#[trigger] store.invites@[j]).code@ != code@,
            Err(e) => e == APIError::InviteNotFound && forall|j: int|
                0 <= j < store.invites.len() ==> (#[trigger] store.invites@[j]).code@ != code@,
        },
{
    let wanted = code.to_string();
    let mut i: usize = 0;
    while i < store.invites.len()
        invariant
            i <= store.invites.len(),
            wanted@ == code@,
            forall|j: int| 0 <= j < i ==> (#[trigger] store.invites@[j]).code@ != wanted@,
        decreases store.invites.len() - i,
    {
        let v = &store.invites[i];
        if v.code == wanted {
            return Ok(v.duplicate());
        }
        i = i + 1;
    }
    Err(APIError::InviteNotFound)
}

/// The invites after marking those with code `code` as used.
pub open spec fn mark_used(vs: Seq<Invite>, code: Seq<char>) -> Seq<Invite> {
    Seq::new(
        vs.len(),
        |i: int|
            if vs[i].code@ == code {
                Invite { used: true, ..vs[i] }
            } else {
                vs[i]
            },
    )
}

/// Redeems an invite: `InviteNotFound` where no invite has the code,
/// `InviteUsed` where the first one with it is used already; otherwise
/// every invite with the code is marked used and the first is returned.
pub fn use_invite(store: &mut Store, code: &str) -> (r: Result<Invite, APIError>)
    ensures
        final(store).users == old(store).users,
        final(store).sessions == old(store).sessions,
        final(store).categories == old(store).categories,
        final(store).tags == old(store).tags,
        final(store).entries == old(store).entries,
        match r {
            Ok(v) => exists|i: int|
                0 <= i < old(store).invites.len() && (#[trigger] old(store).invites@[i]).code@
                    == code@ && !old(store).invites@[i].used && (forall|j: int|
                    0 <= j < i ==> (#[trigger] old(store).invites@[j]).code@ != code@) && v == (
                Invite { used: true, ..old(store).invites@[i] }) && final(store).invites@
                    == mark_used(old(store).invites@, code@),
            Err(e) => final(store).invites == old(store).invites && {
                ||| e == APIError::InviteNotFound && forall|j: int|
                    0 <= j < old(store).invites.len() ==> (
                    #[trigger] old(store).invites@[j]).code@ != code@
                ||| e == APIError::InviteUsed && exists|i: int|
                    0 <= i < old(store).invites.len() && (
                    #[trigger] old(store).invites@[i]).code@ == code@
                        && old(store).invites@[i].used && forall|j: int|
                        0 <= j < i ==> (#[trigger] old(store).invites@[j]).code@ != code@
            },
        },
{
    let invite = get_invite(store, code)?;
    if invite.used {
        return Err(APIError::InviteUsed);
    }
    let wanted = code.to_string();
    let mut marked: Vec<Invite> = Vec::new();
    let mut i: usize = 0;
    while i < store.invites.len()
        invariant
            i <= store.invites.len(),
            wanted@ == code@,
            marked.len() == i,
            forall|m: int|
                0 <= m < i ==> #[trigger] marked@[m] == mark_used(store.invites@, code@)[m],
        decreases store.invites.len() - i,
    {
        let v = &store.invites[i];
        let mut c = v.duplicate();
        if v.code == wanted {
            c.used = true;
        }
        marked.push(c);
        i = i + 1;
    }
    assert(marked@ =~= mark_used(store.invites@, code@));
    store.invites = marked;
    Ok(Invite { used: true, ..invite })
}

} // verus!
