//! Validation of client input: length limits and e-mail syntax.
use vstd::prelude::*;

use crate::category::{CreateCategory, EditCategory};
use crate::tag::{CreateTag, EditTag};
use crate::user::{AuthUser, CreateUser, UpdatePassword, UpdateUser};

verus! {

/// Whether a text is an e-mail address, as the `validator` crate decides.
pub uninterp spec fn email_ok(s: Seq<char>) -> bool;

/// Relies on validator's `ValidateEmail::validate_email` for `String`: its
/// verdict depends on the text alone, and an empty text is refused.
#[verifier::external_body]
fn is_email(s: &String) -> (r: bool)
    ensures
        r == email_ok(s@),
        s@.len() == 0 ==> !r,
{
    validator::ValidateEmail::validate_email(s)
}

/// Length in characters within `min..=max`.
pub open spec fn length_in(s: Seq<char>, min: int, max: int) -> bool {
    min <= s.len() <= max
}

/// Whether `s` has between `min` and `max` characters.
pub fn length_within(s: &String, min: usize, max: usize) -> (r: bool)
    ensures
        r == length_in(s@, min as int, max as int),
{
    let n = s.as_str().unicode_len();
    min <= n && n <= max
}

/// Length rule of names and ids.
pub open spec fn name_ok(s: Seq<char>) -> bool {
    length_in(s, 1, 255)
}

/// Length rule of passwords.
pub open spec fn password_ok(s: Seq<char>) -> bool {
    length_in(s, 7, 72)
}

/// Length rule of tag colours.
pub open spec fn color_ok(s: Seq<char>) -> bool {
    length_in(s, 1, 16)
}

impl CreateUser {
    pub fn validate(&self) -> (r: bool)
        ensures
            r == (name_ok(self.name@) && email_ok(self.email@) && password_ok(self.password@)),
    {
        length_within(&self.name, 1, 255) && is_email(&self.email) && length_within(
            &self.password,
            7,
            72,
        )
    }
}

impl AuthUser {
    pub fn validate(&self) -> (r: bool)
        ensures
            r == (email_ok(self.email@) && password_ok(self.password@)),
    {
        is_email(&self.email) && length_within(&self.password, 7, 72)
    }
}

impl UpdateUser {
    pub fn validate(&self) -> (r: bool)
        ensures
            r == (name_ok(self.name@) && email_ok(self.email@)),
    {
        length_within(&self.name, 1, 255) && is_email(&self.email)
    }
}

impl UpdatePassword {
    pub fn validate(&self) -> (r: bool)
        ensures
            r == password_ok(self.password@),
    {
        length_within(&self.password, 7, 72)
    }
}

impl CreateCategory {
    pub fn validate(&self) -> (r: bool)
        ensures
            r == (name_ok(self.name@) && name_ok(self.user_id@)),
    {
        length_within(&self.name, 1, 255) && length_within(&self.user_id, 1, 255)
    }
}

impl EditCategory {
    pub fn validate(&self) -> (r: bool)
        ensures
            r == (name_ok(self.id@) && name_ok(self.name@) && name_ok(self.user_id@)),
    {
        length_within(&self.id, 1, 255) && length_within(&self.name, 1, 255) && length_within(
            &self.user_id,
            1,
            255,
        )
    }
}

impl CreateTag {
    pub fn validate(&self) -> (r: bool)
        ensures
            r == (name_ok(self.name@) && color_ok(self.color@) && name_ok(self.category_id@)
                && name_ok(self.user_id@)),
    {
        length_within(&self.name, 1, 255) && length_within(&self.color, 1, 16) && length_within(
            &self.category_id,
            1,
            255,
        ) && length_within(&self.user_id, 1, 255)
    }
}

impl EditTag {
    /// A category of `None` is not checked.
    pub fn validate(&self) -> (r: bool)
        ensures
            r == (name_ok(self.id@) && name_ok(self.name@) && color_ok(self.color@) && (
            self.category_id matches Some(c) ==> name_ok(c@)) && name_ok(self.user_id@)),
    {
        let category_ok = match &self.category_id {
            Some(c) => length_within(c, 1, 255),
            None => true,
        };
        length_within(&self.id, 1, 255) && length_within(&self.name, 1, 255) && length_within(
            &self.color,
            1,
            16,
        ) && category_ok && length_within(&self.user_id, 1, 255)
    }
}

} // verus!
