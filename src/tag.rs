//! Tags that a user attaches to entries.
use vstd::prelude::*;

use crate::category::{get_category, no_category};
use crate::error::APIError;
use crate::store::{new_id, Store};
use crate::validation::{color_ok, name_ok};
use crate::user::{get_user, no_user};

verus! {

#[derive(Debug)]
pub struct Tag {
    pub id: String,
    pub user_id: String,
    pub created_at: i64,
    pub name: String,
    pub color: String,
    pub category_id: String,
}

/// Input for creating a tag.
#[derive(Debug)]
pub struct CreateTag {
    pub name: String,
    pub color: String,
    pub category_id: String,
    pub user_id: String,
}

/// Input for changing a tag; a category of `None` keeps the tag's category.
#[derive(Debug)]
pub struct EditTag {
    pub id: String,
    pub name: String,
    pub color: String,
    pub category_id: Option<String>,
    pub user_id: String,
}

impl Tag {
    pub fn duplicate(&self) -> (r: Tag)
        ensures
            r == *self,
    {
        Tag {
            id: self.id.clone(),
            user_id: self.user_id.clone(),
            created_at: self.created_at,
            name: self.name.clone(),
            color: self.color.clone(),
            category_id: self.category_id.clone(),
        }
    }
}

/// The tags of category `category_id` owned by `user_id`, in the order of
/// the snapshot.
pub open spec fn tags_of_category(ts: Seq<Tag>, category_id: Seq<char>, user_id: Seq<char>) -> Seq<
    Tag,
>
    decreases ts.len(),
{
    if ts.len() == 0 {
        Seq::empty()
    } else if ts.last().category_id@ == category_id && ts.last().user_id@ == user_id {
        tags_of_category(ts.drop_last(), category_id, user_id).push(ts.last())
    } else {
        tags_of_category(ts.drop_last(), category_id, user_id)
    }
}

/// The tags of a category: `UserNotFound` without such a user,
/// `CategoryNotFound` where the user has no such category.
pub fn get_category_tags(store: &Store, category_id: &str, user_id: &str) -> (r: Result<
    Vec<Tag>,
    APIError,
>)
    ensures
        match r {
            Ok(ts) => {
                &&& !no_user(store.users@, user_id@, false)
                &&& !no_category(store.categories@, category_id@, user_id@)
                &&& ts@ == tags_of_category(store.tags@, category_id@, user_id@)
            },
            Err(e) => {
                ||| e == APIError::UserNotFound && no_user(store.users@, user_id@, false)
                ||| e == APIError::CategoryNotFound && !no_user(store.users@, user_id@, false)
                    && no_category(store.categories@, category_id@, user_id@)
            },
        },
{
    if get_user(store, user_id).is_err() {
        return Err(APIError::UserNotFound);
    }
    if get_category(store, category_id, user_id).is_err() {
        return Err(APIError::CategoryNotFound);
    }
    let cid = category_id.to_string();
    let owner = user_id.to_string();
    let mut r: Vec<Tag> = Vec::new();
    let mut i: usize = 0;
    while i < store.tags.len()
        invariant
            i <= store.tags.len(),
            cid@ == category_id@,
            owner@ == user_id@,
            r@ == tags_of_category(store.tags@.subrange(0, i as int), cid@, owner@),
        decreases store.tags.len() - i,
    {
        let t = &store.tags[i];
        assert(store.tags@.subrange(0, i + 1).drop_last() =~= store.tags@.subrange(0, i as int));
        if t.category_id == cid && t.user_id == owner {
            r.push(t.duplicate());
        }
        i = i + 1;
    }
    assert(store.tags@.subrange(0, store.tags.len() as int) =~= store.tags@);
    Ok(r)
}

/// The tag `t` is `id` and belongs to `user_id`.
pub open spec fn tag_key(t: Tag, id: Seq<char>, user_id: Seq<char>) -> bool {
    t.id@ == id && t.user_id@ == user_id
}

/// `i` is the first row of `ts` that is tag `id` of `user_id`.
pub open spec fn first_tag(ts: Seq<Tag>, id: Seq<char>, user_id: Seq<char>, i: int) -> bool {
    &&& 0 <= i < ts.len()
    &&& tag_key(ts[i], id, user_id)
    &&& forall|j: int| 0 <= j < i ==> !tag_key(#[trigger] ts[j], id, user_id)
}

/// No row of `ts` is tag `id` of `user_id`.
pub open spec fn no_tag(ts: Seq<Tag>, id: Seq<char>, user_id: Seq<char>) -> bool {
    forall|j: int| 0 <= j < ts.len() ==> !tag_key(#[trigger] ts[j], id, user_id)
}

/// The tag `tag_id` of the user: `UserNotFound` without such a user,
/// `TagNotFound` where the user has no such tag.
pub fn get_tag(store: &Store, tag_id: &str, user_id: &str) -> (r: Result<Tag, APIError>)
    ensures
        match r {
            Ok(t) => !no_user(store.users@, user_id@, false) && exists|i: int|
                first_tag(store.tags@, tag_id@, user_id@, i) && t == #[trigger] store.tags@[i],
            Err(e) => {
                ||| e == APIError::UserNotFound && no_user(store.users@, user_id@, false)
                ||| e == APIError::TagNotFound && !no_user(store.users@, user_id@, false)
                    && no_tag(store.tags@, tag_id@, user_id@)
            },
        },
{
    if get_user(store, user_id).is_err() {
        return Err(APIError::UserNotFound);
    }
    let id = tag_id.to_string();
    let owner = user_id.to_string();
    let mut i: usize = 0;
    while i < store.tags.len()
        invariant
            i <= store.tags.len(),
            id@ == tag_id@,
            owner@ == user_id@,
            !no_user(store.users@, user_id@, false),
            forall|j: int| 0 <= j < i ==> !tag_key(#[trigger] store.tags@[j], id@, owner@),
        decreases store.tags.len() - i,
    {
        let t = &store.tags[i];
        if t.id == id && t.user_id == owner {
            return Ok(t.duplicate());
        }
        i = i + 1;
    }
    Err(APIError::TagNotFound)
}

/// `id` is one of `ids`.
pub open spec fn id_listed(ids: Seq<String>, id: Seq<char>) -> bool {
    exists|k: int| 0 <= k < ids.len() && (#[trigger] ids[k])@ == id
}

/// The tags of `user_id` whose id is one of `ids`, in the order of the
/// snapshot.
pub open spec fn tags_among(ts: Seq<Tag>, ids: Seq<String>, user_id: Seq<char>) -> Seq<Tag>
    decreases ts.len(),
{
    if ts.len() == 0 {
        Seq::empty()
    } else if id_listed(ids, ts.last().id@) && ts.last().user_id@ == user_id {
        tags_among(ts.drop_last(), ids, user_id).push(ts.last())
    } else {
        tags_among(ts.drop_last(), ids, user_id)
    }
}

fn is_listed(ids: &Vec<String>, id: &String) -> (r: bool)
    ensures
        r == id_listed(ids@, id@),
{
    let mut k: usize = 0;
    while k < ids.len()
        invariant
            k <= ids.len(),
            forall|m: int| 0 <= m < k ==> (#[trigger] ids@[m])@ != id@,
        decreases ids.len() - k,
    {
        if ids[k] == *id {
            return true;
        }
        k = k + 1;
    }
    false
}

/// The user's tags among `tag_ids`: `UserNotFound` without such a user.
pub fn get_tags(store: &Store, tag_ids: &Vec<String>, user_id: &str) -> (r: Result<
    Vec<Tag>,
    APIError,
>)
    ensures
        match r {
            Ok(ts) => !no_user(store.users@, user_id@, false) && ts@ == tags_among(
                store.tags@,
                tag_ids@,
                user_id@,
            ),
            Err(e) => e == APIError::UserNotFound && no_user(store.users@, user_id@, false),
        },
{
    if get_user(store, user_id).is_err() {
        return Err(APIError::UserNotFound);
    }
    let owner = user_id.to_string();
    let mut r: Vec<Tag> = Vec::new();
    let mut i: usize = 0;
    while i < store.tags.len()
        invariant
            i <= store.tags.len(),
            owner@ == user_id@,
            r@ == tags_among(store.tags@.subrange(0, i as int), tag_ids@, owner@),
        decreases store.tags.len() - i,
    {
        let t = &store.tags[i];
        assert(store.tags@.subrange(0, i + 1).drop_last() =~= store.tags@.subrange(0, i as int));
        if is_listed(tag_ids, &t.id) && t.user_id == owner {
            r.push(t.duplicate());
        }
        i = i + 1;
    }
    assert(store.tags@.subrange(0, store.tags.len() as int) =~= store.tags@);
    Ok(r)
}

/// The tags that remain once those of category `category_id` owned by
/// `user_id` are removed, in the order of the snapshot.
pub open spec fn tags_outside_category(
    ts: Seq<Tag>,
    category_id: Seq<char>,
    user_id: Seq<char>,
) -> Seq<Tag>
    decreases ts.len(),
{
    if ts.len() == 0 {
        Seq::empty()
    } else if ts.last().category_id@ == category_id && ts.last().user_id@ == user_id {
        tags_outside_category(ts.drop_last(), category_id, user_id)
    } else {
        tags_outside_category(ts.drop_last(), category_id, user_id).push(ts.last())
    }
}

/// Removes every tag of a category: `UserNotFound` without such a user,
/// `CategoryNotFound` where the user has no such category; otherwise
/// `Ok(true)`. Only the tag table changes, and only on success.
pub fn delete_all_category_tags(store: &mut Store, category_id: &str, user_id: &str) -> (r: Result<
    bool,
    APIError,
>)
    ensures
        final(store).users == old(store).users,
        final(store).sessions == old(store).sessions,
        final(store).categories == old(store).categories,
        final(store).invites == old(store).invites,
        final(store).entries == old(store).entries,
        match r {
            Ok(b) => {
                &&& b
                &&& !no_user(old(store).users@, user_id@, false)
                &&& !no_category(old(store).categories@, category_id@, user_id@)
                &&& final(store).tags@ == tags_outside_category(
                    old(store).tags@,
                    category_id@,
                    user_id@,
                )
            },
            Err(e) => {
                &&& final(store).tags == old(store).tags
                &&& {
                    ||| e == APIError::UserNotFound && no_user(old(store).users@, user_id@, false)
                    ||| e == APIError::CategoryNotFound && !no_user(
                        old(store).users@,
                        user_id@,
                        false,
                    ) && no_category(old(store).categories@, category_id@, user_id@)
                }
            },
        },
{
    if get_user(store, user_id).is_err() {
        return Err(APIError::UserNotFound);
    }
    if get_category(store, category_id, user_id).is_err() {
        return Err(APIError::CategoryNotFound);
    }
    let cid = category_id.to_string();
    let owner = user_id.to_string();
    let mut kept: Vec<Tag> = Vec::new();
    let mut i: usize = 0;
    while i < store.tags.len()
        invariant
            i <= store.tags.len(),
            cid@ == category_id@,
            owner@ == user_id@,
            kept@ == tags_outside_category(store.tags@.subrange(0, i as int), cid@, owner@),
        decreases store.tags.len() - i,
    {
        let t = &store.tags[i];
        assert(store.tags@.subrange(0, i + 1).drop_last() =~= store.tags@.subrange(0, i as int));
        if !(t.category_id == cid && t.user_id == owner) {
            kept.push(t.duplicate());
        }
        i = i + 1;
    }
    assert(store.tags@.subrange(0, store.tags.len() as int) =~= store.tags@);
    store.tags = kept;
    Ok(true)
}

/// The tags that remain once tag `id` of `user_id` is removed.
pub open spec fn tags_without(ts: Seq<Tag>, id: Seq<char>, user_id: Seq<char>) -> Seq<Tag>
    decreases ts.len(),
{
    if ts.len() == 0 {
        Seq::empty()
    } else if tag_key(ts.last(), id, user_id) {
        tags_without(ts.drop_last(), id, user_id)
    } else {
        tags_without(ts.drop_last(), id, user_id).push(ts.last())
    }
}

/// Deletes a tag: `UserNotFound` without such a user; otherwise whether
/// the user had such a tag.
pub fn delete_tag(store: &mut Store, tag_id: &str, user_id: &str) -> (r: Result<bool, APIError>)
    ensures
        final(store).users == old(store).users,
        final(store).sessions == old(store).sessions,
        final(store).categories == old(store).categories,
        final(store).invites == old(store).invites,
        final(store).entries == old(store).entries,
        match r {
            Ok(b) => {
                &&& !no_user(old(store).users@, user_id@, false)
                &&& b == !no_tag(old(store).tags@, tag_id@, user_id@)
                &&& final(store).tags@ == tags_without(old(store).tags@, tag_id@, user_id@)
            },
            Err(e) => e == APIError::UserNotFound && no_user(old(store).users@, user_id@, false)
                && final(store).tags == old(store).tags,
        },
{
    if get_user(store, user_id).is_err() {
        return Err(APIError::UserNotFound);
    }
    let id = tag_id.to_string();
    let owner = user_id.to_string();
    let mut kept: Vec<Tag> = Vec::new();
    let mut removed = false;
    let mut i: usize = 0;
    while i < store.tags.len()
        invariant
            i <= store.tags.len(),
            id@ == tag_id@,
            owner@ == user_id@,
            kept@ == tags_without(store.tags@.subrange(0, i as int), id@, owner@),
            removed == !no_tag(store.tags@.subrange(0, i as int), id@, owner@),
        decreases store.tags.len() - i,
    {
        let t = &store.tags[i];
        let ghost prefix = store.tags@.subrange(0, i as int);
        let ghost next = store.tags@.subrange(0, i + 1);
        assert(next.drop_last() =~= prefix);
        assert forall|j: int| 0 <= j < i implies #[trigger] next[j] == prefix[j] by {}
        assert(next[i as int] == store.tags@[i as int]);
        if t.id == id && t.user_id == owner {
            removed = true;
        } else {
            kept.push(t.duplicate());
        }
        i = i + 1;
    }
    assert(store.tags@.subrange(0, store.tags.len() as int) =~= store.tags@);
    store.tags = kept;
    Ok(removed)
}

/// The input of a tag passes the length rules.
pub open spec fn create_ok(t: CreateTag) -> bool {
    name_ok(t.name@) && color_ok(t.color@) && name_ok(t.category_id@) && name_ok(t.user_id@)
}

/// Creates a tag at time `now` with a fresh random id: `BadRequest` where
/// a field breaks its length rule, `UserNotFound` without such a user,
/// `CategoryNotFound` where the user has no such category.
pub fn create_tag(store: &mut Store, tag: CreateTag, now: i64) -> (r: Result<Tag, APIError>)
    ensures
        final(store).users == old(store).users,
        final(store).sessions == old(store).sessions,
        final(store).categories == old(store).categories,
        final(store).invites == old(store).invites,
        final(store).entries == old(store).entries,
        match r {
            Ok(t) => {
                &&& create_ok(tag)
                &&& !no_user(old(store).users@, tag.user_id@, false)
                &&& !no_category(old(store).categories@, tag.category_id@, tag.user_id@)
                &&& t.name == tag.name && t.color == tag.color && t.user_id == tag.user_id
                &&& t.category_id == tag.category_id && t.created_at == now
                &&& final(store).tags@ == old(store).tags@.push(t)
            },
            Err(e) => {
                &&& final(store).tags == old(store).tags
                &&& {
                    ||| e == APIError::BadRequest && !create_ok(tag)
                    ||| e == APIError::UserNotFound && create_ok(tag) && no_user(
                        old(store).users@,
                        tag.user_id@,
                        false,
                    )
                    ||| e == APIError::CategoryNotFound && create_ok(tag) && !no_user(
                        old(store).users@,
                        tag.user_id@,
                        false,
                    ) && no_category(old(store).categories@, tag.category_id@, tag.user_id@)
                }
            },
        },
{
    if !tag.validate() {
        return Err(APIError::BadRequest);
    }
    if get_user(store, tag.user_id.as_str()).is_err() {
        return Err(APIError::UserNotFound);
    }
    if get_category(store, tag.category_id.as_str(), tag.user_id.as_str()).is_err() {
        return Err(APIError::CategoryNotFound);
    }
    let new_tag = Tag {
        id: new_id(),
        user_id: tag.user_id,
        created_at: now,
        name: tag.name,
        color: tag.color,
        category_id: tag.category_id,
    };
    store.tags.push(new_tag.duplicate());
    Ok(new_tag)
}

/// The input of a tag change passes the length rules.
pub open spec fn edit_ok(t: EditTag) -> bool {
    &&& name_ok(t.id@) && name_ok(t.name@) && color_ok(t.color@) && name_ok(t.user_id@)
    &&& t.category_id matches Some(c) ==> name_ok(c@)
}

/// The tags after tag `id` of `user_id` takes the name, colour and
/// category given.
pub open spec fn retagged(
    ts: Seq<Tag>,
    id: Seq<char>,
    user_id: Seq<char>,
    name: String,
    color: String,
    category_id: String,
) -> Seq<Tag> {
    Seq::new(
        ts.len(),
        |i: int|
            if tag_key(ts[i], id, user_id) {
                Tag { name: name, color: color, category_id: category_id, ..ts[i] }
            } else {
                ts[i]
            },
    )
}

/// Changes a tag: `BadRequest` where a field breaks its length rule,
/// `UserNotFound` without such a user, `TagNotFound` where the user has no
/// such tag, `CategoryNotFound` where a new category is given that the
/// user does not have. Without a new category the tag keeps its own.
pub fn edit_tag(store: &mut Store, tag: EditTag) -> (r: Result<Tag, APIError>)
    ensures
        final(store).users == old(store).users,
        final(store).sessions == old(store).sessions,
        final(store).categories == old(store).categories,
        final(store).invites == old(store).invites,
        final(store).entries == old(store).entries,
        match r {
            Ok(t) => {
                &&& edit_ok(tag)
                &&& !no_user(old(store).users@, tag.user_id@, false)
                &&& exists|i: int|
                    first_tag(old(store).tags@, tag.id@, tag.user_id@, i) && {
                        let category = match tag.category_id {
                            Some(c) => c,
                            None => old(store).tags@[i].category_id,
                        };
                        &&& tag.category_id matches Some(c) ==> !no_category(
                            old(store).categories@,
                            c@,
                            tag.user_id@,
                        )
                        &&& t == (Tag {
                            name: tag.name,
                            color: tag.color,
                            category_id: category,
                            ..old(store).tags@[i]
                        })
                        &&& final(store).tags@ == retagged(
                            old(store).tags@,
                            tag.id@,
                            tag.user_id@,
                            tag.name,
                            tag.color,
                            category,
                        )
                    }
            },
            Err(e) => {
                &&& final(store).tags == old(store).tags
                &&& {
                    ||| e == APIError::BadRequest && !edit_ok(tag)
                    ||| e == APIError::UserNotFound && edit_ok(tag) && no_user(
                        old(store).users@,
                        tag.user_id@,
                        false,
                    )
                    ||| e == APIError::TagNotFound && edit_ok(tag) && !no_user(
                        old(store).users@,
                        tag.user_id@,
                        false,
                    ) && no_tag(old(store).tags@, tag.id@, tag.user_id@)
                    ||| e == APIError::CategoryNotFound && edit_ok(tag) && !no_user(
                        old(store).users@,
                        tag.user_id@,
                        false,
                    ) && !no_tag(old(store).tags@, tag.id@, tag.user_id@) && (
                    tag.category_id matches Some(c) && no_category(
                        old(store).categories@,
                        c@,
                        tag.user_id@,
                    ))
                }
            },
        },
{
    if !tag.validate() {
        return Err(APIError::BadRequest);
    }
    if get_user(store, tag.user_id.as_str()).is_err() {
        return Err(APIError::UserNotFound);
    }
    let existing = match get_tag(store, tag.id.as_str(), tag.user_id.as_str()) {
        Ok(t) => t,
        Err(_) => return Err(APIError::TagNotFound),
    };
    let category_id = match &tag.category_id {
        Some(c) => {
            if get_category(store, c.as_str(), tag.user_id.as_str()).is_err() {
                return Err(APIError::CategoryNotFound);
            }
            c.clone()
        },
        None => existing.category_id.clone(),
    };
    let ghost before = store.tags@;
    let mut updated: Vec<Tag> = Vec::new();
    let mut i: usize = 0;
    while i < store.tags.len()
        invariant
            i <= store.tags.len(),
            store.tags@ == before,
            updated.len() == i,
            forall|m: int|
                0 <= m < i ==> #[trigger] updated@[m] == retagged(
                    before,
                    tag.id@,
                    tag.user_id@,
                    tag.name,
                    tag.color,
                    category_id,
                )[m],
        decreases store.tags.len() - i,
    {
        let t = &store.tags[i];
        let mut u = t.duplicate();
        if t.id == tag.id && t.user_id == tag.user_id {
            u.name = tag.name.clone();
            u.color = tag.color.clone();
            u.category_id = category_id.clone();
        }
        updated.push(u);
        i = i + 1;
    }
    assert(updated@ =~= retagged(before, tag.id@, tag.user_id@, tag.name, tag.color, category_id));
    store.tags = updated;
    Ok(Tag { name: tag.name, color: tag.color, category_id, ..existing })
}

} // verus!
