//! Removal of everything a user has written.
use vstd::prelude::*;

use crate::category::{create_category, Category, CreateCategory};
use crate::engine::{same_entries, Entry};
use crate::error::APIError;
use crate::store::Store;
use crate::tag::{create_tag, CreateTag, Tag};
use crate::user::{get_user, no_user};
use crate::validation::name_ok;

verus! {

/// The categories not owned by `user_id`, in order.
pub open spec fn categories_not_of(cs: Seq<Category>, user_id: Seq<char>) -> Seq<Category>
    decreases cs.len(),
{
    if cs.len() == 0 {
        Seq::empty()
    } else if cs.last().user_id@ == user_id {
        categories_not_of(cs.drop_last(), user_id)
    } else {
        categories_not_of(cs.drop_last(), user_id).push(cs.last())
    }
}

/// The tags not owned by `user_id`, in order.
pub open spec fn tags_not_of(ts: Seq<Tag>, user_id: Seq<char>) -> Seq<Tag>
    decreases ts.len(),
{
    if ts.len() == 0 {
        Seq::empty()
    } else if ts.last().user_id@ == user_id {
        tags_not_of(ts.drop_last(), user_id)
    } else {
        tags_not_of(ts.drop_last(), user_id).push(ts.last())
    }
}

/// The entries not written by `user_id`, in order.
pub open spec fn entries_not_of(es: Seq<Entry>, user_id: Seq<char>) -> Seq<Entry>
    decreases es.len(),
{
    if es.len() == 0 {
        Seq::empty()
    } else if es.last().user_id@ == user_id {
        entries_not_of(es.drop_last(), user_id)
    } else {
        entries_not_of(es.drop_last(), user_id).push(es.last())
    }
}

/// Deletes the entries, tags and categories of a user: `UserNotFound`
/// without such a user; otherwise `Ok(true)`.
pub fn delete_all_user_data(store: &mut Store, user_id: &str) -> (r: Result<bool, APIError>)
    ensures
        final(store).users == old(store).users,
        final(store).sessions == old(store).sessions,
        final(store).invites == old(store).invites,
        match r {
            Ok(b) => {
                &&& b
                &&& !no_user(old(store).users@, user_id@, false)
                &&& same_entries(final(store).entries@, entries_not_of(old(store).entries@, user_id@))
                &&& final(store).tags@ == tags_not_of(old(store).tags@, user_id@)
                &&& final(store).categories@ == categories_not_of(old(store).categories@, user_id@)
            },
            Err(e) => {
                &&& e == APIError::UserNotFound && no_user(old(store).users@, user_id@, false)
                &&& final(store).entries == old(store).entries
                &&& final(store).tags == old(store).tags
                &&& final(store).categories == old(store).categories
            },
        },
{
    if get_user(store, user_id).is_err() {
        return Err(APIError::UserNotFound);
    }
    let owner = user_id.to_string();

    let mut entries: Vec<Entry> = Vec::new();
    let mut i: usize = 0;
    while i < store.entries.len()
        invariant
            i <= store.entries.len(),
            owner@ == user_id@,
            same_entries(entries@, entries_not_of(store.entries@.subrange(0, i as int), owner@)),
        decreases store.entries.len() - i,
    {
        let e = &store.entries[i];
        assert(store.entries@.subrange(0, i + 1).drop_last() =~= store.entries@.subrange(
            0,
            i as int,
        ));
        if e.user_id != owner {
            entries.push(e.duplicate());
        }
        i = i + 1;
    }
    assert(store.entries@.subrange(0, store.entries.len() as int) =~= store.entries@);

    let mut tags: Vec<Tag> = Vec::new();
    let mut i: usize = 0;
    while i < store.tags.len()
        invariant
            i <= store.tags.len(),
            owner@ == user_id@,
            tags@ == tags_not_of(store.tags@.subrange(0, i as int), owner@),
        decreases store.tags.len() - i,
    {
        let t = &store.tags[i];
        assert(store.tags@.subrange(0, i + 1).drop_last() =~= store.tags@.subrange(0, i as int));
        if t.user_id != owner {
            tags.push(t.duplicate());
        }
        i = i + 1;
    }
    assert(store.tags@.subrange(0, store.tags.len() as int) =~= store.tags@);

    let mut categories: Vec<Category> = Vec::new();
    let mut i: usize = 0;
    while i < store.categories.len()
        invariant
            i <= store.categories.len(),
            owner@ == user_id@,
            categories@ == categories_not_of(store.categories@.subrange(0, i as int), owner@),
        decreases store.categories.len() - i,
    {
        let c = &store.categories[i];
        assert(store.categories@.subrange(0, i + 1).drop_last() =~= store.categories@.subrange(
            0,
            i as int,
        ));
        if c.user_id != owner {
            categories.push(c.duplicate());
        }
        i = i + 1;
    }
    assert(store.categories@.subrange(0, store.categories.len() as int) =~= store.categories@);

    store.entries = entries;
    store.tags = tags;
    store.categories = categories;
    Ok(true)
}

/// Name of the `k`-th default tag: six activities, then three tags.
pub open spec fn default_tag_name(k: int) -> Seq<char> {
    if k == 0 {
        "Work"@
    } else if k == 1 {
        "Movie"@
    } else if k == 2 {
        "Exercise"@
    } else if k == 3 {
        "Read"@
    } else if k == 4 {
        "Shopping"@
    } else if k == 5 {
        "Gaming"@
    } else if k == 6 {
        "Travel"@
    } else if k == 7 {
        "Important"@
    } else {
        "Sick"@
    }
}

/// Colour of the `k`-th default tag.
pub open spec fn default_tag_color(k: int) -> Seq<char> {
    if k == 7 {
        "blue"@
    } else if k == 8 {
        "red"@
    } else {
        "base"@
    }
}

/// `cs` and `ts` are `old_cs` and `old_ts` followed by the default
/// categories ("Activities", then "Tags") and their nine tags, all owned by
/// `user_id` and created at `now`.
pub open spec fn defaults_added(
    old_cs: Seq<Category>,
    old_ts: Seq<Tag>,
    cs: Seq<Category>,
    ts: Seq<Tag>,
    user_id: Seq<char>,
    now: i64,
) -> bool {
    let n = old_cs.len() as int;
    let m = old_ts.len() as int;
    &&& cs.len() == n + 2
    &&& cs.subrange(0, n) == old_cs
    &&& cs[n].name@ == "Activities"@ && cs[n + 1].name@ == "Tags"@
    &&& cs[n].user_id@ == user_id && cs[n + 1].user_id@ == user_id
    &&& cs[n].created_at == now && cs[n + 1].created_at == now
    &&& ts.len() == m + 9
    &&& ts.subrange(0, m) == old_ts
    &&& forall|k: int|
        0 <= k < 9 ==> {
            &&& (#[trigger] ts[m + k]).name@ == default_tag_name(k)
            &&& ts[m + k].color@ == default_tag_color(k)
            &&& ts[m + k].user_id@ == user_id
            &&& ts[m + k].created_at == now
            &&& ts[m + k].category_id == if k < 6 {
                cs[n].id
            } else {
                cs[n + 1].id
            }
        }
}

/// Adds the default tag `name` to `category`; whether it was stored.
fn add_default_tag(
    store: &mut Store,
    name: &str,
    color: &str,
    category: &Category,
    user_id: &String,
    now: i64,
) -> (r: bool)
    ensures
        final(store).users == old(store).users,
        final(store).sessions == old(store).sessions,
        final(store).categories == old(store).categories,
        final(store).invites == old(store).invites,
        final(store).entries == old(store).entries,
        r ==> exists|t: Tag|
            final(store).tags@ == old(store).tags@.push(t) && t.name@ == name@ && t.color@
                == color@ && t.user_id == *user_id && t.created_at == now && t.category_id
                == category.id,
        !r ==> final(store).tags == old(store).tags,
{
    let request = CreateTag {
        name: name.to_string(),
        color: color.to_string(),
        category_id: category.id.clone(),
        user_id: user_id.clone(),
    };
    create_tag(store, request, now).is_ok()
}

/// Gives a new account its default categories and tags, created at `now`:
/// `DatabaseError` where one of them cannot be created, which is so at
/// the first step for a user id that breaks the length rule or has no
/// account.
pub fn create_default_data(store: &mut Store, user_id: String, now: i64) -> (r: Result<
    bool,
    APIError,
>)
    ensures
        final(store).users == old(store).users,
        final(store).sessions == old(store).sessions,
        final(store).invites == old(store).invites,
        final(store).entries == old(store).entries,
        !name_ok(user_id@) || no_user(old(store).users@, user_id@, false) ==> r == Err::<
            bool,
            APIError,
        >(APIError::DatabaseError) && final(store).categories == old(store).categories && final(store).tags == old(store).tags,
        match r {
            Ok(b) => b && defaults_added(
                old(store).categories@,
                old(store).tags@,
                final(store).categories@,
                final(store).tags@,
                user_id@,
                now,
            ),
            Err(e) => e == APIError::DatabaseError,
        },
{
    let ghost old_cs = store.categories@;
    let ghost old_ts = store.tags@;
    let activities = match create_category(
        store,
        CreateCategory { name: "Activities".to_string(), user_id: user_id.clone() },
        now,
    ) {
        Ok(c) => c,
        Err(_) => return Err(APIError::DatabaseError),
    };
    let ghost t0 = store.tags@;
    if !add_default_tag(store, "Work", "base", &activities, &user_id, now) {
        return Err(APIError::DatabaseError);
    }
    let ghost t1 = store.tags@;
    if !add_default_tag(store, "Movie", "base", &activities, &user_id, now) {
        return Err(APIError::DatabaseError);
    }
    let ghost t2 = store.tags@;
    if !add_default_tag(store, "Exercise", "base", &activities, &user_id, now) {
        return Err(APIError::DatabaseError);
    }
    let ghost t3 = store.tags@;
    if !add_default_tag(store, "Read", "base", &activities, &user_id, now) {
        return Err(APIError::DatabaseError);
    }
    let ghost t4 = store.tags@;
    if !add_default_tag(store, "Shopping", "base", &activities, &user_id, now) {
        return Err(APIError::DatabaseError);
    }
    let ghost t5 = store.tags@;
    if !add_default_tag(store, "Gaming", "base", &activities, &user_id, now) {
        return Err(APIError::DatabaseError);
    }
    let tags_category = match create_category(
        store,
        CreateCategory { name: "Tags".to_string(), user_id: user_id.clone() },
        now,
    ) {
        Ok(c) => c,
        Err(_) => return Err(APIError::DatabaseError),
    };
    let ghost t6 = store.tags@;
    if !add_default_tag(store, "Travel", "base", &tags_category, &user_id, now) {
        return Err(APIError::DatabaseError);
    }
    let ghost t7 = store.tags@;
    if !add_default_tag(store, "Important", "blue", &tags_category, &user_id, now) {
        return Err(APIError::DatabaseError);
    }
    let ghost t8 = store.tags@;
    if !add_default_tag(store, "Sick", "red", &tags_category, &user_id, now) {
        return Err(APIError::DatabaseError);
    }
    proof {
        let ts = store.tags@;
        let m = old_ts.len() as int;
        let n = old_cs.len() as int;
        assert(t0 == old_ts);
        assert(t6 == t5.push(ts[m + 5]));
        assert(ts.subrange(0, m) =~= old_ts);
        assert(store.categories@.subrange(0, n) =~= old_cs);
        assert(store.categories@[n] == activities);
        assert(store.categories@[n + 1] == tags_category);
        assert forall|k: int| 0 <= k < 9 implies {
            &&& (#[trigger] ts[m + k]).name@ == default_tag_name(k)
            &&& ts[m + k].color@ == default_tag_color(k)
            &&& ts[m + k].user_id@ == user_id@
            &&& ts[m + k].created_at == now
            &&& ts[m + k].category_id == if k < 6 {
                store.categories@[n].id
            } else {
                store.categories@[n + 1].id
            }
        } by {
            reveal_strlit("Work");
            reveal_strlit("Movie");
            reveal_strlit("Exercise");
            reveal_strlit("Read");
            reveal_strlit("Shopping");
            reveal_strlit("Gaming");
            reveal_strlit("Travel");
            reveal_strlit("Important");
            reveal_strlit("Sick");
            reveal_strlit("base");
            reveal_strlit("blue");
            reveal_strlit("red");
        }
    }
    Ok(true)
}

} // verus!
