//! Categories, which group a user's tags.
use vstd::prelude::*;

use crate::error::APIError;
use crate::store::{new_id, Store};
use crate::tag::{delete_all_category_tags, get_category_tags, tags_of_category, tags_outside_category, Tag};
use crate::user::{get_user, no_user};
use crate::validation::name_ok;

verus! {

#[derive(Debug)]
pub struct Category {
    pub id: String,
    pub name: String,
    pub user_id: String,
    pub created_at: i64,
}

/// Input for creating a category.
#[derive(Debug)]
pub struct CreateCategory {
    pub name: String,
    pub user_id: String,
}

/// Input for renaming a category.
#[derive(Debug)]
pub struct EditCategory {
    pub id: String,
    pub name: String,
    pub user_id: String,
}

/// A category together with its tags.
#[derive(Debug)]
pub struct CategoryWithTags {
    pub id: String,
    pub name: String,
    pub user_id: String,
    pub created_at: i64,
    pub tags: Vec<Tag>,
}

impl Category {
    pub fn duplicate(&self) -> (r: Category)
        ensures
            r == *self,
    {
        Category {
            id: self.id.clone(),
            name: self.name.clone(),
            user_id: self.user_id.clone(),
            created_at: self.created_at,
        }
    }
}

/// The category `c` is `id` and belongs to `user_id`.
pub open spec fn category_key(c: Category, id: Seq<char>, user_id: Seq<char>) -> bool {
    c.id@ == id && c.user_id@ == user_id
}

/// `i` is the first row of `cs` that is category `id` of `user_id`.
pub open spec fn first_category(cs: Seq<Category>, id: Seq<char>, user_id: Seq<char>, i: int) -> bool {
    &&& 0 <= i < cs.len()
    &&& category_key(cs[i], id, user_id)
    &&& forall|j: int| 0 <= j < i ==> !category_key(#[trigger] cs[j], id, user_id)
}

/// No row of `cs` is category `id` of `user_id`.
pub open spec fn no_category(cs: Seq<Category>, id: Seq<char>, user_id: Seq<char>) -> bool {
    forall|j: int| 0 <= j < cs.len() ==> !category_key(#[trigger] cs[j], id, user_id)
}

/// The categories of `user_id`, in the order of the snapshot.
pub open spec fn categories_of(cs: Seq<Category>, user_id: Seq<char>) -> Seq<Category>
    decreases cs.len(),
{
    if cs.len() == 0 {
        Seq::empty()
    } else if cs.last().user_id@ == user_id {
        categories_of(cs.drop_last(), user_id).push(cs.last())
    } else {
        categories_of(cs.drop_last(), user_id)
    }
}

/// The category `category_id` of the user `user_id`.
pub fn get_category(store: &Store, category_id: &str, user_id: &str) -> (r: Result<
    Category,
    APIError,
>)
    ensures
        match r {
            Ok(c) => exists|i: int|
                first_category(store.categories@, category_id@, user_id@, i) && c
                    == #[trigger] store.categories@[i],
            Err(e) => e == APIError::CategoryNotFound && no_category(
                store.categories@,
                category_id@,
                user_id@,
            ),
        },
{
    let id = category_id.to_string();
    let owner = user_id.to_string();
    let mut i: usize = 0;
    while i < store.categories.len()
        invariant
            i <= store.categories.len(),
            id@ == category_id@,
            owner@ == user_id@,
            forall|j: int|
                0 <= j < i ==> !category_key(#[trigger] store.categories@[j], id@, owner@),
        decreases store.categories.len() - i,
    {
        let c = &store.categories[i];
        if c.id == id && c.user_id == owner {
            return Ok(c.duplicate());
        }
        i = i + 1;
    }
    Err(APIError::CategoryNotFound)
}

/// `c` is one of the rows of `cs`.
pub open spec fn is_row(cs: Seq<Category>, c: Category) -> bool {
    exists|j: int| 0 <= j < cs.len() && #[trigger] cs[j] == c
}

/// Rows of `categories_of(cs, user_id)` are rows of `cs` owned by the user.
proof fn lemma_categories_of_rows(cs: Seq<Category>, user_id: Seq<char>)
    ensures
        forall|k: int|
            0 <= k < categories_of(cs, user_id).len() ==> {
                &&& (#[trigger] categories_of(cs, user_id)[k]).user_id@ == user_id
                &&& is_row(cs, categories_of(cs, user_id)[k])
            },
    decreases cs.len(),
{
    if cs.len() > 0 {
        lemma_categories_of_rows(cs.drop_last(), user_id);
        let prev = categories_of(cs.drop_last(), user_id);
        assert forall|k: int| 0 <= k < prev.len() implies is_row(cs, #[trigger] prev[k]) by {
            assert(is_row(cs.drop_last(), prev[k]));
            let j = choose|j: int|
                0 <= j < cs.drop_last().len() && #[trigger] cs.drop_last()[j] == prev[k];
            assert(cs[j] == cs.drop_last()[j]);
        }
        assert(cs[cs.len() - 1] == cs.last());
    }
}

/// The categories of a user: `UserNotFound` without such a user.
pub fn get_all_categories(store: &Store, user_id: &str) -> (r: Result<Vec<Category>, APIError>)
    ensures
        match r {
            Ok(cs) => !no_user(store.users@, user_id@, false) && cs@ == categories_of(
                store.categories@,
                user_id@,
            ),
            Err(e) => e == APIError::UserNotFound && no_user(store.users@, user_id@, false),
        },
{
    if get_user(store, user_id).is_err() {
        return Err(APIError::UserNotFound);
    }
    let owner = user_id.to_string();
    let mut r: Vec<Category> = Vec::new();
    let mut i: usize = 0;
    while i < store.categories.len()
        invariant
            i <= store.categories.len(),
            owner@ == user_id@,
            r@ == categories_of(store.categories@.subrange(0, i as int), owner@),
        decreases store.categories.len() - i,
    {
        let c = &store.categories[i];
        assert(store.categories@.subrange(0, i + 1).drop_last() =~= store.categories@.subrange(
            0,
            i as int,
        ));
        if c.user_id == owner {
            r.push(c.duplicate());
        }
        i = i + 1;
    }
    assert(store.categories@.subrange(0, store.categories.len() as int) =~= store.categories@);
    Ok(r)
}

/// `w` is the category `c` with the tags `tags`.
pub open spec fn joined(w: CategoryWithTags, c: Category, tags: Seq<Tag>) -> bool {
    &&& w.id == c.id
    &&& w.name == c.name
    &&& w.user_id == c.user_id
    &&& w.created_at == c.created_at
    &&& w.tags@ == tags
}

/// A category with its tags: `CategoryNotFound` where the user has no such
/// category, `DatabaseError` where its tags cannot be read because the user
/// does not exist.
pub fn get_category_with_tags(store: &Store, category_id: &str, user_id: &str) -> (r: Result<
    CategoryWithTags,
    APIError,
>)
    ensures
        match r {
            Ok(w) => {
                &&& !no_user(store.users@, user_id@, false)
                &&& exists|i: int|
                    first_category(store.categories@, category_id@, user_id@, i) && joined(
                        w,
                        #[trigger] store.categories@[i],
                        tags_of_category(store.tags@, category_id@, user_id@),
                    )
            },
            Err(e) => {
                ||| e == APIError::CategoryNotFound && no_category(
                    store.categories@,
                    category_id@,
                    user_id@,
                )
                ||| e == APIError::DatabaseError && !no_category(
                    store.categories@,
                    category_id@,
                    user_id@,
                ) && no_user(store.users@, user_id@, false)
            },
        },
{
    let category = match get_category(store, category_id, user_id) {
        Ok(c) => c,
        Err(_) => return Err(APIError::CategoryNotFound),
    };
    let tags = match get_category_tags(store, category_id, user_id) {
        Ok(ts) => ts,
        Err(_) => return Err(APIError::DatabaseError),
    };
    Ok(
        CategoryWithTags {
            id: category.id,
            name: category.name,
            user_id: category.user_id,
            created_at: category.created_at,
            tags,
        },
    )
}

/// Every category of a user with its tags: `DatabaseError` without such a
/// user.
pub fn get_user_categories_with_tags(store: &Store, user_id: &str) -> (r: Result<
    Vec<CategoryWithTags>,
    APIError,
>)
    ensures
        match r {
            Ok(ws) => {
                let cs = categories_of(store.categories@, user_id@);
                &&& !no_user(store.users@, user_id@, false)
                &&& ws.len() == cs.len()
                &&& forall|k: int|
                    0 <= k < ws.len() ==> joined(
                        #[trigger] ws@[k],
                        cs[k],
                        tags_of_category(store.tags@, cs[k].id@, user_id@),
                    )
            },
            Err(e) => e == APIError::DatabaseError && no_user(store.users@, user_id@, false),
        },
{
    let categories = match get_all_categories(store, user_id) {
        Ok(cs) => cs,
        Err(_) => return Err(APIError::DatabaseError),
    };
    proof {
        lemma_categories_of_rows(store.categories@, user_id@);
    }
    let mut r: Vec<CategoryWithTags> = Vec::new();
    let mut k: usize = 0;
    while k < categories.len()
        invariant
            k <= categories.len(),
            !no_user(store.users@, user_id@, false),
            categories@ == categories_of(store.categories@, user_id@),
            forall|m: int|
                0 <= m < categories.len() ==> {
                    &&& (#[trigger] categories@[m]).user_id@ == user_id@
                    &&& is_row(store.categories@, categories@[m])
                },
            r.len() == k,
            forall|m: int|
                0 <= m < k ==> joined(
                    #[trigger] r@[m],
                    categories@[m],
                    tags_of_category(store.tags@, categories@[m].id@, user_id@),
                ),
        decreases categories.len() - k,
    {
        let c = &categories[k];
        proof {
            assert(is_row(store.categories@, categories@[k as int]));
            let j = choose|j: int|
                0 <= j < store.categories.len() && #[trigger] store.categories@[j]
                    == categories@[k as int];
            assert(category_key(store.categories@[j], c.id@, user_id@));
        }
        let tags = match get_category_tags(store, c.id.as_str(), user_id) {
            Ok(ts) => ts,
            Err(_) => return Err(APIError::DatabaseError),
        };
        r.push(
            CategoryWithTags {
                id: c.id.clone(),
                name: c.name.clone(),
                user_id: c.user_id.clone(),
                created_at: c.created_at,
                tags,
            },
        );
        k = k + 1;
    }
    Ok(r)
}

/// Creates a category at time `now` with a fresh random id: `BadRequest`
/// where a field is empty or longer than 255 characters, `UserNotFound`
/// without such a user.
pub fn create_category(store: &mut Store, category: CreateCategory, now: i64) -> (r: Result<
    Category,
    APIError,
>)
    ensures
        final(store).users == old(store).users,
        final(store).sessions == old(store).sessions,
        final(store).tags == old(store).tags,
        final(store).invites == old(store).invites,
        final(store).entries == old(store).entries,
        match r {
            Ok(c) => {
                &&& name_ok(category.name@) && name_ok(category.user_id@)
                &&& !no_user(old(store).users@, category.user_id@, false)
                &&& c.name == category.name && c.user_id == category.user_id && c.created_at == now
                &&& final(store).categories@ == old(store).categories@.push(c)
            },
            Err(e) => {
                &&& final(store).categories == old(store).categories
                &&& {
                    ||| e == APIError::BadRequest && !(name_ok(category.name@) && name_ok(
                        category.user_id@,
                    ))
                    ||| e == APIError::UserNotFound && name_ok(category.name@) && name_ok(
                        category.user_id@,
                    ) && no_user(old(store).users@, category.user_id@, false)
                }
            },
        },
{
    if !category.validate() {
        return Err(APIError::BadRequest);
    }
    if get_user(store, category.user_id.as_str()).is_err() {
        return Err(APIError::UserNotFound);
    }
    let new_category = Category {
        id: new_id(),
        name: category.name,
        user_id: category.user_id,
        created_at: now,
    };
    store.categories.push(new_category.duplicate());
    Ok(new_category)
}

/// The categories after renaming category `id` of `user_id` to `name`.
pub open spec fn renamed(cs: Seq<Category>, id: Seq<char>, user_id: Seq<char>, name: String) -> Seq<
    Category,
> {
    Seq::new(
        cs.len(),
        |i: int|
            if category_key(cs[i], id, user_id) {
                Category { name: name, ..cs[i] }
            } else {
                cs[i]
            },
    )
}

/// Renames a category: `BadRequest` where a field is empty or longer than
/// 255 characters, `UserNotFound` without such a user, `CategoryNotFound`
/// where the user has no such category; otherwise the renamed category.
pub fn edit_category(store: &mut Store, category: EditCategory) -> (r: Result<Category, APIError>)
    ensures
        final(store).users == old(store).users,
        final(store).sessions == old(store).sessions,
        final(store).tags == old(store).tags,
        final(store).invites == old(store).invites,
        final(store).entries == old(store).entries,
        match r {
            Ok(c) => {
                &&& name_ok(category.id@) && name_ok(category.name@) && name_ok(category.user_id@)
                &&& !no_user(old(store).users@, category.user_id@, false)
                &&& final(store).categories@ == renamed(
                    old(store).categories@,
                    category.id@,
                    category.user_id@,
                    category.name,
                )
                &&& exists|i: int|
                    first_category(old(store).categories@, category.id@, category.user_id@, i)
                        && c == (Category { name: category.name, ..old(store).categories@[i] })
            },
            Err(e) => {
                ||| e == APIError::BadRequest && !(name_ok(category.id@) && name_ok(
                    category.name@,
                ) && name_ok(category.user_id@)) && final(store).categories == old(
                    store,
                ).categories
                ||| e == APIError::UserNotFound && no_user(
                    old(store).users@,
                    category.user_id@,
                    false,
                ) && final(store).categories == old(store).categories
                ||| e == APIError::CategoryNotFound && no_category(
                    old(store).categories@,
                    category.id@,
                    category.user_id@,
                ) && final(store).categories@ == old(store).categories@
            },
        },
{
    if !category.validate() {
        return Err(APIError::BadRequest);
    }
    if get_user(store, category.user_id.as_str()).is_err() {
        return Err(APIError::UserNotFound);
    }
    let ghost before = store.categories@;
    let mut updated: Vec<Category> = Vec::new();
    let mut i: usize = 0;
    while i < store.categories.len()
        invariant
            i <= store.categories.len(),
            store.categories@ == before,
            updated.len() == i,
            forall|m: int|
                0 <= m < i ==> #[trigger] updated@[m] == renamed(
                    before,
                    category.id@,
                    category.user_id@,
                    category.name,
                )[m],
        decreases store.categories.len() - i,
    {
        let c = &store.categories[i];
        let mut d = c.duplicate();
        if c.id == category.id && c.user_id == category.user_id {
            d.name = category.name.clone();
        }
        updated.push(d);
        i = i + 1;
    }
    assert(updated@ =~= renamed(before, category.id@, category.user_id@, category.name));
    store.categories = updated;
    proof {
        let after = store.categories@;
        assert forall|j: int| 0 <= j < after.len() implies category_key(
            #[trigger] after[j],
            category.id@,
            category.user_id@,
        ) == category_key(before[j], category.id@, category.user_id@) by {}
        if no_category(after, category.id@, category.user_id@) {
            assert forall|j: int| 0 <= j < before.len() implies !category_key(
                #[trigger] before[j],
                category.id@,
                category.user_id@,
            ) by {
                assert(category_key(after[j], category.id@, category.user_id@) == category_key(
                    before[j],
                    category.id@,
                    category.user_id@,
                ));
            }
            assert(after =~= before);
        }
    }
    let found = get_category(store, category.id.as_str(), category.user_id.as_str());
    proof {
        let after = store.categories@;
        if found is Ok {
            let i = choose|i: int|
                first_category(after, category.id@, category.user_id@, i) && found->Ok_0
                    == #[trigger] after[i];
            assert(category_key(after[i], category.id@, category.user_id@) == category_key(
                before[i],
                category.id@,
                category.user_id@,
            ));
            assert forall|j: int| 0 <= j < i implies !category_key(
                #[trigger] before[j],
                category.id@,
                category.user_id@,
            ) by {
                assert(category_key(after[j], category.id@, category.user_id@) == category_key(
                    before[j],
                    category.id@,
                    category.user_id@,
                ));
            }
            assert(first_category(before, category.id@, category.user_id@, i));
        }
    }
    found
}

/// The categories that remain once category `id` of `user_id` is removed.
pub open spec fn categories_without(cs: Seq<Category>, id: Seq<char>, user_id: Seq<char>) -> Seq<
    Category,
>
    decreases cs.len(),
{
    if cs.len() == 0 {
        Seq::empty()
    } else if category_key(cs.last(), id, user_id) {
        categories_without(cs.drop_last(), id, user_id)
    } else {
        categories_without(cs.drop_last(), id, user_id).push(cs.last())
    }
}

/// Deletes a category and its tags: `UserNotFound` without such a user,
/// `CategoryNotFound` where the user has no such category; otherwise
/// `Ok(true)`.
pub fn delete_category(store: &mut Store, category_id: &str, user_id: &str) -> (r: Result<
    bool,
    APIError,
>)
    ensures
        final(store).users == old(store).users,
        final(store).sessions == old(store).sessions,
        final(store).invites == old(store).invites,
        final(store).entries == old(store).entries,
        match r {
            Ok(b) => {
                &&& b
                &&& !no_user(old(store).users@, user_id@, false)
                &&& !no_category(old(store).categories@, category_id@, user_id@)
                &&& final(store).tags@ == tags_outside_category(
                    old(store).tags@,
                    category_id@,
                    user_id@,
                )
                &&& final(store).categories@ == categories_without(
                    old(store).categories@,
                    category_id@,
                    user_id@,
                )
            },
            Err(e) => {
                &&& final(store).tags == old(store).tags
                &&& final(store).categories == old(store).categories
                &&& {
                    ||| e == APIError::UserNotFound && no_user(old(store).users@, user_id@, false)
                    ||| e == APIError::CategoryNotFound && !no_user(
                        old(store).users@,
                        user_id@,
                        false,
                    ) && no_category(old(store).categories@, category_id@, user_id@)
                }
            },
        },
{
    if get_user(store, user_id).is_err() {
        return Err(APIError::UserNotFound);
    }
    if get_category(store, category_id, user_id).is_err() {
        return Err(APIError::CategoryNotFound);
    }
    let deleted = delete_all_category_tags(store, category_id, user_id);
    if deleted.is_err() {
        return Err(APIError::DatabaseError);
    }
    let id = category_id.to_string();
    let owner = user_id.to_string();
    let mut kept: Vec<Category> = Vec::new();
    let mut i: usize = 0;
    while i < store.categories.len()
        invariant
            i <= store.categories.len(),
            id@ == category_id@,
            owner@ == user_id@,
            kept@ == categories_without(store.categories@.subrange(0, i as int), id@, owner@),
        decreases store.categories.len() - i,
    {
        let c = &store.categories[i];
        assert(store.categories@.subrange(0, i + 1).drop_last() =~= store.categories@.subrange(
            0,
            i as int,
        ));
        if !(c.id == id && c.user_id == owner) {
            kept.push(c.duplicate());
        }
        i = i + 1;
    }
    assert(store.categories@.subrange(0, store.categories.len() as int) =~= store.categories@);
    store.categories = kept;
    Ok(true)
}

} // verus!
