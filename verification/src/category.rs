use vstd::prelude::*;

use crate::errors::AppError;
use crate::jwt::Claims;
use crate::models::{
    category_description_valid, category_name_valid, check_category_description,
    check_category_name, opt_str_view, Category, CategoryView, UpdateCategoryRequest,
    UpdateCategoryRequestView,
};
use crate::store::{
    lemma_filter_element_index, lemma_filter_no_duplicates, not_category_assoc, Store, StoreView,
};

verus! {

// ---------------------------------------------------------------------------
// The creation transition.
// ---------------------------------------------------------------------------

/// A category name is 3 to 100 characters; a description, when given, is 3
/// to 255 characters — the same bounds at every operation that accepts them.
pub open spec fn category_input_valid(name: Seq<char>, description: Option<Seq<char>>) -> bool {
    &&& category_name_valid(name)
    &&& (description matches Some(d) ==> category_description_valid(d))
}

/// The category row that creation inserts: the next id, the given fields,
/// and both timestamps equal to `now`.
pub open spec fn new_category_view(
    s: StoreView,
    name: Seq<char>,
    description: Option<Seq<char>>,
    now: int,
) -> CategoryView {
    CategoryView {
        id: s.next_category_id,
        name: name,
        description: description,
        created_at: now,
        updated_at: now,
    }
}

/// The store after creating a category: one row appended and the category
/// counter bumped.
pub open spec fn create_category_view(
    s: StoreView,
    name: Seq<char>,
    description: Option<Seq<char>>,
    now: int,
) -> StoreView {
    StoreView {
        categories: s.categories.push(new_category_view(s, name, description, now)),
        next_category_id: s.next_category_id + 1,
        ..s
    }
}

/// Creation preserves well-formedness.
proof fn lemma_create_category_wf(
    s0: StoreView,
    name: Seq<char>,
    description: Option<Seq<char>>,
    now: int,
)
    requires
        s0.wf(),
        s0.next_category_id < i32::MAX,
    ensures
        create_category_view(s0, name, description, now).wf(),
{
    let s1 = create_category_view(s0, name, description, now);
    assert forall|i: int, j: int| 0 <= i < j < s1.categories.len() implies s1.categories[i].id
        < s1.categories[j].id by {
        if j < s1.categories.len() - 1 {
            assert(s1.categories[i] == s0.categories[i] && s1.categories[j] == s0.categories[j]);
        } else {
            assert(s1.categories[i] == s0.categories[i]);
            assert(s0.categories[i].id < s0.next_category_id);
        }
    }
    assert forall|w: int| 0 <= w < s1.categories.len() implies 1 <= (
    #[trigger] s1.categories[w].id) && s1.categories[w].id < s1.next_category_id by {
        if w < s1.categories.len() - 1 {
            assert(s1.categories[w] == s0.categories[w]);
        }
    }
    s0.lemma_news_lookups(s1);
    assert forall|w: int| 0 <= w < s1.news_categories.len() implies s1.has_news(
        #[trigger] s1.news_categories[w].news_id,
    ) by {
        assert(s1.news_categories[w] == s0.news_categories[w]);
        assert(s0.has_news(s0.news_categories[w].news_id));
    }
    assert forall|w: int| 0 <= w < s1.news_categories.len() implies s1.has_category(
        #[trigger] s1.news_categories[w].category_id,
    ) by {
        assert(s1.news_categories[w] == s0.news_categories[w]);
        assert(s0.has_category(s0.news_categories[w].category_id));
        let u = choose|u: int|
            0 <= u < s0.categories.len() && #[trigger] s0.categories[u].id
                == s0.news_categories[w].category_id;
        assert(s1.categories[u].id == s0.news_categories[w].category_id);
    }
}

/// Creates a category. The new row gets the next category id and both
/// timestamps equal to `now`.
///
/// Rejected with `ValidationError`: a name outside 3 to 100 characters, or
/// a given description outside 3 to 255. Rejected with `DatabaseError`: an
/// exhausted id space.
pub fn create_category(
    store: &mut Store,
    name: String,
    description: Option<String>,
    now: i64,
) -> (r: Result<Category, AppError>)
    requires
        old(store)@.wf(),
    ensures
        final(store)@.wf(),
        r is Err ==> final(store)@ == old(store)@,
        r is Ok <==> category_input_valid(name@, opt_str_view(description)) && old(
            store,
        )@.next_category_id < i32::MAX,
        r matches Ok(c) ==> c@ == new_category_view(
            old(store)@,
            name@,
            opt_str_view(description),
            now as int,
        ) && final(store)@ == create_category_view(
            old(store)@,
            name@,
            opt_str_view(description),
            now as int,
        ),
        r matches Err(e) ==> ({
            if !category_name_valid(name@) {
                e matches AppError::ValidationError(m) && m@
                    == "Category name must be between 3 and 100 characters!"@
            } else if !(opt_str_view(description) matches Some(d) ==> category_description_valid(
                d,
            )) {
                e matches AppError::ValidationError(m) && m@
                    == "Category description must be between 3 and 255 characters!"@
            } else {
                e matches AppError::DatabaseError(m) && m@ == "Failed to create category"@
            }
        }),
{
    if !check_category_name(&name) {
        return Err(AppError::ValidationError("Category name must be between 3 and 100 characters!".to_owned()));
    }
    if let Some(d) = &description {
        if !check_category_description(d) {
            return Err(AppError::ValidationError("Category description must be between 3 and 255 characters!".to_owned()));
        }
    }
    if store.next_category_id == i32::MAX {
        return Err(AppError::DatabaseError("Failed to create category".to_owned()));
    }
    let id = store.next_category_id;
    let row = Category { id, name, description, created_at: now, updated_at: now };
    let result = row.duplicate();
    store.categories.push(row);
    store.next_category_id = id + 1;
    proof {
        assert(store@ =~= create_category_view(
            old(store)@,
            name@,
            opt_str_view(description),
            now as int,
        ));
        lemma_create_category_wf(old(store)@, name@, opt_str_view(description), now as int);
    }
    Ok(result)
}

// ---------------------------------------------------------------------------
// The update transition.
// ---------------------------------------------------------------------------

/// The category row after an update: the new name and description, a
/// refreshed `updated_at`, and an unchanged id and creation time.
pub open spec fn updated_category_view(
    old_c: CategoryView,
    data: UpdateCategoryRequestView,
    now: int,
) -> CategoryView {
    CategoryView {
        id: old_c.id,
        name: data.name,
        description: Some(data.description),
        created_at: old_c.created_at,
        updated_at: now,
    }
}

/// The store after updating one category.
pub open spec fn update_category_view(
    s: StoreView,
    id: int,
    data: UpdateCategoryRequestView,
    now: int,
) -> StoreView {
    let i = s.category_index(id);
    StoreView {
        categories: s.categories.update(i, updated_category_view(s.categories[i], data, now)),
        ..s
    }
}

/// An update preserves well-formedness.
proof fn lemma_update_category_wf(s0: StoreView, id: int, data: UpdateCategoryRequestView, now: int)
    requires
        s0.wf(),
        s0.has_category(id),
    ensures
        update_category_view(s0, id, data, now).wf(),
{
    let s1 = update_category_view(s0, id, data, now);
    let i = s0.category_index(id);
    assert(0 <= i < s0.categories.len() && s0.categories[i].id == id);
    assert(forall|w: int|
        0 <= w < s0.categories.len() ==> s1.categories[w].id == #[trigger] s0.categories[w].id);
    s0.lemma_news_lookups(s1);
    s0.lemma_category_lookups(s1);
    assert forall|w: int| 0 <= w < s1.news_categories.len() implies s1.has_news(
        #[trigger] s1.news_categories[w].news_id,
    ) && s1.has_category(s1.news_categories[w].category_id) by {
        assert(s1.news_categories[w] == s0.news_categories[w]);
        assert(s0.has_news(s0.news_categories[w].news_id));
        assert(s0.has_category(s0.news_categories[w].category_id));
    }
}

/// Replaces a category's name and description, refreshing `updated_at`.
///
/// Rejected with `ValidationError` under the same bounds as creation, and
/// with `NotFoundError` when the id names no category.
pub fn update_category(
    store: &mut Store,
    category_id: i32,
    request: &UpdateCategoryRequest,
    now: i64,
) -> (r: Result<Category, AppError>)
    requires
        old(store)@.wf(),
    ensures
        final(store)@.wf(),
        r is Err ==> final(store)@ == old(store)@,
        r is Ok <==> category_name_valid(request.name@) && category_description_valid(
            request.description@,
        ) && old(store)@.has_category(category_id as int),
        r matches Ok(c) ==> c@ == updated_category_view(
            old(store)@.category_by_id(category_id as int),
            request@,
            now as int,
        ) && final(store)@ == update_category_view(
            old(store)@,
            category_id as int,
            request@,
            now as int,
        ),
        r matches Err(e) ==> ({
            if !category_name_valid(request.name@) {
                e matches AppError::ValidationError(m) && m@
                    == "Category name must be between 3 and 100 characters!"@
            } else if !category_description_valid(request.description@) {
                e matches AppError::ValidationError(m) && m@
                    == "Category description must be between 3 and 255 characters!"@
            } else {
                e matches AppError::NotFoundError(m) && m@ == "Category not found"@
            }
        }),
{
    if !check_category_name(&request.name) {
        return Err(AppError::ValidationError("Category name must be between 3 and 100 characters!".to_owned()));
    }
    if !check_category_description(&request.description) {
        return Err(AppError::ValidationError("Category description must be between 3 and 255 characters!".to_owned()));
    }
    let ci = match store.find_category(category_id) {
        Some(i) => i,
        None => {
            return Err(AppError::NotFoundError("Category not found".to_owned()));
        },
    };
    proof {
        store@.lemma_category_index_is(category_id as int, ci as int);
    }
    let updated = Category {
        id: store.categories[ci].id,
        name: request.name.clone(),
        description: Some(request.description.clone()),
        created_at: store.categories[ci].created_at,
        updated_at: now,
    };
    let result = updated.duplicate();
    let ghost s0 = old(store)@;
    let _replaced = store.categories.remove(ci);
    let ghost s_mid = store@;
    store.categories.insert(ci, updated);
    proof {
        assert(s_mid.categories =~= s0.categories.remove(ci as int));
        assert(store@.categories =~= s_mid.categories.insert(ci as int, result@));
        assert(store@ =~= update_category_view(s0, category_id as int, request@, now as int));
        lemma_update_category_wf(s0, category_id as int, request@, now as int);
    }
    Ok(result)
}

// ---------------------------------------------------------------------------
// The deletion transition.
// ---------------------------------------------------------------------------

/// The store after deleting one category: its row leaves the category
/// table and every association row that references it leaves the
/// association table. The news items themselves stay.
pub open spec fn delete_category_view(s: StoreView, id: int) -> StoreView {
    StoreView {
        categories: s.categories.remove(s.category_index(id)),
        news_categories: s.news_categories.filter(not_category_assoc(id)),
        ..s
    }
}

/// Deletion preserves well-formedness.
proof fn lemma_delete_category_wf(s0: StoreView, id: int)
    requires
        s0.wf(),
        s0.has_category(id),
    ensures
        delete_category_view(s0, id).wf(),
{
    let s1 = delete_category_view(s0, id);
    let i = s0.category_index(id);
    assert(0 <= i < s0.categories.len() && s0.categories[i].id == id);
    let pred = not_category_assoc(id);
    assert(s0.news_categories.no_duplicates());
    lemma_filter_no_duplicates(s0.news_categories, pred);
    assert forall|p: int, q: int| 0 <= p < q < s1.categories.len() implies s1.categories[p].id
        < s1.categories[q].id by {
        let p0: int = if p < i {
            p
        } else {
            p + 1
        };
        let q0: int = if q < i {
            q
        } else {
            q + 1
        };
        assert(s1.categories[p] == s0.categories[p0]);
        assert(s1.categories[q] == s0.categories[q0]);
    }
    assert forall|w: int| 0 <= w < s1.categories.len() implies 1 <= (
    #[trigger] s1.categories[w].id) && s1.categories[w].id < s1.next_category_id by {
        if w < i {
            assert(s1.categories[w] == s0.categories[w]);
        } else {
            assert(s1.categories[w] == s0.categories[w + 1]);
        }
    }
    assert forall|p: int, q: int|
        0 <= p < q < s1.news_categories.len() implies !(s1.news_categories[p].news_id
        == s1.news_categories[q].news_id && s1.news_categories[p].category_id
        == s1.news_categories[q].category_id) by {
        assert(s1.news_categories[p] != s1.news_categories[q]);
    }
    s0.lemma_news_lookups(s1);
    assert forall|w: int| 0 <= w < s1.news_categories.len() implies s1.has_news(
        #[trigger] s1.news_categories[w].news_id,
    ) by {
        let v = lemma_filter_element_index(s0.news_categories, pred, w);
        assert(s1.news_categories[w] == s0.news_categories[v]);
        assert(s0.has_news(s0.news_categories[v].news_id));
    }
    assert forall|w: int| 0 <= w < s1.news_categories.len() implies s1.has_category(
        #[trigger] s1.news_categories[w].category_id,
    ) by {
        let a = s1.news_categories[w];
        let v = lemma_filter_element_index(s0.news_categories, pred, w);
        assert(a == s0.news_categories[v]);
        assert(a.category_id != id);
        assert(s0.has_category(s0.news_categories[v].category_id));
        let u = choose|u: int|
            0 <= u < s0.categories.len() && #[trigger] s0.categories[u].id == a.category_id;
        if u < i {
            assert(s1.categories[u].id == a.category_id);
        } else {
            assert(u != i);
            assert(s1.categories[u - 1].id == a.category_id);
        }
    }
}

/// Deletes one category and all association rows that reference it,
/// atomically: on any error the store is unchanged. The news items that
/// carried it stay, merely losing that tag.
///
/// Admin-only: a non-admin identity is rejected with `ForbiddenError`
/// before the id is even looked up; a missing id is `NotFoundError`.
pub fn delete_category(store: &mut Store, user_claims: &Claims, category_id: i32) -> (r: Result<
    (),
    AppError,
>)
    requires
        old(store)@.wf(),
    ensures
        final(store)@.wf(),
        r is Err ==> final(store)@ == old(store)@,
        r is Ok <==> user_claims@.is_admin && old(store)@.has_category(category_id as int),
        r is Ok ==> final(store)@ == delete_category_view(old(store)@, category_id as int),
        r matches Err(e) ==> if !user_claims@.is_admin {
            e matches AppError::ForbiddenError(m) && m@ == "Only admins can delete categories"@
        } else {
            e matches AppError::NotFoundError(m) && m@ == "Category not found"@
        },
{
    if !user_claims.is_admin {
        return Err(AppError::ForbiddenError("Only admins can delete categories".to_owned()));
    }
    let ci = match store.find_category(category_id) {
        Some(i) => i,
        None => {
            return Err(AppError::NotFoundError("Category not found".to_owned()));
        },
    };
    proof {
        store@.lemma_category_index_is(category_id as int, ci as int);
    }
    let ghost s0 = old(store)@;
    store.remove_category_assocs(category_id);
    let _removed = store.categories.remove(ci);
    proof {
        assert(store@.categories =~= s0.categories.remove(ci as int));
        assert(store@ =~= delete_category_view(s0, category_id as int));
        lemma_delete_category_wf(s0, category_id as int);
    }
    Ok(())
}

} // verus!
