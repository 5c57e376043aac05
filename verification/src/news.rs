use vstd::prelude::*;

use crate::errors::AppError;
use crate::jwt::{Claims, ClaimsView};
use crate::models::{
    check_content, check_title, content_valid, title_valid, CategorySummary, CategorySummaryView,
    News, NewsDetail, NewsDetailView, NewsSummary, NewsSummaryView, NewsCategoryView, NewsView,
    NewsWithCategories, NewsWithCategoriesView, UpdateNewsRequest, UpdateNewsRequestView,
};
use crate::store::{
    assoc_rows, is_news_assoc, lemma_filter_element_index, lemma_filter_no_duplicates,
    lemma_filter_push, not_news_assoc, Store, StoreView,
};

verus! {

// ---------------------------------------------------------------------------
// Authorization and input validity.
// ---------------------------------------------------------------------------

/// A news item may be changed or deleted by its author or by any admin.
pub open spec fn can_modify_news(claims: ClaimsView, n: NewsView) -> bool {
    claims.is_admin || claims.sub == n.author_id
}

/// A category id list is acceptable when it holds no id twice and every id
/// names an existing category. A list that names a missing category is
/// rejected whole, keeping the association table free of dangling rows.
pub open spec fn valid_category_ids(s: StoreView, ids: Seq<int>) -> bool {
    &&& ids.no_duplicates()
    &&& forall|i: int| 0 <= i < ids.len() ==> s.has_category(#[trigger] ids[i])
}

pub open spec fn create_news_allowed(s: StoreView, data: NewsWithCategoriesView) -> bool {
    &&& title_valid(data.title)
    &&& content_valid(data.content)
    &&& valid_category_ids(s, data.category_ids)
}

// ---------------------------------------------------------------------------
// The creation transition.
// ---------------------------------------------------------------------------

/// The news row that creation inserts: the next id, the given fields, and
/// both timestamps equal to `now`.
pub open spec fn new_news_view(s: StoreView, data: NewsWithCategoriesView, now: int) -> NewsView {
    NewsView {
        id: s.next_news_id,
        title: data.title,
        content: data.content,
        author_id: data.author_id,
        created_at: now,
        updated_at: now,
    }
}

/// The store after creating a news item: one news row appended, one
/// association row appended per category id, and the news counter bumped.
pub open spec fn create_news_view(s: StoreView, data: NewsWithCategoriesView, now: int) -> StoreView {
    StoreView {
        news: s.news.push(new_news_view(s, data, now)),
        news_categories: s.news_categories + assoc_rows(s.next_news_id, data.category_ids),
        next_news_id: s.next_news_id + 1,
        ..s
    }
}

/// Creation preserves well-formedness.
proof fn lemma_create_news_wf(s0: StoreView, data: NewsWithCategoriesView, now: int)
    requires
        s0.wf(),
        create_news_allowed(s0, data),
        s0.next_news_id < i32::MAX,
    ensures
        create_news_view(s0, data, now).wf(),
{
    let s1 = create_news_view(s0, data, now);
    let nid = s0.next_news_id;
    let rows = assoc_rows(nid, data.category_ids);
    let n0 = s0.news_categories.len() as int;
    // Ids in the news table stay strictly increasing: the new row's id
    // tops every old one.
    assert forall|i: int, j: int| 0 <= i < j < s1.news.len() implies s1.news[i].id
        < s1.news[j].id by {
        if j < s1.news.len() - 1 {
            assert(s1.news[i] == s0.news[i] && s1.news[j] == s0.news[j]);
        } else {
            assert(s1.news[j].id == nid);
            assert(s1.news[i] == s0.news[i]);
            assert(s0.news[i].id < nid);
        }
    }
    // Old association rows belong to news items older than the new id.
    assert forall|i: int| 0 <= i < n0 implies s1.news_categories[i].news_id != nid by {
        assert(s1.news_categories[i] == s0.news_categories[i]);
        assert(s0.has_news(s0.news_categories[i].news_id));
        let w = choose|w: int|
            0 <= w < s0.news.len() && #[trigger] s0.news[w].id == s0.news_categories[i].news_id;
        assert(s0.news[w].id < nid);
    }
    // Pairwise distinctness of the association rows.
    assert forall|i: int, j: int|
        0 <= i < j < s1.news_categories.len() implies !(s1.news_categories[i].news_id
        == s1.news_categories[j].news_id && s1.news_categories[i].category_id
        == s1.news_categories[j].category_id) by {
        if j < n0 {
            assert(s1.news_categories[i] == s0.news_categories[i]);
            assert(s1.news_categories[j] == s0.news_categories[j]);
        } else if i < n0 {
            assert(s1.news_categories[j] == rows[j - n0]);
            assert(s1.news_categories[j].news_id == nid);
        } else {
            assert(s1.news_categories[i] == rows[i - n0]);
            assert(s1.news_categories[j] == rows[j - n0]);
            assert(data.category_ids[i - n0] != data.category_ids[j - n0]);
        }
    }
    // No association row dangles.
    s0.lemma_category_lookups(s1);
    assert forall|i: int| 0 <= i < s1.news_categories.len() implies s1.has_news(
        #[trigger] s1.news_categories[i].news_id,
    ) && s1.has_category(s1.news_categories[i].category_id) by {
        if i < n0 {
            assert(s1.news_categories[i] == s0.news_categories[i]);
            assert(s0.has_news(s0.news_categories[i].news_id));
            let w = choose|w: int|
                0 <= w < s0.news.len() && #[trigger] s0.news[w].id
                    == s0.news_categories[i].news_id;
            assert(s1.news[w].id == s0.news_categories[i].news_id);
            assert(s0.has_category(s0.news_categories[i].category_id));
        } else {
            assert(s1.news_categories[i] == rows[i - n0]);
            assert(s1.news[s1.news.len() - 1].id == nid);
            assert(s0.has_category(data.category_ids[i - n0]));
        }
    }
}

/// Creates a news item together with its category associations, as one
/// atomic step: on any error the store is unchanged.
///
/// The new row gets the next news id and both timestamps equal to `now`.
/// Rejected with `ValidationError`: a title outside 1 to 100 characters,
/// empty content, a repeated category id, or a category id that names no
/// existing category. Rejected with `DatabaseError`: an exhausted id space.
pub fn create_news(store: &mut Store, news_data: &NewsWithCategories, now: i64) -> (r: Result<
    News,
    AppError,
>)
    requires
        old(store)@.wf(),
    ensures
        final(store)@.wf(),
        r is Err ==> final(store)@ == old(store)@,
        r is Ok <==> create_news_allowed(old(store)@, news_data@) && old(store)@.next_news_id
            < i32::MAX,
        r matches Ok(n) ==> n@ == new_news_view(old(store)@, news_data@, now as int)
            && final(store)@ == create_news_view(old(store)@, news_data@, now as int),
        r matches Err(e) ==> ({
            let s = old(store)@;
            let data = news_data@;
            if !title_valid(data.title) {
                e matches AppError::ValidationError(m) && m@
                    == "title must be between 1 and 100 characters"@
            } else if !content_valid(data.content) {
                e matches AppError::ValidationError(m) && m@ == "content cannot empty"@
            } else if !data.category_ids.no_duplicates() {
                e matches AppError::ValidationError(m) && m@ == "category ids must not repeat"@
            } else if !(forall|i: int|
                0 <= i < data.category_ids.len() ==> s.has_category(
                    #[trigger] data.category_ids[i],
                )) {
                e matches AppError::ValidationError(m) && m@ == "category does not exist"@
            } else {
                e matches AppError::DatabaseError(m) && m@ == "Failed to insert news"@
            }
        }),
{
    if !check_title(&news_data.title) {
        return Err(AppError::ValidationError("title must be between 1 and 100 characters".to_owned()));
    }
    if !check_content(&news_data.content) {
        return Err(AppError::ValidationError("content cannot empty".to_owned()));
    }
    if !Store::ids_distinct(&news_data.category_ids) {
        return Err(AppError::ValidationError("category ids must not repeat".to_owned()));
    }
    if !store.all_categories_exist(&news_data.category_ids) {
        proof {
            let mapped = news_data.category_ids@.map_values(|c: i32| c as int);
            if valid_category_ids(store@, mapped) {
                assert forall|i: int| 0 <= i < news_data.category_ids@.len() implies store@
                    .has_category(#[trigger] news_data.category_ids@[i] as int) by {
                    assert(mapped[i] == news_data.category_ids@[i] as int);
                    assert(store@.has_category(mapped[i]));
                }
            }
        }
        return Err(AppError::ValidationError("category does not exist".to_owned()));
    }
    if store.next_news_id == i32::MAX {
        return Err(AppError::DatabaseError("Failed to insert news".to_owned()));
    }
    let id = store.next_news_id;
    let row = News {
        id,
        title: news_data.title.clone(),
        content: news_data.content.clone(),
        author_id: news_data.author_id,
        created_at: now,
        updated_at: now,
    };
    let result = row.duplicate();
    store.news.push(row);
    store.next_news_id = id + 1;
    store.push_assoc_rows(id, &news_data.category_ids);
    proof {
        let s0 = old(store)@;
        assert(store@ =~= create_news_view(s0, news_data@, now as int));
        lemma_create_news_wf(s0, news_data@, now as int);
    }
    Ok(result)
}

// ---------------------------------------------------------------------------
// Read-only projections.
// ---------------------------------------------------------------------------

pub open spec fn news_summary_of(n: NewsView) -> NewsSummaryView {
    NewsSummaryView { title: n.title, created_at: n.created_at }
}

/// Maps an association row to the (id, name) summary of its category.
pub open spec fn summarize_assoc(s: StoreView) -> spec_fn(NewsCategoryView) -> CategorySummaryView {
    |a: NewsCategoryView|
        CategorySummaryView { id: a.category_id, name: s.category_by_id(a.category_id).name }
}

/// The category summaries of one news item, in association-table order.
pub open spec fn category_summaries_of(s: StoreView, id: int) -> Seq<CategorySummaryView> {
    s.assocs_of_news(id).map_values(summarize_assoc(s))
}

/// The detail projection of one news item: its own fields joined with its
/// category summaries.
pub open spec fn news_detail_view(s: StoreView, id: int) -> NewsDetailView {
    let n = s.news_by_id(id);
    NewsDetailView {
        id: n.id,
        title: n.title,
        content: n.content,
        author_id: n.author_id,
        created_at: n.created_at,
        updated_at: n.updated_at,
        categories: category_summaries_of(s, id),
    }
}

/// Fetches one news item joined with the summaries of its categories, in
/// association-table order.
#[verifier::loop_isolation(false)]
pub fn get_news_detail(store: &Store, news_id: i32) -> (r: Result<NewsDetail, AppError>)
    requires
        store@.wf(),
    ensures
        r is Ok <==> store@.has_news(news_id as int),
        r matches Ok(d) ==> d@ == news_detail_view(store@, news_id as int),
        r matches Err(e) ==> e matches AppError::NotFoundError(m) && m@ == "News not found!"@,
{
    let ni = match store.find_news(news_id) {
        Some(i) => i,
        None => {
            return Err(AppError::NotFoundError("News not found!".to_owned()));
        },
    };
    let ghost nid = news_id as int;
    let ghost pred = is_news_assoc(nid);
    let ghost f = summarize_assoc(store@);
    let mut cats: Vec<CategorySummary> = Vec::new();
    proof {
        assert(cats@.map_values(|c: CategorySummary| c@) =~= store@.news_categories.subrange(
            0,
            0,
        ).filter(pred).map_values(f));
    }
    let mut k: usize = 0;
    while k < store.news_categories.len()
        invariant
            k <= store.news_categories.len(),
            cats@.map_values(|c: CategorySummary| c@) == store@.news_categories.subrange(
                0,
                k as int,
            ).filter(pred).map_values(f),
        decreases store.news_categories.len() - k,
    {
        let a_cat = store.news_categories[k].category_id;
        if store.news_categories[k].news_id == news_id {
            let ci = match store.find_category(a_cat) {
                Some(i) => i,
                None => {
                    proof {
                        assert(store@.has_category(
                            store@.news_categories[k as int].category_id,
                        ));
                        assert(false);
                    }
                    return Err(AppError::NotFoundError("News not found!".to_owned()));
                },
            };
            let summary = CategorySummary { id: a_cat, name: store.categories[ci].name.clone() };
            proof {
                store@.lemma_category_index_is(a_cat as int, ci as int);
                assert(summary@ == f(store@.news_categories[k as int]));
            }
            cats.push(summary);
        }
        proof {
            let a = store@.news_categories[k as int];
            let prev = store@.news_categories.subrange(0, k as int);
            assert(store@.news_categories.subrange(0, k + 1) =~= prev.push(a));
            lemma_filter_push(prev, a, pred);
            assert(pred(a) == (a.news_id == nid));
            if pred(a) {
                assert(prev.push(a).filter(pred) == prev.filter(pred).push(a));
                assert(prev.filter(pred).push(a).map_values(f) =~= prev.filter(pred).map_values(
                    f,
                ).push(f(a)));
            }
            assert(cats@.map_values(|c: CategorySummary| c@) =~= store@.news_categories.subrange(
                0,
                k + 1,
            ).filter(pred).map_values(f));
        }
        k += 1;
    }
    proof {
        assert(store@.news_categories.subrange(0, store@.news_categories.len() as int)
            =~= store@.news_categories);
        store@.lemma_news_index_is(nid, ni as int);
    }
    let n = &store.news[ni];
    let d = NewsDetail {
        id: n.id,
        title: n.title.clone(),
        content: n.content.clone(),
        author_id: n.author_id,
        created_at: n.created_at,
        updated_at: n.updated_at,
        categories: cats,
    };
    proof {
        assert(d@ =~= news_detail_view(store@, nid));
    }
    Ok(d)
}

/// Lists every news item's title and creation time, in ascending-id order
/// (the table order).
pub fn list_news(store: &Store) -> (r: Vec<NewsSummary>)
    ensures
        r@.len() == store@.news.len(),
        forall|i: int| 0 <= i < r@.len() ==> #[trigger] r@[i]@ == news_summary_of(store@.news[i]),
{
    let mut out: Vec<NewsSummary> = Vec::new();
    let mut k: usize = 0;
    while k < store.news.len()
        invariant
            k <= store.news.len(),
            out@.len() == k,
            forall|i: int| 0 <= i < k ==> #[trigger] out@[i]@ == news_summary_of(store@.news[i]),
        decreases store.news.len() - k,
    {
        out.push(
            NewsSummary {
                title: store.news[k].title.clone(),
                created_at: store.news[k].created_at,
            },
        );
        k += 1;
    }
    out
}

// ---------------------------------------------------------------------------
// The update transition.
// ---------------------------------------------------------------------------

/// A provided title must meet the same bounds as at creation; an absent
/// one is not judged.
pub open spec fn title_field_valid(data: UpdateNewsRequestView) -> bool {
    data.news_title matches Some(t) ==> title_valid(t)
}

/// A provided content must meet the same bounds as at creation; an absent
/// one is not judged.
pub open spec fn content_field_valid(data: UpdateNewsRequestView) -> bool {
    data.news_content matches Some(c) ==> content_valid(c)
}

/// Provided fields must meet the same bounds as at creation; absent fields
/// are not judged.
pub open spec fn update_fields_valid(data: UpdateNewsRequestView) -> bool {
    title_field_valid(data) && content_field_valid(data)
}

pub open spec fn update_cat_ids_ok(s: StoreView, data: UpdateNewsRequestView) -> bool {
    data.category_ids matches Some(ids) ==> valid_category_ids(s, ids)
}

/// The news row after a partial update: provided fields overwrite, absent
/// fields stay, `updated_at` is refreshed, and id, author and creation time
/// never change.
pub open spec fn updated_news_view(old_n: NewsView, data: UpdateNewsRequestView, now: int) -> NewsView {
    NewsView {
        id: old_n.id,
        title: match data.news_title {
            Some(t) => t,
            None => old_n.title,
        },
        content: match data.news_content {
            Some(c) => c,
            None => old_n.content,
        },
        author_id: old_n.author_id,
        created_at: old_n.created_at,
        updated_at: now,
    }
}

/// The association table after replacing one news item's category set: its
/// old rows leave, one row per new id enters at the end.
pub open spec fn replace_assocs_view(s: StoreView, id: int, ids: Seq<int>) -> Seq<NewsCategoryView> {
    s.news_categories.filter(not_news_assoc(id)) + assoc_rows(id, ids)
}

/// The store after a partial update of one news item.
pub open spec fn update_news_view(s: StoreView, id: int, data: UpdateNewsRequestView, now: int) -> StoreView {
    let i = s.news_index(id);
    StoreView {
        news: s.news.update(i, updated_news_view(s.news[i], data, now)),
        news_categories: match data.category_ids {
            Some(ids) => replace_assocs_view(s, id, ids),
            None => s.news_categories,
        },
        ..s
    }
}

/// A replaced association set is pairwise distinct and references only
/// rows that the store already holds.
proof fn lemma_replace_assocs_wf_parts(s: StoreView, id: int, ids: Seq<int>)
    requires
        s.wf(),
        s.has_news(id),
        valid_category_ids(s, ids),
    ensures
        forall|i: int, j: int|
            0 <= i < j < replace_assocs_view(s, id, ids).len() ==> !(replace_assocs_view(
                s,
                id,
                ids,
            )[i].news_id == replace_assocs_view(s, id, ids)[j].news_id && replace_assocs_view(
                s,
                id,
                ids,
            )[i].category_id == replace_assocs_view(s, id, ids)[j].category_id),
        forall|i: int|
            0 <= i < replace_assocs_view(s, id, ids).len() ==> s.has_news(
                #[trigger] replace_assocs_view(s, id, ids)[i].news_id,
            ) && s.has_category(replace_assocs_view(s, id, ids)[i].category_id),
{
    let pred = not_news_assoc(id);
    let kept = s.news_categories.filter(pred);
    let rows = assoc_rows(id, ids);
    let nc = replace_assocs_view(s, id, ids);
    let n0 = kept.len() as int;
    assert(s.news_categories.no_duplicates());
    lemma_filter_no_duplicates(s.news_categories, pred);
    assert forall|i: int| 0 <= i < n0 implies #[trigger] nc[i].news_id != id && s.has_news(
        nc[i].news_id,
    ) && s.has_category(nc[i].category_id) by {
        assert(nc[i] == kept[i]);
        let w = lemma_filter_element_index(s.news_categories, pred, i);
        assert(s.has_news(s.news_categories[w].news_id));
        assert(s.has_category(s.news_categories[w].category_id));
    }
    assert forall|i: int, j: int| 0 <= i < j < nc.len() implies !(nc[i].news_id == nc[j].news_id
        && nc[i].category_id == nc[j].category_id) by {
        if j < n0 {
            assert(nc[i] == kept[i] && nc[j] == kept[j]);
            assert(kept[i] != kept[j]);
        } else if i < n0 {
            assert(nc[j] == rows[j - n0]);
            assert(nc[j].news_id == id);
        } else {
            assert(nc[i] == rows[i - n0] && nc[j] == rows[j - n0]);
            assert(ids[i - n0] != ids[j - n0]);
        }
    }
    assert forall|i: int| 0 <= i < nc.len() implies s.has_news(#[trigger] nc[i].news_id)
        && s.has_category(nc[i].category_id) by {
        if i >= n0 {
            assert(nc[i] == rows[i - n0]);
            assert(s.has_category(ids[i - n0]));
        }
    }
}

/// A partial update preserves well-formedness.
pub proof fn lemma_update_news_wf(s0: StoreView, id: int, data: UpdateNewsRequestView, now: int)
    requires
        s0.wf(),
        s0.has_news(id),
        update_cat_ids_ok(s0, data),
    ensures
        update_news_view(s0, id, data, now).wf(),
{
    let s1 = update_news_view(s0, id, data, now);
    let i = s0.news_index(id);
    assert(0 <= i < s0.news.len() && s0.news[i].id == id);
    assert(forall|w: int| 0 <= w < s0.news.len() ==> s1.news[w].id == #[trigger] s0.news[w].id);
    s0.lemma_news_lookups(s1);
    s0.lemma_category_lookups(s1);
    match data.category_ids {
        Some(ids) => {
            lemma_replace_assocs_wf_parts(s0, id, ids);
            assert forall|w: int| 0 <= w < s1.news_categories.len() implies s1.has_news(
                #[trigger] s1.news_categories[w].news_id,
            ) && s1.has_category(s1.news_categories[w].category_id) by {
                assert(s0.has_news(s1.news_categories[w].news_id));
                assert(s0.has_category(s1.news_categories[w].category_id));
            }
        },
        None => {
            assert forall|w: int| 0 <= w < s1.news_categories.len() implies s1.has_news(
                #[trigger] s1.news_categories[w].news_id,
            ) && s1.has_category(s1.news_categories[w].category_id) by {
                assert(s1.news_categories[w] == s0.news_categories[w]);
                assert(s0.has_news(s0.news_categories[w].news_id));
                assert(s0.has_category(s0.news_categories[w].category_id));
            }
        },
    }
}

/// Replaces the whole association set of one news item: the existing rows
/// leave, then one row per given category id enters.
fn update_news_categories(store: &mut Store, news_ids: i32, category_ids: &Vec<i32>)
    ensures
        final(store)@ == (StoreView {
            news_categories: replace_assocs_view(
                old(store)@,
                news_ids as int,
                category_ids@.map_values(|c: i32| c as int),
            ),
            ..old(store)@
        }),
{
    store.remove_news_assocs(news_ids);
    store.push_assoc_rows(news_ids, category_ids);
    proof {
        assert(store@ =~= (StoreView {
            news_categories: replace_assocs_view(
                old(store)@,
                news_ids as int,
                category_ids@.map_values(|c: i32| c as int),
            ),
            ..old(store)@
        }));
    }
}

/// Partially updates one news item, and atomically replaces its category
/// set when one is provided: on any error the store is unchanged.
///
/// Only the author or an admin may update. Checked in this order:
/// existence (`NotFoundError`), authorization (`ForbiddenError`), field
/// bounds, then the provided category ids (both `ValidationError`).
/// Authorization is judged before the fields, so a requester who is
/// neither the author nor an admin is always answered with
/// `ForbiddenError`, whatever they sent.
pub fn update_news(
    store: &mut Store,
    user_claims: &Claims,
    news_id: i32,
    update_data: &UpdateNewsRequest,
    now: i64,
) -> (r: Result<News, AppError>)
    requires
        old(store)@.wf(),
    ensures
        final(store)@.wf(),
        r is Err ==> final(store)@ == old(store)@,
        r is Ok <==> update_fields_valid(update_data@) && old(store)@.has_news(news_id as int)
            && can_modify_news(user_claims@, old(store)@.news_by_id(news_id as int))
            && update_cat_ids_ok(old(store)@, update_data@),
        r matches Ok(n) ==> n@ == updated_news_view(
            old(store)@.news_by_id(news_id as int),
            update_data@,
            now as int,
        ) && final(store)@ == update_news_view(
            old(store)@,
            news_id as int,
            update_data@,
            now as int,
        ),
        r matches Err(e) ==> ({
            let s = old(store)@;
            let data = update_data@;
            if !s.has_news(news_id as int) {
                e matches AppError::NotFoundError(m) && m@ == "News not found!"@
            } else if !can_modify_news(user_claims@, s.news_by_id(news_id as int)) {
                e matches AppError::ForbiddenError(m) && m@ == "Not authorized!"@
            } else if !title_field_valid(data) {
                e matches AppError::ValidationError(m) && m@
                    == "title must be between 1 and 100 characters"@
            } else if !content_field_valid(data) {
                e matches AppError::ValidationError(m) && m@ == "content cannot empty"@
            } else if !(data.category_ids matches Some(ids) ==> ids.no_duplicates()) {
                e matches AppError::ValidationError(m) && m@ == "category ids must not repeat"@
            } else {
                e matches AppError::ValidationError(m) && m@ == "category does not exist"@
            }
        }),
{
    let ni = match store.find_news(news_id) {
        Some(i) => i,
        None => {
            return Err(AppError::NotFoundError("News not found!".to_owned()));
        },
    };
    proof {
        store@.lemma_news_index_is(news_id as int, ni as int);
    }
    if !user_claims.is_admin && user_claims.sub != store.news[ni].author_id {
        return Err(AppError::ForbiddenError("Not authorized!".to_owned()));
    }
    if let Some(t) = &update_data.news_title {
        if !check_title(t) {
            return Err(AppError::ValidationError("title must be between 1 and 100 characters".to_owned()));
        }
    }
    if let Some(c) = &update_data.news_content {
        if !check_content(c) {
            return Err(AppError::ValidationError("content cannot empty".to_owned()));
        }
    }
    if let Some(ids) = &update_data.category_ids {
        if !Store::ids_distinct(ids) {
            return Err(AppError::ValidationError("category ids must not repeat".to_owned()));
        }
        if !store.all_categories_exist(ids) {
            proof {
                let mapped = ids@.map_values(|c: i32| c as int);
                if valid_category_ids(store@, mapped) {
                    assert forall|i: int| 0 <= i < ids@.len() implies store@.has_category(
                        #[trigger] ids@[i] as int,
                    ) by {
                        assert(mapped[i] == ids@[i] as int);
                        assert(store@.has_category(mapped[i]));
                    }
                }
            }
            return Err(AppError::ValidationError("category does not exist".to_owned()));
        }
    }
    let updated = News {
        id: store.news[ni].id,
        title: match &update_data.news_title {
            Some(t) => t.clone(),
            None => store.news[ni].title.clone(),
        },
        content: match &update_data.news_content {
            Some(c) => c.clone(),
            None => store.news[ni].content.clone(),
        },
        author_id: store.news[ni].author_id,
        created_at: store.news[ni].created_at,
        updated_at: now,
    };
    let result = updated.duplicate();
    let ghost s0 = old(store)@;
    let _replaced = store.news.remove(ni);
    let ghost s_mid = store@;
    store.news.insert(ni, updated);
    proof {
        assert(s_mid.news =~= s0.news.remove(ni as int));
        assert(store@.news =~= s_mid.news.insert(ni as int, result@));
        assert(store@.news =~= s0.news.update(
            ni as int,
            updated_news_view(s0.news[ni as int], update_data@, now as int),
        ));
    }
    if let Some(ids) = &update_data.category_ids {
        update_news_categories(store, news_id, ids);
    }
    proof {
        assert(store@ =~= update_news_view(s0, news_id as int, update_data@, now as int));
        lemma_update_news_wf(s0, news_id as int, update_data@, now as int);
    }
    Ok(result)
}

// ---------------------------------------------------------------------------
// The deletion transition.
// ---------------------------------------------------------------------------

/// The store after deleting one news item: its row leaves the news table
/// and every one of its association rows leaves the association table.
pub open spec fn delete_news_view(s: StoreView, id: int) -> StoreView {
    StoreView {
        news: s.news.remove(s.news_index(id)),
        news_categories: s.news_categories.filter(not_news_assoc(id)),
        ..s
    }
}

/// Deletion preserves well-formedness.
proof fn lemma_delete_news_wf(s0: StoreView, id: int)
    requires
        s0.wf(),
        s0.has_news(id),
    ensures
        delete_news_view(s0, id).wf(),
{
    let s1 = delete_news_view(s0, id);
    let i = s0.news_index(id);
    assert(0 <= i < s0.news.len() && s0.news[i].id == id);
    let pred = not_news_assoc(id);
    assert(s0.news_categories.no_duplicates());
    lemma_filter_no_duplicates(s0.news_categories, pred);
    s0.lemma_category_lookups(s1);
    assert forall|w: int| 0 <= w < s1.news_categories.len() implies s1.has_news(
        #[trigger] s1.news_categories[w].news_id,
    ) && s1.has_category(s1.news_categories[w].category_id) by {
        let a = s1.news_categories[w];
        let v = lemma_filter_element_index(s0.news_categories, pred, w);
        assert(a == s0.news_categories[v]);
        assert(a.news_id != id);
        assert(s0.has_news(s0.news_categories[v].news_id));
        assert(s0.has_category(s0.news_categories[v].category_id));
        let u = choose|u: int| 0 <= u < s0.news.len() && #[trigger] s0.news[u].id == a.news_id;
        if u < i {
            assert(s1.news[u].id == a.news_id);
        } else {
            assert(u != i);
            assert(s1.news[u - 1].id == a.news_id);
        }
    }
}

/// Deletes one news item and all of its association rows, atomically: on
/// any error the store is unchanged.
///
/// Only the author or an admin may delete. A missing id is reported as
/// `NotFoundError`, never as success.
pub fn delete_news(store: &mut Store, user_claims: &Claims, news_id: i32) -> (r: Result<
    (),
    AppError,
>)
    requires
        old(store)@.wf(),
    ensures
        final(store)@.wf(),
        r is Err ==> final(store)@ == old(store)@,
        r is Ok <==> old(store)@.has_news(news_id as int) && can_modify_news(
            user_claims@,
            old(store)@.news_by_id(news_id as int),
        ),
        r is Ok ==> final(store)@ == delete_news_view(old(store)@, news_id as int),
        r matches Err(e) ==> ({
            let s = old(store)@;
            if !s.has_news(news_id as int) {
                e matches AppError::NotFoundError(m) && m@ == "News not found"@
            } else {
                e matches AppError::ForbiddenError(m) && m@
                    == "Not authorized to delete this news"@
            }
        }),
{
    let ni = match store.find_news(news_id) {
        Some(i) => i,
        None => {
            return Err(AppError::NotFoundError("News not found".to_owned()));
        },
    };
    proof {
        store@.lemma_news_index_is(news_id as int, ni as int);
    }
    if !user_claims.is_admin && user_claims.sub != store.news[ni].author_id {
        return Err(AppError::ForbiddenError("Not authorized to delete this news".to_owned()));
    }
    let ghost s0 = old(store)@;
    store.remove_news_assocs(news_id);
    let _removed = store.news.remove(ni);
    proof {
        assert(store@.news =~= s0.news.remove(ni as int));
        assert(store@ =~= delete_news_view(s0, news_id as int));
        lemma_delete_news_wf(s0, news_id as int);
    }
    Ok(())
}

} // verus!
