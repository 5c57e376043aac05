use vstd::prelude::*;

use crate::auth::{bcrypt_matches, credentials_valid, is_invalid_credentials_error, register_view};
use crate::errors::AppError;
use crate::models::{CategorySummaryView, LoginResponse, NewsCategoryView, NewsWithCategoriesView, UpdateNewsRequestView};
use crate::news::{
    create_news_allowed, create_news_view, delete_news_view, news_detail_view, update_news_view,
};
use crate::store::{
    assoc_rows, is_news_assoc, lemma_filter_all_kept, lemma_filter_none_kept, StoreView,
};

verus! {

/// Law: creating a news item and then reading its detail hands back
/// exactly the requested categories — the id list in request order, so in
/// particular the id set equals the requested set.
pub proof fn lemma_create_then_detail_categories(s: StoreView, data: NewsWithCategoriesView, now: int)
    requires
        s.wf(),
        create_news_allowed(s, data),
        s.next_news_id < i32::MAX,
    ensures
        create_news_view(s, data, now).has_news(s.next_news_id),
        news_detail_view(create_news_view(s, data, now), s.next_news_id).categories.map_values(
            |c: CategorySummaryView| c.id,
        ) == data.category_ids,
        news_detail_view(create_news_view(s, data, now), s.next_news_id).categories.map_values(
            |c: CategorySummaryView| c.id,
        ).to_set() == data.category_ids.to_set(),
{
    let s1 = create_news_view(s, data, now);
    let nid = s.next_news_id;
    let pred = is_news_assoc(nid);
    let rows = assoc_rows(nid, data.category_ids);
    assert(s1.news[s1.news.len() - 1].id == nid);
    assert(s1.has_news(nid));
    // No old association row carries the fresh id: every old row points at
    // a news item whose id is below the counter.
    assert forall|i: int| 0 <= i < s.news_categories.len() implies !pred(
        #[trigger] s.news_categories[i],
    ) by {
        assert(s.has_news(s.news_categories[i].news_id));
        let w = choose|w: int|
            0 <= w < s.news.len() && #[trigger] s.news[w].id == s.news_categories[i].news_id;
        assert(s.news[w].id < nid);
    }
    lemma_filter_none_kept(s.news_categories, pred);
    assert forall|i: int| 0 <= i < rows.len() implies pred(#[trigger] rows[i]) by {}
    lemma_filter_all_kept(rows, pred);
    Seq::<NewsCategoryView>::filter_distributes_over_add(s.news_categories, rows, pred);
    assert(s1.assocs_of_news(nid) =~= rows);
    assert(news_detail_view(s1, nid).categories.map_values(|c: CategorySummaryView| c.id)
        =~= data.category_ids);
}

/// Law: an update that replaces a news item's category set leaves exactly
/// the given ids associated with it, in the given order — in particular,
/// replacing with the empty list leaves it with no categories.
pub proof fn lemma_update_replaces_categories(
    s: StoreView,
    id: int,
    data: UpdateNewsRequestView,
    now: int,
    ids: Seq<int>,
)
    requires
        data.category_ids == Some(ids),
    ensures
        update_news_view(s, id, data, now).category_ids_of_news(id) == ids,
{
    let s1 = update_news_view(s, id, data, now);
    let pred = is_news_assoc(id);
    let kept = s.news_categories.filter(crate::store::not_news_assoc(id));
    let rows = assoc_rows(id, ids);
    assert forall|i: int| 0 <= i < kept.len() implies !pred(#[trigger] kept[i]) by {
        s.news_categories.lemma_filter_pred(crate::store::not_news_assoc(id), i);
    }
    lemma_filter_none_kept(kept, pred);
    assert forall|i: int| 0 <= i < rows.len() implies pred(#[trigger] rows[i]) by {}
    lemma_filter_all_kept(rows, pred);
    Seq::<NewsCategoryView>::filter_distributes_over_add(kept, rows, pred);
    assert(s1.assocs_of_news(id) =~= rows);
    assert(s1.category_ids_of_news(id) =~= ids);
}

/// Law: after deleting a news item, querying the association table by its
/// id yields the empty set of rows.
pub proof fn lemma_delete_news_removes_assocs(s: StoreView, id: int)
    requires
        s.wf(),
        s.has_news(id),
    ensures
        delete_news_view(s, id).assocs_of_news(id) == Seq::<NewsCategoryView>::empty(),
        delete_news_view(s, id).category_ids_of_news(id) == Seq::<int>::empty(),
{
    let s1 = delete_news_view(s, id);
    let pred = is_news_assoc(id);
    assert forall|i: int| 0 <= i < s1.news_categories.len() implies !pred(
        #[trigger] s1.news_categories[i],
    ) by {
        s.news_categories.lemma_filter_pred(crate::store::not_news_assoc(id), i);
    }
    lemma_filter_none_kept(s1.news_categories, pred);
    assert(s1.category_ids_of_news(id) =~= Seq::<int>::empty());
}

/// Law: an update that only supplies a new title leaves the item's content
/// and every news item's category associations unchanged.
pub proof fn lemma_update_title_only(s: StoreView, id: int, data: UpdateNewsRequestView, now: int)
    requires
        s.wf(),
        s.has_news(id),
        data.news_content is None,
        data.category_ids is None,
    ensures
        update_news_view(s, id, data, now).news_categories == s.news_categories,
        update_news_view(s, id, data, now).news_by_id(id).content == s.news_by_id(id).content,
        forall|n: int| #[trigger]
            update_news_view(s, id, data, now).category_ids_of_news(n)
                == s.category_ids_of_news(n),
{
    let s1 = update_news_view(s, id, data, now);
    let i = s.news_index(id);
    assert(0 <= i < s.news.len() && s.news[i].id == id);
    assert(s1.news[i].id == id);
    crate::news::lemma_update_news_wf(s, id, data, now);
    s1.lemma_news_index_is(id, i);
    s.lemma_news_index_is(id, i);
}

/// Law: after deleting a category, no association row references it, and
/// the news table itself is untouched — an article that carried the
/// category merely loses that tag.
pub proof fn lemma_delete_category_removes_assocs(s: StoreView, id: int)
    requires
        s.wf(),
        s.has_category(id),
    ensures
        crate::category::delete_category_view(s, id).assocs_of_category(id) == Seq::<
            NewsCategoryView,
        >::empty(),
        crate::category::delete_category_view(s, id).news == s.news,
{
    let s1 = crate::category::delete_category_view(s, id);
    let pred = crate::store::is_category_assoc(id);
    assert forall|i: int| 0 <= i < s1.news_categories.len() implies !pred(
        #[trigger] s1.news_categories[i],
    ) by {
        s.news_categories.lemma_filter_pred(crate::store::not_category_assoc(id), i);
    }
    lemma_filter_none_kept(s1.news_categories, pred);
}

/// Law: an identity that is neither the author nor an admin can never
/// modify a news item. With this, the contracts of `update_news` and
/// `delete_news` force every call by such an identity on an existing item
/// to fail with `ForbiddenError` — whatever the request carried — and to
/// leave the store exactly as it was.
pub proof fn lemma_stranger_never_modifies(
    s: StoreView,
    claims: crate::jwt::ClaimsView,
    id: int,
)
    requires
        s.has_news(id),
        !claims.is_admin,
        claims.sub != s.news_by_id(id).author_id,
    ensures
        !crate::news::can_modify_news(claims, s.news_by_id(id)),
{
}

/// Law: registering makes the credentials valid. Right after a successful
/// registration — which `register` promises leaves the store in
/// `register_view` of a hash that the password matches — the same
/// username and password pair passes the login check.
pub proof fn lemma_register_then_login(
    s0: StoreView,
    username: Seq<char>,
    password: Seq<char>,
    hash: Seq<char>,
    now: int,
)
    requires
        s0.wf(),
        !s0.has_username(username),
        bcrypt_matches(password, hash),
    ensures
        credentials_valid(register_view(s0, username, hash, now), username, password),
{
    let s1 = register_view(s0, username, hash, now);
    let last = s1.users.len() - 1;
    assert(s1.users[last].username == username);
    assert(s1.has_username(username));
    let j = s1.user_index_by_name(username);
    if j < last {
        assert(s1.users[j] == s0.users[j]);
        assert(s0.has_username(username));
    }
    assert(s1.user_by_name(username).password == hash);
}

/// Law: a login with an unknown username and a login with a known username
/// but a wrong password are both denied, and `login`'s contract pins every
/// such denial to one value shape — `InvalidCredentialsError` carrying the
/// words "Invalid credentials", observed as the same status code and the
/// same message — so the two cases cannot be told apart by the caller.
pub proof fn lemma_login_rejections_indistinguishable(
    s: StoreView,
    unknown_username: Seq<char>,
    unknown_password: Seq<char>,
    known_username: Seq<char>,
    wrong_password: Seq<char>,
    r1: Result<LoginResponse, AppError>,
    r2: Result<LoginResponse, AppError>,
)
    requires
        s.wf(),
        !s.has_username(unknown_username),
        s.has_username(known_username),
        !bcrypt_matches(wrong_password, s.user_by_name(known_username).password),
        !credentials_valid(s, unknown_username, unknown_password) ==> is_invalid_credentials_error(
            r1,
        ),
        !credentials_valid(s, known_username, wrong_password) ==> is_invalid_credentials_error(r2),
    ensures
        is_invalid_credentials_error(r1),
        is_invalid_credentials_error(r2),
        r1 matches Err(e1) ==> (r2 matches Err(e2) ==> e1.spec_observation()
            == e2.spec_observation()),
{
    assert(!credentials_valid(s, unknown_username, unknown_password));
    assert(!credentials_valid(s, known_username, wrong_password));
}

} // verus!
