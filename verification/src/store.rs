use vstd::prelude::*;

use crate::models::{
    Category, CategoryView, News, NewsCategory, NewsCategoryView, NewsView, User, UserView,
};

verus! {

// ---------------------------------------------------------------------------
// The store model: four relational tables as sequences of record views,
// plus the next id each table will assign.
// ---------------------------------------------------------------------------

#[verifier::ext_equal]
pub struct StoreView {
    pub users: Seq<UserView>,
    pub categories: Seq<CategoryView>,
    pub news: Seq<NewsView>,
    pub news_categories: Seq<NewsCategoryView>,
    pub next_user_id: int,
    pub next_category_id: int,
    pub next_news_id: int,
}

impl StoreView {
    /// Well-formedness of the store:
    /// - each table's rows are ordered by strictly increasing id, so ids are
    ///   unique and iteration order is ascending-id order;
    /// - every id is at least 1 and below the table's next id, which fits
    ///   in `i32`;
    /// - usernames are unique;
    /// - association rows are pairwise distinct and never dangle: both ends
    ///   reference an existing row.
    pub open spec fn wf(self) -> bool {
        &&& forall|i: int, j: int|
            0 <= i < j < self.users.len() ==> self.users[i].id < self.users[j].id
        &&& forall|i: int, j: int|
            0 <= i < j < self.users.len() ==> self.users[i].username != self.users[j].username
        &&& forall|i: int| 0 <= i < self.users.len() ==> 1 <= #[trigger] self.users[i].id
        &&& forall|i: int|
            0 <= i < self.users.len() ==> #[trigger] self.users[i].id < self.next_user_id
        &&& 1 <= self.next_user_id <= i32::MAX
        &&& forall|i: int, j: int|
            0 <= i < j < self.categories.len() ==> self.categories[i].id < self.categories[j].id
        &&& forall|i: int| 0 <= i < self.categories.len() ==> 1 <= #[trigger] self.categories[i].id
        &&& forall|i: int|
            0 <= i < self.categories.len() ==> #[trigger] self.categories[i].id
                < self.next_category_id
        &&& 1 <= self.next_category_id <= i32::MAX
        &&& forall|i: int, j: int|
            0 <= i < j < self.news.len() ==> self.news[i].id < self.news[j].id
        &&& forall|i: int| 0 <= i < self.news.len() ==> 1 <= #[trigger] self.news[i].id
        &&& forall|i: int|
            0 <= i < self.news.len() ==> #[trigger] self.news[i].id < self.next_news_id
        &&& 1 <= self.next_news_id <= i32::MAX
        &&& forall|i: int, j: int|
            0 <= i < j < self.news_categories.len() ==> !(self.news_categories[i].news_id
                == self.news_categories[j].news_id && self.news_categories[i].category_id
                == self.news_categories[j].category_id)
        &&& forall|i: int|
            0 <= i < self.news_categories.len() ==> self.has_news(
                #[trigger] self.news_categories[i].news_id,
            )
        &&& forall|i: int|
            0 <= i < self.news_categories.len() ==> self.has_category(
                #[trigger] self.news_categories[i].category_id,
            )
    }

    /// The empty store, ready to assign id 1 in every table.
    pub open spec fn empty() -> StoreView {
        StoreView {
            users: Seq::empty(),
            categories: Seq::empty(),
            news: Seq::empty(),
            news_categories: Seq::empty(),
            next_user_id: 1,
            next_category_id: 1,
            next_news_id: 1,
        }
    }

    pub open spec fn has_news(self, id: int) -> bool {
        exists|i: int| 0 <= i < self.news.len() && #[trigger] self.news[i].id == id
    }

    pub open spec fn news_index(self, id: int) -> int {
        choose|i: int| 0 <= i < self.news.len() && #[trigger] self.news[i].id == id
    }

    pub open spec fn news_by_id(self, id: int) -> NewsView {
        self.news[self.news_index(id)]
    }

    pub open spec fn has_category(self, id: int) -> bool {
        exists|i: int| 0 <= i < self.categories.len() && #[trigger] self.categories[i].id == id
    }

    pub open spec fn category_index(self, id: int) -> int {
        choose|i: int| 0 <= i < self.categories.len() && #[trigger] self.categories[i].id == id
    }

    pub open spec fn category_by_id(self, id: int) -> CategoryView {
        self.categories[self.category_index(id)]
    }

    pub open spec fn has_username(self, username: Seq<char>) -> bool {
        exists|i: int| 0 <= i < self.users.len() && #[trigger] self.users[i].username == username
    }

    pub open spec fn user_index_by_name(self, username: Seq<char>) -> int {
        choose|i: int| 0 <= i < self.users.len() && #[trigger] self.users[i].username == username
    }

    pub open spec fn user_by_name(self, username: Seq<char>) -> UserView {
        self.users[self.user_index_by_name(username)]
    }

    /// The association rows of one news item, in table order.
    pub open spec fn assocs_of_news(self, id: int) -> Seq<NewsCategoryView> {
        self.news_categories.filter(is_news_assoc(id))
    }

    /// The category ids associated with one news item, in table order.
    pub open spec fn category_ids_of_news(self, id: int) -> Seq<int> {
        self.assocs_of_news(id).map_values(|a: NewsCategoryView| a.category_id)
    }

    /// The association rows that reference one category, in table order.
    pub open spec fn assocs_of_category(self, id: int) -> Seq<NewsCategoryView> {
        self.news_categories.filter(is_category_assoc(id))
    }
}

/// Holds of the association rows of the news item with the given id.
pub open spec fn is_news_assoc(id: int) -> spec_fn(NewsCategoryView) -> bool {
    |a: NewsCategoryView| a.news_id == id
}

/// Holds of the association rows of every other news item.
pub open spec fn not_news_assoc(id: int) -> spec_fn(NewsCategoryView) -> bool {
    |a: NewsCategoryView| a.news_id != id
}

/// Holds of the association rows that reference the category with the
/// given id.
pub open spec fn is_category_assoc(id: int) -> spec_fn(NewsCategoryView) -> bool {
    |a: NewsCategoryView| a.category_id == id
}

/// Holds of the association rows that reference every other category.
pub open spec fn not_category_assoc(id: int) -> spec_fn(NewsCategoryView) -> bool {
    |a: NewsCategoryView| a.category_id != id
}

/// One association row per category id, all pairing the same news id.
pub open spec fn assoc_rows(news_id: int, category_ids: Seq<int>) -> Seq<NewsCategoryView> {
    category_ids.map_values(|c: int| NewsCategoryView { news_id: news_id, category_id: c })
}

// ---------------------------------------------------------------------------
// Facts about filtered tables and about row lookups under `wf`.
// ---------------------------------------------------------------------------

/// Filtering a sequence extended by one element keeps the element exactly
/// when the predicate holds of it.
pub proof fn lemma_filter_push<A>(s: Seq<A>, x: A, pred: spec_fn(A) -> bool)
    ensures
        s.push(x).filter(pred) == if pred(x) {
            s.filter(pred).push(x)
        } else {
            s.filter(pred)
        },
{
    reveal(Seq::filter);
    assert(s.push(x).drop_last() =~= s);
    assert(s.push(x).last() == x);
}

/// Filtering keeps a sequence whole when the predicate holds everywhere.
pub proof fn lemma_filter_all_kept<A>(s: Seq<A>, pred: spec_fn(A) -> bool)
    requires
        forall|i: int| 0 <= i < s.len() ==> pred(#[trigger] s[i]),
    ensures
        s.filter(pred) == s,
    decreases s.len(),
{
    reveal(Seq::filter);
    if s.len() == 0 {
        assert(s.filter(pred) =~= s);
    } else {
        lemma_filter_all_kept(s.drop_last(), pred);
        assert(s.filter(pred) =~= s);
    }
}

/// Hands back, for a position in a filtered sequence, a position in the
/// original sequence holding the same element.
pub proof fn lemma_filter_element_index<A>(s: Seq<A>, pred: spec_fn(A) -> bool, i: int) -> (j: int)
    requires
        0 <= i < s.filter(pred).len(),
    ensures
        0 <= j < s.len(),
        s[j] == s.filter(pred)[i],
        pred(s[j]),
{
    s.lemma_filter_pred(pred, i);
    assert(s.filter(pred).contains(s.filter(pred)[i]));
    s.lemma_filter_contains_rev(pred, s.filter(pred)[i]);
    let j = choose|j: int| 0 <= j < s.len() && s[j] == s.filter(pred)[i];
    j
}

/// Filtering a duplicate-free sequence leaves it duplicate-free.
pub proof fn lemma_filter_no_duplicates<A>(s: Seq<A>, pred: spec_fn(A) -> bool)
    requires
        s.no_duplicates(),
    ensures
        s.filter(pred).no_duplicates(),
    decreases s.len(),
{
    reveal(Seq::filter);
    if s.len() > 0 {
        let d = s.drop_last();
        assert(d.no_duplicates());
        lemma_filter_no_duplicates(d, pred);
        if pred(s.last()) {
            assert forall|i: int| 0 <= i < d.filter(pred).len() implies d.filter(pred)[i]
                != s.last() by {
                let w = lemma_filter_element_index(d, pred, i);
                assert(d[w] == s[w]);
                assert(s[w] != s[s.len() - 1]);
            }
            assert(s.filter(pred) == d.filter(pred).push(s.last()));
        }
    }
}

/// Filtering empties a sequence when the predicate holds nowhere.
pub proof fn lemma_filter_none_kept<A>(s: Seq<A>, pred: spec_fn(A) -> bool)
    requires
        forall|i: int| 0 <= i < s.len() ==> !pred(#[trigger] s[i]),
    ensures
        s.filter(pred) == Seq::<A>::empty(),
{
    assert(s.all(|x: A| !pred(x)));
    s.lemma_all_neg_filter_empty(pred);
    assert(s.filter(pred) =~= Seq::<A>::empty());
}

impl StoreView {
    /// Under `wf`, a news id determines its row index.
    pub proof fn lemma_news_index_is(self, id: int, i: int)
        requires
            self.wf(),
            0 <= i < self.news.len(),
            self.news[i].id == id,
        ensures
            self.has_news(id),
            self.news_index(id) == i,
            self.news_by_id(id) == self.news[i],
    {
        assert(self.has_news(id));
        let j = self.news_index(id);
        if i < j {
            assert(self.news[i].id < self.news[j].id);
        } else if j < i {
            assert(self.news[j].id < self.news[i].id);
        }
    }

    /// Under `wf`, a category id determines its row index.
    pub proof fn lemma_category_index_is(self, id: int, i: int)
        requires
            self.wf(),
            0 <= i < self.categories.len(),
            self.categories[i].id == id,
        ensures
            self.has_category(id),
            self.category_index(id) == i,
            self.category_by_id(id) == self.categories[i],
    {
        assert(self.has_category(id));
        let j = self.category_index(id);
        if i < j {
            assert(self.categories[i].id < self.categories[j].id);
        } else if j < i {
            assert(self.categories[j].id < self.categories[i].id);
        }
    }

    /// News lookups depend only on the ids in the news table: two stores
    /// whose news rows carry the same ids in the same places agree on
    /// `has_news`.
    pub proof fn lemma_news_lookups(self, other: StoreView)
        requires
            other.news.len() == self.news.len(),
            forall|i: int| 0 <= i < self.news.len() ==> other.news[i].id == #[trigger] self.news[i].id,
        ensures
            forall|id: int| #[trigger] other.has_news(id) <==> self.has_news(id),
    {
        assert forall|id: int| #[trigger] other.has_news(id) <==> self.has_news(id) by {
            if self.has_news(id) {
                let j = choose|j: int|
                    0 <= j < self.news.len() && #[trigger] self.news[j].id == id;
                assert(other.news[j].id == id);
            }
            if other.has_news(id) {
                let j = choose|j: int|
                    0 <= j < other.news.len() && #[trigger] other.news[j].id == id;
                assert(self.news[j].id == id);
            }
        }
    }

    /// Category lookups depend only on the ids in the category table.
    pub proof fn lemma_category_lookups(self, other: StoreView)
        requires
            other.categories.len() == self.categories.len(),
            forall|i: int|
                0 <= i < self.categories.len() ==> other.categories[i].id
                    == #[trigger] self.categories[i].id,
        ensures
            forall|id: int| #[trigger] other.has_category(id) <==> self.has_category(id),
    {
        assert forall|id: int| #[trigger] other.has_category(id) <==> self.has_category(id) by {
            if self.has_category(id) {
                let j = choose|j: int|
                    0 <= j < self.categories.len() && #[trigger] self.categories[j].id == id;
                assert(other.categories[j].id == id);
            }
            if other.has_category(id) {
                let j = choose|j: int|
                    0 <= j < other.categories.len() && #[trigger] other.categories[j].id == id;
                assert(self.categories[j].id == id);
            }
        }
    }

    /// Under `wf`, a username determines its row index.
    pub proof fn lemma_user_index_is(self, username: Seq<char>, i: int)
        requires
            self.wf(),
            0 <= i < self.users.len(),
            self.users[i].username == username,
        ensures
            self.has_username(username),
            self.user_index_by_name(username) == i,
            self.user_by_name(username) == self.users[i],
    {
        assert(self.has_username(username));
        let j = self.user_index_by_name(username);
        if i < j {
            assert(self.users[i].username != self.users[j].username);
        } else if j < i {
            assert(self.users[j].username != self.users[i].username);
        }
    }
}

// ---------------------------------------------------------------------------
// The executable store.
// ---------------------------------------------------------------------------

/// An in-memory table store holding the four tables of the service:
/// users, categories, news, and the news-category association table.
///
/// Every mutation keeps [`StoreView::wf`]. Rows sit in ascending-id order,
/// and ids are assigned from per-table counters starting at 1.
#[derive(Debug)]
pub struct Store {
    pub users: Vec<User>,
    pub categories: Vec<Category>,
    pub news: Vec<News>,
    pub news_categories: Vec<NewsCategory>,
    pub next_user_id: i32,
    pub next_category_id: i32,
    pub next_news_id: i32,
}

impl View for Store {
    type V = StoreView;

    open spec fn view(&self) -> StoreView {
        StoreView {
            users: self.users@.map_values(|u: User| u@),
            categories: self.categories@.map_values(|c: Category| c@),
            news: self.news@.map_values(|n: News| n@),
            news_categories: self.news_categories@.map_values(|a: NewsCategory| a@),
            next_user_id: self.next_user_id as int,
            next_category_id: self.next_category_id as int,
            next_news_id: self.next_news_id as int,
        }
    }
}

impl Store {
    /// Creates an empty store.
    pub fn new() -> (r: Store)
        ensures
            r@ == StoreView::empty(),
            r@.wf(),
    {
        let r = Store {
            users: Vec::new(),
            categories: Vec::new(),
            news: Vec::new(),
            news_categories: Vec::new(),
            next_user_id: 1,
            next_category_id: 1,
            next_news_id: 1,
        };
        proof {
            assert(r@ =~= StoreView::empty());
        }
        r
    }

    /// Looks a news row up by id.
    pub(crate) fn find_news(&self, id: i32) -> (r: Option<usize>)
        ensures
            match r {
                Some(i) => i < self.news.len() && self@.news[i as int].id == id as int
                    && self@.has_news(id as int),
                None => !self@.has_news(id as int),
            },
    {
        let mut i: usize = 0;
        while i < self.news.len()
            invariant
                i <= self.news.len(),
                forall|j: int| 0 <= j < i ==> self@.news[j].id != id as int,
            decreases self.news.len() - i,
        {
            if self.news[i].id == id {
                return Some(i);
            }
            i += 1;
        }
        None
    }

    /// Looks a category row up by id.
    pub(crate) fn find_category(&self, id: i32) -> (r: Option<usize>)
        ensures
            match r {
                Some(i) => i < self.categories.len() && self@.categories[i as int].id == id as int
                    && self@.has_category(id as int),
                None => !self@.has_category(id as int),
            },
    {
        let mut i: usize = 0;
        while i < self.categories.len()
            invariant
                i <= self.categories.len(),
                forall|j: int| 0 <= j < i ==> self@.categories[j].id != id as int,
            decreases self.categories.len() - i,
        {
            if self.categories[i].id == id {
                return Some(i);
            }
            i += 1;
        }
        None
    }

    /// Looks a user row up by username.
    pub(crate) fn find_user_by_name(&self, username: &String) -> (r: Option<usize>)
        ensures
            match r {
                Some(i) => i < self.users.len() && self@.users[i as int].username == username@
                    && self@.has_username(username@),
                None => !self@.has_username(username@),
            },
    {
        let mut i: usize = 0;
        while i < self.users.len()
            invariant
                i <= self.users.len(),
                forall|j: int| 0 <= j < i ==> self@.users[j].username != username@,
            decreases self.users.len() - i,
        {
            if self.users[i].username == *username {
                proof {
                    assert(self.users@[i as int]@.username == username@);
                    assert(self@.users[i as int].username == username@);
                    assert(self@.has_username(username@));
                }
                return Some(i);
            }
            i += 1;
        }
        None
    }

    /// True when every id in the list names an existing category.
    pub(crate) fn all_categories_exist(&self, ids: &Vec<i32>) -> (r: bool)
        ensures
            r == forall|i: int|
                0 <= i < ids@.len() ==> self@.has_category(#[trigger] ids@[i] as int),
    {
        let mut i: usize = 0;
        while i < ids.len()
            invariant
                i <= ids.len(),
                forall|j: int| 0 <= j < i ==> self@.has_category(#[trigger] ids@[j] as int),
            decreases ids.len() - i,
        {
            if self.find_category(ids[i]).is_none() {
                return false;
            }
            i += 1;
        }
        true
    }

    /// Appends one association row per category id, pairing each with the
    /// given news id.
    pub(crate) fn push_assoc_rows(&mut self, news_id: i32, category_ids: &Vec<i32>)
        ensures
            final(self)@ == (StoreView {
                news_categories: old(self)@.news_categories + assoc_rows(
                    news_id as int,
                    category_ids@.map_values(|c: i32| c as int),
                ),
                ..old(self)@
            }),
    {
        let ghost s0 = self@;
        let ghost mapped = category_ids@.map_values(|c: i32| c as int);
        proof {
            assert(s0.news_categories + assoc_rows(news_id as int, mapped.subrange(0, 0))
                =~= s0.news_categories);
        }
        let mut k: usize = 0;
        while k < category_ids.len()
            invariant
                k <= category_ids.len(),
                mapped == category_ids@.map_values(|c: i32| c as int),
                self@ == (StoreView {
                    news_categories: s0.news_categories + assoc_rows(
                        news_id as int,
                        mapped.subrange(0, k as int),
                    ),
                    ..s0
                }),
            decreases category_ids.len() - k,
        {
            let ghost pre = self@;
            self.news_categories.push(
                NewsCategory { news_id, category_id: category_ids[k] },
            );
            proof {
                let row = NewsCategoryView {
                    news_id: news_id as int,
                    category_id: category_ids@[k as int] as int,
                };
                assert(self@.news_categories =~= pre.news_categories.push(row));
                assert(mapped.subrange(0, k + 1) =~= mapped.subrange(0, k as int).push(
                    mapped[k as int],
                ));
                assert(assoc_rows(news_id as int, mapped.subrange(0, k + 1)) =~= assoc_rows(
                    news_id as int,
                    mapped.subrange(0, k as int),
                ).push(row));
                assert(self@.news_categories =~= s0.news_categories + assoc_rows(
                    news_id as int,
                    mapped.subrange(0, k + 1),
                ));
                assert(self@ =~= (StoreView {
                    news_categories: s0.news_categories + assoc_rows(
                        news_id as int,
                        mapped.subrange(0, k + 1),
                    ),
                    ..s0
                }));
            }
            k += 1;
        }
        proof {
            assert(mapped.subrange(0, mapped.len() as int) =~= mapped);
        }
    }

    /// Removes every association row of the given news item.
    pub(crate) fn remove_news_assocs(&mut self, news_id: i32)
        ensures
            final(self)@ == (StoreView {
                news_categories: old(self)@.news_categories.filter(
                    not_news_assoc(news_id as int),
                ),
                ..old(self)@
            }),
    {
        let ghost s0 = self@;
        let ghost pred = not_news_assoc(news_id as int);
        let mut kept: Vec<NewsCategory> = Vec::new();
        proof {
            assert(kept@.map_values(|a: NewsCategory| a@) =~= s0.news_categories.subrange(
                0,
                0,
            ).filter(pred));
        }
        let mut k: usize = 0;
        while k < self.news_categories.len()
            invariant
                k <= self.news_categories.len(),
                self@ == s0,
                pred == not_news_assoc(news_id as int),
                kept@.map_values(|a: NewsCategory| a@) == s0.news_categories.subrange(
                    0,
                    k as int,
                ).filter(pred),
            decreases self.news_categories.len() - k,
        {
            let keep_it = self.news_categories[k].news_id != news_id;
            if keep_it {
                kept.push(
                    NewsCategory {
                        news_id: self.news_categories[k].news_id,
                        category_id: self.news_categories[k].category_id,
                    },
                );
            }
            proof {
                assert(s0.news_categories.subrange(0, k + 1) =~= s0.news_categories.subrange(
                    0,
                    k as int,
                ).push(s0.news_categories[k as int]));
                lemma_filter_push(
                    s0.news_categories.subrange(0, k as int),
                    s0.news_categories[k as int],
                    pred,
                );
                assert(pred(s0.news_categories[k as int]) == keep_it);
                assert(kept@.map_values(|a: NewsCategory| a@) =~= s0.news_categories.subrange(
                    0,
                    k + 1,
                ).filter(pred));
            }
            k += 1;
        }
        self.news_categories = kept;
        proof {
            assert(s0.news_categories.subrange(0, s0.news_categories.len() as int)
                =~= s0.news_categories);
            assert(self@ =~= (StoreView {
                news_categories: s0.news_categories.filter(pred),
                ..s0
            }));
        }
    }

    /// Removes every association row that references the given category.
    pub(crate) fn remove_category_assocs(&mut self, category_id: i32)
        ensures
            final(self)@ == (StoreView {
                news_categories: old(self)@.news_categories.filter(
                    not_category_assoc(category_id as int),
                ),
                ..old(self)@
            }),
    {
        let ghost s0 = self@;
        let ghost pred = not_category_assoc(category_id as int);
        let mut kept: Vec<NewsCategory> = Vec::new();
        proof {
            assert(kept@.map_values(|a: NewsCategory| a@) =~= s0.news_categories.subrange(
                0,
                0,
            ).filter(pred));
        }
        let mut k: usize = 0;
        while k < self.news_categories.len()
            invariant
                k <= self.news_categories.len(),
                self@ == s0,
                pred == not_category_assoc(category_id as int),
                kept@.map_values(|a: NewsCategory| a@) == s0.news_categories.subrange(
                    0,
                    k as int,
                ).filter(pred),
            decreases self.news_categories.len() - k,
        {
            let keep_it = self.news_categories[k].category_id != category_id;
            if keep_it {
                kept.push(
                    NewsCategory {
                        news_id: self.news_categories[k].news_id,
                        category_id: self.news_categories[k].category_id,
                    },
                );
            }
            proof {
                assert(s0.news_categories.subrange(0, k + 1) =~= s0.news_categories.subrange(
                    0,
                    k as int,
                ).push(s0.news_categories[k as int]));
                lemma_filter_push(
                    s0.news_categories.subrange(0, k as int),
                    s0.news_categories[k as int],
                    pred,
                );
                assert(pred(s0.news_categories[k as int]) == keep_it);
                assert(kept@.map_values(|a: NewsCategory| a@) =~= s0.news_categories.subrange(
                    0,
                    k + 1,
                ).filter(pred));
            }
            k += 1;
        }
        self.news_categories = kept;
        proof {
            assert(s0.news_categories.subrange(0, s0.news_categories.len() as int)
                =~= s0.news_categories);
            assert(self@ =~= (StoreView {
                news_categories: s0.news_categories.filter(pred),
                ..s0
            }));
        }
    }

    /// True when the list holds no id twice.
    pub(crate) fn ids_distinct(ids: &Vec<i32>) -> (r: bool)
        ensures
            r == ids@.map_values(|c: i32| c as int).no_duplicates(),
    {
        let ghost mapped = ids@.map_values(|c: i32| c as int);
        let mut i: usize = 0;
        while i < ids.len()
            invariant
                i <= ids.len(),
                mapped == ids@.map_values(|c: i32| c as int),
                forall|p: int, q: int| 0 <= p < q < i ==> mapped[p] != mapped[q],
                forall|p: int, q: int| 0 <= p < i <= q < ids@.len() ==> mapped[p] != mapped[q],
            decreases ids.len() - i,
        {
            let mut j: usize = i + 1;
            while j < ids.len()
                invariant
                    i < j <= ids.len(),
                    mapped == ids@.map_values(|c: i32| c as int),
                    forall|q: int| i < q < j ==> mapped[i as int] != mapped[q],
                decreases ids.len() - j,
            {
                if ids[i] == ids[j] {
                    proof {
                        assert(mapped[i as int] == mapped[j as int]);
                        assert(!mapped.no_duplicates());
                    }
                    return false;
                }
                j += 1;
            }
            i += 1;
        }
        true
    }
}

} // verus!
