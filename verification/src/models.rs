use vstd::prelude::*;
use vstd::string::StrSliceExecFns;

verus! {

// ---------------------------------------------------------------------------
// Stored records.
//
// Timestamps are seconds since the Unix epoch, handed in by the caller so
// that every contract can pin them exactly.
// ---------------------------------------------------------------------------

/// A registered account. `password` holds the bcrypt hash, never the
/// plaintext.
#[derive(Debug)]
pub struct User {
    pub id: i32,
    pub username: String,
    pub password: String,
    pub is_admin: bool,
    pub created_at: i64,
    pub updated_at: i64,
}

/// The data needed to insert a new account; the store assigns the id and
/// the timestamps.
#[derive(Debug)]
pub struct NewUser {
    pub username: String,
    pub password: String,
    pub is_admin: bool,
}

/// A named tag attachable to news items.
#[derive(Debug)]
pub struct Category {
    pub id: i32,
    pub name: String,
    pub description: Option<String>,
    pub created_at: i64,
    pub updated_at: i64,
}

/// The (id, name) projection of a category used in detail responses.
#[derive(Debug, PartialEq, Eq)]
pub struct CategorySummary {
    pub id: i32,
    pub name: String,
}

/// A full replacement of a category's name and description.
#[derive(Debug)]
pub struct UpdateCategoryRequest {
    pub name: String,
    pub description: String,
}

/// A published news item.
#[derive(Debug)]
pub struct News {
    pub id: i32,
    pub title: String,
    pub content: String,
    pub author_id: i32,
    pub created_at: i64,
    pub updated_at: i64,
}

/// One row of the news-category association table.
#[derive(Debug)]
pub struct NewsCategory {
    pub news_id: i32,
    pub category_id: i32,
}

/// A news item joined with the summaries of its categories.
#[derive(Debug)]
pub struct NewsDetail {
    pub id: i32,
    pub title: String,
    pub content: String,
    pub author_id: i32,
    pub created_at: i64,
    pub updated_at: i64,
    pub categories: Vec<CategorySummary>,
}

/// The (title, created_at) projection used by the listing endpoint.
#[derive(Debug)]
pub struct NewsSummary {
    pub title: String,
    pub created_at: i64,
}

/// The request body for creating a news item together with its categories.
#[derive(Debug)]
pub struct NewsWithCategories {
    pub title: String,
    pub content: String,
    pub author_id: i32,
    pub category_ids: Vec<i32>,
}

/// A partial update of a news item: absent fields are left unchanged, and
/// a present `category_ids` replaces the whole association set.
#[derive(Debug)]
pub struct UpdateNewsRequest {
    pub news_title: Option<String>,
    pub news_content: Option<String>,
    pub category_ids: Option<Vec<i32>>,
}

/// The response returned by a successful news update.
#[derive(Debug)]
pub struct UpdateNewsResponse {
    pub message: String,
    pub news: News,
}

/// The response returned by a successful category update.
#[derive(Debug)]
pub struct UpdateCategoryResponse {
    pub message: String,
    pub category: Category,
}

/// A username/password pair, used both for registration and login.
#[derive(Debug)]
pub struct LoginCredentials {
    pub username: String,
    pub password: String,
}

/// A successful login: the signed token and the account's admin flag.
#[derive(Debug)]
pub struct LoginResponse {
    pub token: String,
    pub is_admin: bool,
}

// ---------------------------------------------------------------------------
// Mathematical views of the records: plain integers and character
// sequences, which every contract speaks of.
// ---------------------------------------------------------------------------

#[verifier::ext_equal]
pub struct UserView {
    pub id: int,
    pub username: Seq<char>,
    pub password: Seq<char>,
    pub is_admin: bool,
    pub created_at: int,
    pub updated_at: int,
}

#[verifier::ext_equal]
pub struct CategoryView {
    pub id: int,
    pub name: Seq<char>,
    pub description: Option<Seq<char>>,
    pub created_at: int,
    pub updated_at: int,
}

#[verifier::ext_equal]
pub struct CategorySummaryView {
    pub id: int,
    pub name: Seq<char>,
}

#[verifier::ext_equal]
pub struct NewsView {
    pub id: int,
    pub title: Seq<char>,
    pub content: Seq<char>,
    pub author_id: int,
    pub created_at: int,
    pub updated_at: int,
}

#[verifier::ext_equal]
pub struct NewsCategoryView {
    pub news_id: int,
    pub category_id: int,
}

#[verifier::ext_equal]
pub struct NewsDetailView {
    pub id: int,
    pub title: Seq<char>,
    pub content: Seq<char>,
    pub author_id: int,
    pub created_at: int,
    pub updated_at: int,
    pub categories: Seq<CategorySummaryView>,
}

#[verifier::ext_equal]
pub struct NewsSummaryView {
    pub title: Seq<char>,
    pub created_at: int,
}

#[verifier::ext_equal]
pub struct NewsWithCategoriesView {
    pub title: Seq<char>,
    pub content: Seq<char>,
    pub author_id: int,
    pub category_ids: Seq<int>,
}

#[verifier::ext_equal]
pub struct UpdateNewsRequestView {
    pub news_title: Option<Seq<char>>,
    pub news_content: Option<Seq<char>>,
    pub category_ids: Option<Seq<int>>,
}

#[verifier::ext_equal]
pub struct UpdateCategoryRequestView {
    pub name: Seq<char>,
    pub description: Seq<char>,
}

impl View for User {
    type V = UserView;

    open spec fn view(&self) -> UserView {
        UserView {
            id: self.id as int,
            username: self.username@,
            password: self.password@,
            is_admin: self.is_admin,
            created_at: self.created_at as int,
            updated_at: self.updated_at as int,
        }
    }
}

impl View for Category {
    type V = CategoryView;

    open spec fn view(&self) -> CategoryView {
        CategoryView {
            id: self.id as int,
            name: self.name@,
            description: match self.description {
                Some(d) => Some(d@),
                None => None,
            },
            created_at: self.created_at as int,
            updated_at: self.updated_at as int,
        }
    }
}

impl View for CategorySummary {
    type V = CategorySummaryView;

    open spec fn view(&self) -> CategorySummaryView {
        CategorySummaryView { id: self.id as int, name: self.name@ }
    }
}

impl View for News {
    type V = NewsView;

    open spec fn view(&self) -> NewsView {
        NewsView {
            id: self.id as int,
            title: self.title@,
            content: self.content@,
            author_id: self.author_id as int,
            created_at: self.created_at as int,
            updated_at: self.updated_at as int,
        }
    }
}

impl View for NewsCategory {
    type V = NewsCategoryView;

    open spec fn view(&self) -> NewsCategoryView {
        NewsCategoryView { news_id: self.news_id as int, category_id: self.category_id as int }
    }
}

impl View for NewsDetail {
    type V = NewsDetailView;

    open spec fn view(&self) -> NewsDetailView {
        NewsDetailView {
            id: self.id as int,
            title: self.title@,
            content: self.content@,
            author_id: self.author_id as int,
            created_at: self.created_at as int,
            updated_at: self.updated_at as int,
            categories: self.categories@.map_values(|c: CategorySummary| c@),
        }
    }
}

impl View for NewsSummary {
    type V = NewsSummaryView;

    open spec fn view(&self) -> NewsSummaryView {
        NewsSummaryView { title: self.title@, created_at: self.created_at as int }
    }
}

impl View for NewsWithCategories {
    type V = NewsWithCategoriesView;

    open spec fn view(&self) -> NewsWithCategoriesView {
        NewsWithCategoriesView {
            title: self.title@,
            content: self.content@,
            author_id: self.author_id as int,
            category_ids: self.category_ids@.map_values(|c: i32| c as int),
        }
    }
}

impl View for UpdateNewsRequest {
    type V = UpdateNewsRequestView;

    open spec fn view(&self) -> UpdateNewsRequestView {
        UpdateNewsRequestView {
            news_title: match self.news_title {
                Some(t) => Some(t@),
                None => None,
            },
            news_content: match self.news_content {
                Some(c) => Some(c@),
                None => None,
            },
            category_ids: match self.category_ids {
                Some(ids) => Some(ids@.map_values(|c: i32| c as int)),
                None => None,
            },
        }
    }
}

impl View for UpdateCategoryRequest {
    type V = UpdateCategoryRequestView;

    open spec fn view(&self) -> UpdateCategoryRequestView {
        UpdateCategoryRequestView { name: self.name@, description: self.description@ }
    }
}

impl News {
    /// Copies the record.
    pub fn duplicate(&self) -> (r: News)
        ensures
            r@ == self@,
    {
        News {
            id: self.id,
            title: self.title.clone(),
            content: self.content.clone(),
            author_id: self.author_id,
            created_at: self.created_at,
            updated_at: self.updated_at,
        }
    }
}

impl Category {
    /// Copies the record.
    pub fn duplicate(&self) -> (r: Category)
        ensures
            r@ == self@,
    {
        Category {
            id: self.id,
            name: self.name.clone(),
            description: match &self.description {
                Some(d) => Some(d.clone()),
                None => None,
            },
            created_at: self.created_at,
            updated_at: self.updated_at,
        }
    }
}

// ---------------------------------------------------------------------------
// Validation bounds.
//
// Titles are 1 to 100 characters and content is non-empty. Category names
// are 3 to 100 characters and category descriptions 3 to 255, enforced the
// same way by every operation that accepts them.
// ---------------------------------------------------------------------------

/// The view of an optional string.
pub open spec fn opt_str_view(o: Option<String>) -> Option<Seq<char>> {
    match o {
        Some(s) => Some(s@),
        None => None,
    }
}

pub open spec fn title_valid(title: Seq<char>) -> bool {
    1 <= title.len() <= 100
}

pub open spec fn content_valid(content: Seq<char>) -> bool {
    content.len() >= 1
}

pub open spec fn category_name_valid(name: Seq<char>) -> bool {
    3 <= name.len() <= 100
}

pub open spec fn category_description_valid(description: Seq<char>) -> bool {
    3 <= description.len() <= 255
}

/// Checks that a title is between 1 and 100 characters.
pub fn check_title(title: &String) -> (r: bool)
    ensures
        r == title_valid(title@),
{
    let n = title.as_str().unicode_len();
    1 <= n && n <= 100
}

/// Checks that content is non-empty.
pub fn check_content(content: &String) -> (r: bool)
    ensures
        r == content_valid(content@),
{
    !content.as_str().is_empty()
}

/// Checks that a category name is between 3 and 100 characters.
pub fn check_category_name(name: &String) -> (r: bool)
    ensures
        r == category_name_valid(name@),
{
    let n = name.as_str().unicode_len();
    3 <= n && n <= 100
}

/// Checks that a category description is between 3 and 255 characters.
pub fn check_category_description(description: &String) -> (r: bool)
    ensures
        r == category_description_valid(description@),
{
    let n = description.as_str().unicode_len();
    3 <= n && n <= 255
}

} // verus!
