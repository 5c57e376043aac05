use news_api::errors::AppError;
use news_api::category::{create_category, delete_category};
use news_api::jwt::Claims;
use news_api::models::{NewsWithCategories, UpdateNewsRequest};
use news_api::news::{create_news, delete_news, get_news_detail, update_news};
use news_api::store::Store;

fn admin() -> Claims {
    Claims { sub: 1, username: "admin".to_string(), is_admin: true, exp: 0 }
}

fn author(sub: i32) -> Claims {
    Claims { sub, username: format!("author{}", sub), is_admin: false, exp: 0 }
}

/// Creating an article and reading it back hands out exactly the requested
/// category id set, whatever the order.
#[test]
fn created_article_detail_reports_requested_category_set() {
    let mut store = Store::new();
    let tech = create_category(&mut store, "Tech".to_string(), None, 10).unwrap();
    let science = create_category(&mut store, "Science".to_string(), None, 10).unwrap();
    let sport = create_category(&mut store, "Sport".to_string(), None, 10).unwrap();

    let data = NewsWithCategories {
        title: "Headline".to_string(),
        content: "Body".to_string(),
        author_id: 3,
        category_ids: vec![sport.id, tech.id],
    };
    let article = create_news(&mut store, &data, 20).unwrap();

    let detail = get_news_detail(&store, article.id).unwrap();
    let mut got: Vec<i32> = detail.categories.iter().map(|c| c.id).collect();
    let mut want = vec![sport.id, tech.id];
    got.sort();
    want.sort();
    assert_eq!(got, want);
    assert!(!got.contains(&science.id));
}

/// Deleting an article removes all of its association rows.
#[test]
fn deleted_article_leaves_no_association_rows() {
    let mut store = Store::new();
    let tech = create_category(&mut store, "Tech".to_string(), None, 10).unwrap();
    let data = NewsWithCategories {
        title: "Headline".to_string(),
        content: "Body".to_string(),
        author_id: 3,
        category_ids: vec![tech.id],
    };
    let article = create_news(&mut store, &data, 20).unwrap();
    assert_eq!(store.news_categories.len(), 1);

    delete_news(&mut store, &author(3), article.id).unwrap();
    assert!(store.news_categories.iter().all(|a| a.news_id != article.id));
    assert!(store.news_categories.is_empty());
}

/// An update that only supplies a title leaves content and associations
/// unchanged.
#[test]
fn title_only_update_keeps_content_and_categories() {
    let mut store = Store::new();
    let tech = create_category(&mut store, "Tech".to_string(), None, 10).unwrap();
    let data = NewsWithCategories {
        title: "Old Title".to_string(),
        content: "Old Content".to_string(),
        author_id: 3,
        category_ids: vec![tech.id],
    };
    let article = create_news(&mut store, &data, 20).unwrap();

    let request = UpdateNewsRequest {
        news_title: Some("New Title".to_string()),
        news_content: None,
        category_ids: None,
    };
    let updated = update_news(&mut store, &author(3), article.id, &request, 30).unwrap();
    assert_eq!(updated.title, "New Title");
    assert_eq!(updated.content, "Old Content");

    let detail = get_news_detail(&store, article.id).unwrap();
    assert_eq!(detail.content, "Old Content");
    let got: Vec<i32> = detail.categories.iter().map(|c| c.id).collect();
    assert_eq!(got, vec![tech.id]);
}

/// A non-author, non-admin identity can neither update nor delete, and the
/// store stays exactly as it was.
#[test]
fn strangers_cannot_update_or_delete() {
    let mut store = Store::new();
    let data = NewsWithCategories {
        title: "Headline".to_string(),
        content: "Body".to_string(),
        author_id: 3,
        category_ids: Vec::new(),
    };
    let article = create_news(&mut store, &data, 20).unwrap();
    let stranger = author(4);

    let request = UpdateNewsRequest {
        news_title: Some("Hijacked".to_string()),
        news_content: None,
        category_ids: None,
    };
    let update_result = update_news(&mut store, &stranger, article.id, &request, 30);
    assert_eq!(
        update_result.unwrap_err(),
        AppError::ForbiddenError("Not authorized!".to_string())
    );

    let delete_result = delete_news(&mut store, &stranger, article.id);
    assert_eq!(
        delete_result.unwrap_err(),
        AppError::ForbiddenError("Not authorized to delete this news".to_string())
    );

    let detail = get_news_detail(&store, article.id).unwrap();
    assert_eq!(detail.title, "Headline");
    assert_eq!(detail.content, "Body");
    assert_eq!(detail.updated_at, 20);
    assert_eq!(store.news.len(), 1);
}

/// Authorization outranks validation: a stranger is told "forbidden" even
/// when the fields they sent are themselves invalid.
#[test]
fn stranger_with_invalid_fields_is_still_forbidden() {
    let mut store = Store::new();
    let data = NewsWithCategories {
        title: "Headline".to_string(),
        content: "Body".to_string(),
        author_id: 3,
        category_ids: Vec::new(),
    };
    let article = create_news(&mut store, &data, 20).unwrap();

    let request = UpdateNewsRequest {
        news_title: Some(String::new()),  // invalid: empty title
        news_content: None,
        category_ids: None,
    };
    let result = update_news(&mut store, &author(4), article.id, &request, 30);
    assert_eq!(result.unwrap_err(), AppError::ForbiddenError("Not authorized!".to_string()));
    assert_eq!(store.news[0].updated_at, 20);
}

/// Existence outranks validation: an update aimed at a missing article is
/// "not found" even when the fields are invalid.
#[test]
fn missing_article_outranks_invalid_fields() {
    let mut store = Store::new();
    let request = UpdateNewsRequest {
        news_title: Some(String::new()),
        news_content: None,
        category_ids: None,
    };
    let result = update_news(&mut store, &author(4), 1, &request, 30);
    assert_eq!(result.unwrap_err(), AppError::NotFoundError("News not found!".to_string()));
}

/// The concrete walk-through: create the category "Tech", attach it to a
/// new article, read it back, then replace the category set with an empty
/// one and read it back again.
#[test]
fn category_set_replacement_round_trip() {
    let mut store = Store::new();
    let tech = create_category(&mut store, "Tech".to_string(), None, 10).unwrap();

    let data = NewsWithCategories {
        title: "A".to_string(),
        content: "B".to_string(),
        author_id: 3,
        category_ids: vec![tech.id],
    };
    let article = create_news(&mut store, &data, 20).unwrap();

    let detail = get_news_detail(&store, article.id).unwrap();
    assert_eq!(detail.categories.len(), 1);
    assert_eq!(detail.categories[0].id, tech.id);
    assert_eq!(detail.categories[0].name, "Tech");

    let request = UpdateNewsRequest {
        news_title: None,
        news_content: None,
        category_ids: Some(Vec::new()),
    };
    update_news(&mut store, &author(3), article.id, &request, 30).unwrap();

    let detail = get_news_detail(&store, article.id).unwrap();
    assert!(detail.categories.is_empty());
}

/// Deleting a category that an article still references succeeds, removes
/// the association, and leaves the article itself intact with an empty
/// category list.
#[test]
fn deleting_referenced_category_keeps_article() {
    let mut store = Store::new();
    let tech = create_category(&mut store, "Tech".to_string(), None, 10).unwrap();
    let data = NewsWithCategories {
        title: "A".to_string(),
        content: "B".to_string(),
        author_id: 3,
        category_ids: vec![tech.id],
    };
    let article = create_news(&mut store, &data, 20).unwrap();

    delete_category(&mut store, &admin(), tech.id).unwrap();

    let detail = get_news_detail(&store, article.id).unwrap();
    assert_eq!(detail.title, "A");
    assert_eq!(detail.content, "B");
    assert!(detail.categories.is_empty());
    assert!(store.news_categories.is_empty());
}

/// Replacing the category set of one article leaves other articles'
/// associations alone.
#[test]
fn replacement_only_touches_one_article() {
    let mut store = Store::new();
    let tech = create_category(&mut store, "Tech".to_string(), None, 10).unwrap();
    let science = create_category(&mut store, "Science".to_string(), None, 10).unwrap();

    let first = create_news(
        &mut store,
        &NewsWithCategories {
            title: "First".to_string(),
            content: "x".to_string(),
            author_id: 3,
            category_ids: vec![tech.id],
        },
        20,
    )
    .unwrap();
    let second = create_news(
        &mut store,
        &NewsWithCategories {
            title: "Second".to_string(),
            content: "y".to_string(),
            author_id: 3,
            category_ids: vec![tech.id, science.id],
        },
        20,
    )
    .unwrap();

    let request = UpdateNewsRequest {
        news_title: None,
        news_content: None,
        category_ids: Some(vec![science.id]),
    };
    update_news(&mut store, &author(3), first.id, &request, 30).unwrap();

    let first_detail = get_news_detail(&store, first.id).unwrap();
    let got: Vec<i32> = first_detail.categories.iter().map(|c| c.id).collect();
    assert_eq!(got, vec![science.id]);

    let second_detail = get_news_detail(&store, second.id).unwrap();
    let mut got: Vec<i32> = second_detail.categories.iter().map(|c| c.id).collect();
    got.sort();
    assert_eq!(got, vec![tech.id, science.id]);
}
