use news_api::errors::AppError;
use news_api::category::create_category;
use news_api::jwt::Claims;
use news_api::models::{NewsWithCategories, UpdateNewsRequest};
use news_api::news::{create_news, delete_news, get_news_detail, list_news, update_news};
use news_api::store::Store;

fn author_claims(sub: i32) -> Claims {
    Claims { sub, username: format!("user{}", sub), is_admin: false, exp: 0 }
}

fn insert_news(store: &mut Store, title: &str, content: &str, author_id: i32) -> i32 {
    let data = NewsWithCategories {
        title: title.to_string(),
        content: content.to_string(),
        author_id,
        category_ids: Vec::new(),
    };
    create_news(store, &data, 100).unwrap().id
}

#[test]
fn test_update_news_success() {
    let mut store = Store::new();
    let id = insert_news(&mut store, "Original Title", "Original Content", 1);

    let request = UpdateNewsRequest {
        news_title: Some("Updated Title".to_string()),
        news_content: Some("Updated Content".to_string()),
        category_ids: None,
    };
    let updated_news = update_news(&mut store, &author_claims(1), id, &request, 200);
    assert!(updated_news.is_ok());

    let news = updated_news.unwrap();
    assert_eq!(news.title, "Updated Title");
    assert_eq!(news.content, "Updated Content");
}

#[test]
fn test_update_news_not_found() {
    let mut store = Store::new();
    let request = UpdateNewsRequest {
        news_title: Some("New Title".to_string()),
        news_content: Some("New Content".to_string()),
        category_ids: None,
    };
    let result = update_news(&mut store, &author_claims(1), 99, &request, 100);

    assert!(result.is_err());
    assert!(matches!(
        result.unwrap_err(),
        AppError::NotFoundError(m) if m.starts_with("News not found")
    ));
}

#[test]
fn test_delete_news_success() {
    let mut store = Store::new();
    let id = insert_news(&mut store, "Test News", "Some Content", 1);

    let result = delete_news(&mut store, &author_claims(1), id);
    assert!(result.is_ok());

    let check = delete_news(&mut store, &author_claims(1), id);
    assert!(check.is_err()); // News should be gone now
}

#[test]
fn test_delete_news_not_found() {
    let mut store = Store::new();
    let result = delete_news(&mut store, &author_claims(1), 99);

    assert!(result.is_err());
    assert!(matches!(
        result.unwrap_err(),
        AppError::NotFoundError(m) if m == "News not found"
    ));
}

#[test]
fn create_news_rejects_bad_titles_and_content() {
    let mut store = Store::new();
    let empty_title = NewsWithCategories {
        title: String::new(),
        content: "body".to_string(),
        author_id: 1,
        category_ids: Vec::new(),
    };
    assert_eq!(
        create_news(&mut store, &empty_title, 100).unwrap_err(),
        AppError::ValidationError("title must be between 1 and 100 characters".to_string())
    );

    let long_title = NewsWithCategories {
        title: "x".repeat(101),
        content: "body".to_string(),
        author_id: 1,
        category_ids: Vec::new(),
    };
    assert!(matches!(
        create_news(&mut store, &long_title, 100).unwrap_err(),
        AppError::ValidationError(_)
    ));

    let empty_content = NewsWithCategories {
        title: "ok".to_string(),
        content: String::new(),
        author_id: 1,
        category_ids: Vec::new(),
    };
    assert_eq!(
        create_news(&mut store, &empty_content, 100).unwrap_err(),
        AppError::ValidationError("content cannot empty".to_string())
    );

    // A title of exactly one hundred characters is accepted.
    let max_title = NewsWithCategories {
        title: "x".repeat(100),
        content: "body".to_string(),
        author_id: 1,
        category_ids: Vec::new(),
    };
    assert!(create_news(&mut store, &max_title, 100).is_ok());
    assert_eq!(store.news.len(), 1);
}

#[test]
fn create_news_rejects_unknown_and_repeated_category_ids() {
    let mut store = Store::new();
    create_category(&mut store, "Tech".to_string(), None, 100).unwrap();

    let unknown = NewsWithCategories {
        title: "A".to_string(),
        content: "B".to_string(),
        author_id: 1,
        category_ids: vec![1, 2],
    };
    assert!(matches!(
        create_news(&mut store, &unknown, 100).unwrap_err(),
        AppError::ValidationError(_)
    ));

    let repeated = NewsWithCategories {
        title: "A".to_string(),
        content: "B".to_string(),
        author_id: 1,
        category_ids: vec![1, 1],
    };
    assert!(matches!(
        create_news(&mut store, &repeated, 100).unwrap_err(),
        AppError::ValidationError(_)
    ));
    assert!(store.news.is_empty());
    assert!(store.news_categories.is_empty());
}

#[test]
fn list_news_keeps_ascending_id_order() {
    let mut store = Store::new();
    insert_news(&mut store, "First", "a", 1);
    insert_news(&mut store, "Second", "b", 1);
    insert_news(&mut store, "Third", "c", 2);

    let summaries = list_news(&store);
    let titles: Vec<&str> = summaries.iter().map(|s| s.title.as_str()).collect();
    assert_eq!(titles, vec!["First", "Second", "Third"]);
    assert_eq!(summaries[0].created_at, 100);
}

#[test]
fn get_news_detail_not_found() {
    let store = Store::new();
    let result = get_news_detail(&store, 7);
    assert_eq!(result.unwrap_err(), AppError::NotFoundError("News not found!".to_string()));
}

#[test]
fn update_news_rejects_unknown_category_ids() {
    let mut store = Store::new();
    let id = insert_news(&mut store, "Title", "Content", 1);
    let request = UpdateNewsRequest {
        news_title: None,
        news_content: None,
        category_ids: Some(vec![42]),
    };
    let result = update_news(&mut store, &author_claims(1), id, &request, 200);
    assert!(matches!(result.unwrap_err(), AppError::ValidationError(_)));
    // Nothing changed.
    assert_eq!(store.news[0].updated_at, 100);
    assert!(store.news_categories.is_empty());
}

#[test]
fn exhausted_id_space_is_a_database_error() {
    let mut store = Store::new();
    store.next_news_id = i32::MAX;
    let data = NewsWithCategories {
        title: "A".to_string(),
        content: "B".to_string(),
        author_id: 1,
        category_ids: Vec::new(),
    };
    assert!(matches!(
        create_news(&mut store, &data, 100).unwrap_err(),
        AppError::DatabaseError(_)
    ));
    assert!(store.news.is_empty());
}

#[test]
fn deleted_ids_are_never_reused() {
    let mut store = Store::new();
    let first = insert_news(&mut store, "First", "a", 1);
    delete_news(&mut store, &author_claims(1), first).unwrap();
    let second = insert_news(&mut store, "Second", "b", 1);
    assert_ne!(first, second);
    assert!(second > first);
}

#[test]
fn update_news_by_admin_is_allowed() {
    let mut store = Store::new();
    let id = insert_news(&mut store, "Title", "Content", 5);
    let admin = Claims { sub: 1, username: "admin".to_string(), is_admin: true, exp: 0 };
    let request = UpdateNewsRequest {
        news_title: Some("Renamed".to_string()),
        news_content: None,
        category_ids: None,
    };
    let updated = update_news(&mut store, &admin, id, &request, 200).unwrap();
    assert_eq!(updated.title, "Renamed");
    assert_eq!(updated.content, "Content");
    assert_eq!(updated.author_id, 5);
    assert_eq!(updated.created_at, 100);
    assert_eq!(updated.updated_at, 200);
}
