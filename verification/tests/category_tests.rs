use news_api::errors::AppError;
use news_api::category::{create_category, delete_category, update_category};
use news_api::jwt::Claims;
use news_api::models::UpdateCategoryRequest;
use news_api::store::Store;

fn admin_claims() -> Claims {
    Claims { sub: 1, username: "admin".to_string(), is_admin: true, exp: 0 }
}

#[test]
fn test_create_category_success() {
    let mut store = Store::new();
    create_category(
        &mut store,
        "Tech".to_string(),
        Some("Technology related articles".to_string()),
        100,
    )
    .expect("Category should exist");

    let category = store.categories.first().expect("Category should exist");
    assert_eq!(category.name, "Tech");
    assert_eq!(category.description.as_deref(), Some("Technology related articles"));
}

#[test]
fn test_update_category_success() {
    let mut store = Store::new();
    create_category(
        &mut store,
        "Tech".to_string(),
        Some("Technology related articles".to_string()),
        100,
    )
    .unwrap();

    let request = UpdateCategoryRequest {
        name: "Science".to_string(),
        description: "Science related articles".to_string(),
    };
    let updated_category = update_category(&mut store, 1, &request, 200);
    assert!(updated_category.is_ok());

    let category = updated_category.unwrap();
    assert_eq!(category.name, "Science");
    assert_eq!(category.description.as_deref(), Some("Science related articles"));
}

#[test]
fn test_update_category_not_found() {
    let mut store = Store::new();
    let request = UpdateCategoryRequest {
        name: "New Name".to_string(),
        description: "New Description".to_string(),
    };
    let result = update_category(&mut store, 99, &request, 100);

    assert!(result.is_err());
    assert_eq!(result.unwrap_err(), AppError::NotFoundError("Category not found".to_string()));
}

#[test]
fn test_delete_category_success() {
    let mut store = Store::new();
    create_category(
        &mut store,
        "Tech".to_string(),
        Some("Technology related articles".to_string()),
        100,
    )
    .unwrap();

    let result = delete_category(&mut store, &admin_claims(), 1);
    assert!(result.is_ok());

    let check = delete_category(&mut store, &admin_claims(), 1);
    assert!(check.is_err()); // Category should be gone now
}

#[test]
fn test_delete_category_not_found() {
    let mut store = Store::new();
    let result = delete_category(&mut store, &admin_claims(), 99);

    assert!(result.is_err());
    assert_eq!(result.unwrap_err(), AppError::NotFoundError("Category not found".to_string()));
}

#[test]
fn delete_category_requires_admin() {
    let mut store = Store::new();
    create_category(&mut store, "Tech".to_string(), None, 100).unwrap();

    let non_admin = Claims { sub: 2, username: "reader".to_string(), is_admin: false, exp: 0 };
    let result = delete_category(&mut store, &non_admin, 1);
    assert_eq!(
        result.unwrap_err(),
        AppError::ForbiddenError("Only admins can delete categories".to_string())
    );
    assert_eq!(store.categories.len(), 1);
}

#[test]
fn category_name_bounds_enforced() {
    let mut store = Store::new();
    // Two characters: too short.
    let short = create_category(&mut store, "ab".to_string(), None, 100);
    assert_eq!(
        short.unwrap_err(),
        AppError::ValidationError("Category name must be between 3 and 100 characters!".to_string())
    );
    // Three characters: the smallest accepted name.
    assert!(create_category(&mut store, "abc".to_string(), None, 100).is_ok());
    // One hundred characters: the largest accepted name.
    assert!(create_category(&mut store, "x".repeat(100), None, 100).is_ok());
    // One hundred and one characters: too long.
    let long = create_category(&mut store, "x".repeat(101), None, 100);
    assert!(matches!(long.unwrap_err(), AppError::ValidationError(_)));
    assert_eq!(store.categories.len(), 2);
}

#[test]
fn category_description_bounds_enforced() {
    let mut store = Store::new();
    let short = create_category(&mut store, "Tech".to_string(), Some("ab".to_string()), 100);
    assert!(matches!(short.unwrap_err(), AppError::ValidationError(_)));
    assert!(create_category(&mut store, "Tech".to_string(), Some("x".repeat(255)), 100).is_ok());
    let long = create_category(&mut store, "More".to_string(), Some("x".repeat(256)), 100);
    assert!(matches!(long.unwrap_err(), AppError::ValidationError(_)));
}

#[test]
fn create_category_assigns_ids_and_timestamps() {
    let mut store = Store::new();
    let first = create_category(&mut store, "Tech".to_string(), None, 123).unwrap();
    let second = create_category(&mut store, "Science".to_string(), None, 456).unwrap();
    assert_eq!(first.id, 1);
    assert_eq!(second.id, 2);
    assert_eq!(first.created_at, 123);
    assert_eq!(first.updated_at, 123);
    assert_eq!(second.created_at, 456);
    assert_eq!(second.updated_at, 456);
}

#[test]
fn update_category_refreshes_updated_at_only() {
    let mut store = Store::new();
    create_category(&mut store, "Tech".to_string(), None, 100).unwrap();
    let request = UpdateCategoryRequest {
        name: "Gadgets".to_string(),
        description: "Devices and tools".to_string(),
    };
    let updated = update_category(&mut store, 1, &request, 999).unwrap();
    assert_eq!(updated.created_at, 100);
    assert_eq!(updated.updated_at, 999);
}
