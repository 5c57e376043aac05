use news_api::errors::AppError;

#[test]
fn status_codes_follow_the_taxonomy() {
    assert_eq!(AppError::DatabaseError("x".to_string()).status_code(), 500);
    assert_eq!(AppError::NotFoundError("x".to_string()).status_code(), 404);
    assert_eq!(AppError::UnauthorizedError("x".to_string()).status_code(), 401);
    assert_eq!(AppError::ForbiddenError("x".to_string()).status_code(), 403);
    assert_eq!(AppError::ValidationError("x".to_string()).status_code(), 400);
    assert_eq!(AppError::UsernameTakenError("x".to_string()).status_code(), 400);
    assert_eq!(AppError::InvalidCredentialsError("x".to_string()).status_code(), 401);
}

#[test]
fn message_hands_back_the_carried_text() {
    let e = AppError::NotFoundError("Category not found".to_string());
    assert_eq!(e.message(), "Category not found");
}
