use news_api::auth::{login, register};
use news_api::errors::AppError;
use news_api::jwt::verify_token;
use news_api::models::LoginCredentials;
use news_api::store::Store;

const SECRET: &str = "unit-test-signing-secret";

fn now() -> i64 {
    chrono::Utc::now().timestamp()
}

fn credentials(username: &str, password: &str) -> LoginCredentials {
    LoginCredentials { username: username.to_string(), password: password.to_string() }
}

#[test]
fn test_register() {
    let mut store = Store::new();
    let result = register(&mut store, &credentials("test_user", "test_password"), now());
    assert!(result.is_ok());

    let user = store.users.first().expect("user row should exist");
    assert_eq!(user.username, "test_user");
    // The plaintext is hashed before storage.
    assert_ne!(user.password, "test_password");
    assert!(!user.is_admin);
}

#[test]
fn test_login_success() {
    let mut store = Store::new();
    register(&mut store, &credentials("test_user", "test_password"), now()).unwrap();

    let response = login(&store, &credentials("test_user", "test_password"), SECRET, now())
        .expect("login should succeed");
    assert!(!response.is_admin);

    let claims = verify_token(&response.token, SECRET).expect("token should verify");
    assert_eq!(claims.sub, 1);
    assert_eq!(claims.username, "test_user");
    assert!(!claims.is_admin);
}

#[test]
fn test_login_failure() {
    let mut store = Store::new();
    register(&mut store, &credentials("test_user", "test_password"), now()).unwrap();

    let result = login(&store, &credentials("test_user", "wrong_password"), SECRET, now());
    assert_eq!(
        result.unwrap_err(),
        AppError::InvalidCredentialsError("Invalid credentials".to_string())
    );
}

#[test]
fn register_rejects_taken_username() {
    let mut store = Store::new();
    register(&mut store, &credentials("test_user", "one"), now()).unwrap();
    let result = register(&mut store, &credentials("test_user", "two"), now());
    assert_eq!(
        result.unwrap_err(),
        AppError::UsernameTakenError("Username already exists".to_string())
    );
    assert_eq!(store.users.len(), 1);
}

#[test]
fn login_with_unknown_username_fails() {
    let store = Store::new();
    let result = login(&store, &credentials("nobody", "whatever"), SECRET, now());
    assert_eq!(
        result.unwrap_err(),
        AppError::InvalidCredentialsError("Invalid credentials".to_string())
    );
}

#[test]
fn wrong_password_and_unknown_username_look_the_same() {
    let mut store = Store::new();
    register(&mut store, &credentials("test_user", "test_password"), now()).unwrap();

    let wrong_password = login(&store, &credentials("test_user", "wrong_password"), SECRET, now())
        .unwrap_err();
    let unknown_username = login(&store, &credentials("other_user", "test_password"), SECRET, now())
        .unwrap_err();
    assert_eq!(wrong_password, unknown_username);
    assert_eq!(wrong_password.status_code(), unknown_username.status_code());
}

#[test]
fn login_token_carries_admin_flag() {
    let mut store = Store::new();
    register(&mut store, &credentials("boss", "pw"), now()).unwrap();
    // Promote the account; the flag must travel into the token.
    store.users[0].is_admin = true;

    let response = login(&store, &credentials("boss", "pw"), SECRET, now()).unwrap();
    assert!(response.is_admin);
    let claims = verify_token(&response.token, SECRET).unwrap();
    assert!(claims.is_admin);
}
