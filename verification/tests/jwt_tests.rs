use news_api::jwt::{create_token, verify_token};
use news_api::errors::AppError;
use news_api::middleware::{strip_bearer, AdminMiddleware, AuthMiddleWare};

const SECRET: &str = "unit-test-signing-secret";

fn now() -> i64 {
    chrono::Utc::now().timestamp()
}

#[test]
fn token_round_trip_recovers_claims() {
    let issued_at = now();
    let token = create_token(42, "alice", true, SECRET, issued_at).unwrap();
    // A real signed token, not the input handed back.
    assert_ne!(token, "alice");
    assert_eq!(token.split('.').count(), 3);

    let claims = verify_token(&token, SECRET).unwrap();
    assert_eq!(claims.sub, 42);
    assert_eq!(claims.username, "alice");
    assert!(claims.is_admin);
    assert_eq!(claims.exp as i64, issued_at + 86400);
}

#[test]
fn tampered_token_is_rejected() {
    let token = create_token(7, "bob", false, SECRET, now()).unwrap();
    let mut tampered = token.clone();
    let last = tampered.pop().unwrap();
    tampered.push(if last == 'A' { 'B' } else { 'A' });
    assert!(verify_token(&tampered, SECRET).is_err());
}

#[test]
fn wrong_secret_is_rejected() {
    let token = create_token(7, "bob", false, SECRET, now()).unwrap();
    assert!(verify_token(&token, "another-secret").is_err());
}

#[test]
fn expired_token_is_rejected() {
    // Issued two days ago, so it expired one day ago.
    let token = create_token(7, "bob", false, SECRET, now() - 2 * 86400).unwrap();
    assert!(verify_token(&token, SECRET).is_err());
}

#[test]
fn strip_bearer_accepts_only_the_scheme() {
    assert_eq!(strip_bearer("Bearer abc.def.ghi"), Some("abc.def.ghi"));
    assert_eq!(strip_bearer("Bearer "), Some(""));
    assert_eq!(strip_bearer("bearer abc"), None);
    assert_eq!(strip_bearer("Basic abc"), None);
    assert_eq!(strip_bearer(""), None);
    assert_eq!(strip_bearer("Bear"), None);
}

#[test]
fn authenticate_happy_path_attaches_identity() {
    let token = create_token(9, "carol", false, SECRET, now()).unwrap();
    let header = format!("Bearer {}", token);
    let claims = AuthMiddleWare::authenticate(Some(&header), SECRET).unwrap();
    assert_eq!(claims.sub, 9);
    assert_eq!(claims.username, "carol");
}

#[test]
fn authenticate_rejects_missing_and_malformed_headers() {
    let missing = AuthMiddleWare::authenticate(None, SECRET).unwrap_err();
    assert_eq!(missing, AppError::UnauthorizedError("No token provided".to_string()));

    let bad_scheme = AuthMiddleWare::authenticate(Some("Token xyz"), SECRET).unwrap_err();
    assert_eq!(bad_scheme, AppError::UnauthorizedError("Invalid token format".to_string()));

    let bad_token = AuthMiddleWare::authenticate(Some("Bearer not.a.token"), SECRET).unwrap_err();
    assert_eq!(bad_token, AppError::UnauthorizedError("Invalid or expired token".to_string()));
}

#[test]
fn authorize_admits_only_admins() {
    let token = create_token(1, "root", true, SECRET, now()).unwrap();
    let header = format!("Bearer {}", token);
    let claims = AuthMiddleWare::authenticate(Some(&header), SECRET).unwrap();
    assert!(AdminMiddleware::authorize(Some(&claims)).is_ok());

    let token = create_token(2, "user", false, SECRET, now()).unwrap();
    let header = format!("Bearer {}", token);
    let claims = AuthMiddleWare::authenticate(Some(&header), SECRET).unwrap();
    assert_eq!(
        AdminMiddleware::authorize(Some(&claims)).unwrap_err(),
        AppError::ForbiddenError("Admin access required".to_string())
    );
    assert_eq!(
        AdminMiddleware::authorize(None).unwrap_err(),
        AppError::ForbiddenError("Admin access required".to_string())
    );
}
