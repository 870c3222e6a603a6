use rental_api::auth::{login_user, login_user_at, register_user};
use rental_api::db::Database;
use rental_api::errors::AppError;
use rental_api::models::{LoginUser, RegisterUser};
use rental_api::token::{verify_token, JwtSecret};

fn register(db: &mut Database, username: &str, password: &str) -> Result<rental_api::models::User, AppError> {
    register_user(
        db,
        RegisterUser { username: username.to_string(), password: password.to_string() },
    )
}

fn login_at(
    db: &Database,
    secret: &JwtSecret,
    username: &str,
    password: &str,
    now: u64,
) -> Result<rental_api::models::AuthResponse, AppError> {
    login_user_at(
        db,
        secret,
        LoginUser { username: username.to_string(), password: password.to_string() },
        now,
    )
}

#[test]
fn register_then_duplicate_conflicts() {
    let mut db = Database::new();
    let first = register(&mut db, "alice", "secret1").expect("first registration succeeds");
    assert_eq!(first.username, "alice");
    assert_ne!(first.password_hash, "secret1");

    let second = register(&mut db, "alice", "other");
    match second {
        Err(AppError::Conflict(m)) => {
            assert_eq!(m, "Username already taken");
        }
        other => panic!("expected Conflict, got {:?}", other),
    }

    // still exactly one stored user under that name, the first one
    let found = rental_api::db::find_user_by_username(&db, "alice").expect("alice exists");
    assert_eq!(found.id, first.id);
    assert_eq!(found.password_hash, first.password_hash);
}

#[test]
fn conflict_maps_to_409() {
    let mut db = Database::new();
    register(&mut db, "alice", "secret1").unwrap();
    let err = register(&mut db, "alice", "other").unwrap_err();
    assert_eq!(err.status_code(), 409);
}

#[test]
fn login_with_correct_credentials_returns_token_with_subject() {
    let mut db = Database::new();
    let secret = JwtSecret::new("test-signing-secret".to_string());
    let user = register(&mut db, "alice", "secret1").unwrap();

    let now: u64 = 1_700_000_000;
    let resp = login_at(&db, &secret, "alice", "secret1", now).expect("login succeeds");
    assert_eq!(resp.user_id, user.id);
    assert_eq!(resp.username, "alice");

    let claims = verify_token(&resp.token, &secret, now).expect("fresh token verifies");
    assert_eq!(claims.sub, user.id);
    assert_eq!(claims.username, "alice");
    assert_eq!(claims.exp, now + 86_400);
}

#[test]
fn wrong_password_and_unknown_user_fail_alike() {
    let mut db = Database::new();
    let secret = JwtSecret::new("test-signing-secret".to_string());
    register(&mut db, "alice", "secret1").unwrap();

    let now: u64 = 1_700_000_000;
    let wrong_password = login_at(&db, &secret, "alice", "wrong", now).unwrap_err();
    let unknown_user = login_at(&db, &secret, "bob", "x", now).unwrap_err();

    let (m1, m2) = match (&wrong_password, &unknown_user) {
        (AppError::Unauthorized(m1), AppError::Unauthorized(m2)) => (m1.clone(), m2.clone()),
        other => panic!("expected two Unauthorized errors, got {:?}", other),
    };
    assert_eq!(m1, m2);
    assert_eq!(m1, "Invalid username or password");
    assert_eq!(wrong_password.status_code(), 401);
    assert_eq!(unknown_user.status_code(), 401);
}

#[test]
fn login_with_real_clock() {
    let mut db = Database::new();
    let secret = JwtSecret::new("test-signing-secret".to_string());
    let user = register(&mut db, "alice", "secret1").unwrap();

    let resp = login_user(
        &db,
        &secret,
        LoginUser { username: "alice".to_string(), password: "secret1".to_string() },
    )
    .expect("login succeeds");
    assert_eq!(resp.user_id, user.id);

    let now = chrono::Utc::now().timestamp() as u64;
    let claims = verify_token(&resp.token, &secret, now).expect("fresh token verifies");
    assert_eq!(claims.sub, user.id);
}

#[test]
fn expired_token_fails_verification() {
    let mut db = Database::new();
    let secret = JwtSecret::new("test-signing-secret".to_string());
    register(&mut db, "alice", "secret1").unwrap();

    let issued_at: u64 = 1_700_000_000;
    let resp = login_at(&db, &secret, "alice", "secret1", issued_at).unwrap();

    // the token is good through its expiry instant
    assert!(verify_token(&resp.token, &secret, issued_at + 86_399).is_ok());
    assert!(verify_token(&resp.token, &secret, issued_at + 86_400).is_ok());

    // once the expiry has passed it fails with Unauthorized
    let after_expiry = verify_token(&resp.token, &secret, issued_at + 86_401).unwrap_err();
    assert_eq!(after_expiry.status_code(), 401);
    assert!(matches!(after_expiry, AppError::Unauthorized(_)));
    let long_after = verify_token(&resp.token, &secret, issued_at + 200_000).unwrap_err();
    assert!(matches!(long_after, AppError::Unauthorized(_)));
}

#[test]
fn tampered_token_fails_regardless_of_expiry() {
    let mut db = Database::new();
    let secret = JwtSecret::new("test-signing-secret".to_string());
    register(&mut db, "alice", "secret1").unwrap();

    let issued_at: u64 = 1_700_000_000;
    let resp = login_at(&db, &secret, "alice", "secret1", issued_at).unwrap();

    // flip one character of the signature part
    let mut token = resp.token.clone();
    let last = token.pop().expect("token is not empty");
    let flipped = if last == 'A' { 'B' } else { 'A' };
    token.push(flipped);
    assert_ne!(token, resp.token);

    let err = verify_token(&token, &secret, issued_at).unwrap_err();
    assert!(matches!(err, AppError::Unauthorized(_)));
}

#[test]
fn token_signed_with_other_secret_fails() {
    let mut db = Database::new();
    let secret = JwtSecret::new("test-signing-secret".to_string());
    let other = JwtSecret::new("another-secret".to_string());
    register(&mut db, "alice", "secret1").unwrap();

    let issued_at: u64 = 1_700_000_000;
    let resp = login_at(&db, &secret, "alice", "secret1", issued_at).unwrap();

    assert!(verify_token(&resp.token, &secret, issued_at).is_ok());
    assert!(verify_token(&resp.token, &other, issued_at).is_err());
}
