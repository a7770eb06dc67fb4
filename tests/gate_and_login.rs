use api::auth::{Auth, AuthError, TOKEN_LIFETIME};
use api::controller::{LoginModel, UserController};
use api::principal::{resolve, resolve_principal, StorageError, User};

const NOW: usize = 1_700_000_000;

fn service() -> Auth {
    Auth::new("a signing secret".to_string())
}

fn user(id: i32, email: &str, password_hash: &str) -> User {
    User {
        id,
        name: format!("user{}", id),
        email: Some(email.to_string()),
        password: password_hash.to_string(),
    }
}

fn err(status: u16, message: &str) -> AuthError {
    AuthError { message: message.to_string(), status_code: status }
}

fn login(email: &str, password: &str) -> LoginModel {
    LoginModel { email: email.to_string(), password: password.to_string() }
}

#[test]
fn gate_without_header_is_unauthorized() {
    let r = service().authenticate_at(None, NOW);
    assert_eq!(r.err(), Some(err(401, "No authorization header provided")));
}

#[test]
fn gate_without_bearer_part_is_unauthorized() {
    let r = service().authenticate_at(Some("Bearer"), NOW);
    assert_eq!(r.err(), Some(err(401, "Invalid authorization header")));
}

#[test]
fn gate_with_expired_token_is_unauthorized() {
    let auth = service();
    let token = auth.issue_at("a@b.com", NOW).unwrap();
    let header = format!("Bearer {}", token);
    let r = auth.authenticate_at(Some(&header), NOW + TOKEN_LIFETIME + 1);
    assert_eq!(r.err(), Some(err(401, "Invalid token")));
}

#[test]
fn gate_with_unknown_email_is_unauthorized() {
    let auth = service();
    let token = auth.issue_at("ghost@b.com", NOW).unwrap();
    let header = format!("Bearer {}", token);
    let claims = auth.authenticate_at(Some(&header), NOW).unwrap();
    let rows = vec![user(1, "a@b.com", "h")];
    let r = resolve_principal(Ok(rows), &claims.email);
    assert_eq!(r.err(), Some(err(401, "User not found")));
}

#[test]
fn gate_with_valid_token_yields_principal() {
    let auth = service();
    let token = auth.issue_at("a@b.com", NOW).unwrap();
    let header = format!("Bearer {}", token);
    let claims = auth.authenticate_at(Some(&header), NOW).unwrap();
    let rows = vec![user(1, "xa@b.com", "h"), user(2, "a@b.com", "h")];
    let u = resolve_principal(Ok(rows), &claims.email).unwrap();
    assert_eq!(u.id, 2);
    assert_eq!(u.email.as_deref(), Some("a@b.com"));
}

#[test]
fn gate_storage_failure_is_internal_error() {
    let r = resolve_principal(Err(StorageError), "a@b.com");
    assert_eq!(r.err(), Some(err(500, "Internal server error")));
}

#[test]
fn resolve_takes_exact_match_only() {
    let rows = vec![user(1, "xa@b.com", "h"), user(2, "a@b.com.au", "h")];
    assert!(resolve(rows, "a@b.com").is_none());
    let rows = vec![user(3, "a@b.com", "h"), user(4, "a@b.com", "h")];
    assert_eq!(resolve(rows, "a@b.com").unwrap().id, 3);
    let none = User { id: 5, name: "n".to_string(), email: None, password: "h".to_string() };
    assert!(resolve(vec![none], "").is_none());
}

#[test]
fn login_with_empty_field_is_bad_request() {
    let r = UserController::login_at(&service(), &login("", "x"), Ok(vec![]), NOW);
    assert_eq!(r.err(), Some(err(400, "Email and password are required")));
    let r = UserController::login_at(&service(), &login("a@b.com", ""), Ok(vec![]), NOW);
    assert_eq!(r.err(), Some(err(400, "Email and password are required")));
    assert!(UserController::check_login_input("", "x").is_err());
    assert!(UserController::check_login_input("a", "x").is_ok());
}

#[test]
fn login_with_wrong_password_is_unauthorized() {
    let h = Auth::hash_password("right").unwrap();
    let rows = vec![user(1, "a@b.com", &h)];
    let r = UserController::login_at(&service(), &login("a@b.com", "wrong"), Ok(rows), NOW);
    assert_eq!(r.err(), Some(err(401, "Invalid password")));
}

#[test]
fn login_with_right_password_gives_token() {
    let auth = service();
    let h = Auth::hash_password("right").unwrap();
    let rows = vec![user(1, "a@b.com", &h)];
    let reply = UserController::login_at(&auth, &login("a@b.com", "right"), Ok(rows), NOW).unwrap();
    assert!(!reply.token.is_empty());
    assert_eq!(reply.username, "user1");
    let c = auth.validate_at(&reply.token, NOW).unwrap();
    assert_eq!(c.email, "a@b.com");
}

#[test]
fn login_with_clock_gives_token() {
    let auth = service();
    let h = Auth::hash_password("right").unwrap();
    let rows = vec![user(1, "a@b.com", &h)];
    let reply = UserController::login(&auth, &login("a@b.com", "right"), Ok(rows)).unwrap();
    assert!(auth.decode_jwt(reply.token).is_ok());
}

#[test]
fn login_unknown_user_is_unauthorized() {
    let r = UserController::login_at(&service(), &login("a@b.com", "x"), Ok(vec![]), NOW);
    assert_eq!(r.err(), Some(err(401, "User not found")));
}

#[test]
fn login_storage_failure_is_internal_error() {
    let r = UserController::login_at(&service(), &login("a@b.com", "x"), Err(StorageError), NOW);
    assert_eq!(r.err(), Some(err(500, "Failed to find user")));
}

#[test]
fn login_with_malformed_stored_hash_is_internal_error() {
    let rows = vec![user(1, "a@b.com", "plaintext")];
    let r = UserController::login_at(&service(), &login("a@b.com", "plaintext"), Ok(rows), NOW);
    assert_eq!(r.err(), Some(err(500, "Failed to verify password")));
}

#[test]
fn login_with_clock_refuses_wrong_password() {
    let h = Auth::hash_password("right").unwrap();
    let rows = vec![user(1, "a@b.com", &h)];
    let r = UserController::login(&service(), &login("a@b.com", "wrong"), Ok(rows));
    assert_eq!(r.err(), Some(err(401, "Invalid password")));
    let r = UserController::login(&service(), &login("", "x"), Ok(vec![]));
    assert_eq!(r.err(), Some(err(400, "Email and password are required")));
}
