use api::auth::{Auth, HashingError};

#[test]
fn hash_then_verify_accepts_password() {
    let h = Auth::hash_password("right").unwrap();
    assert_eq!(h.len(), 60);
    assert!(h.starts_with("$2b$12$"));
    assert_ne!(h, "right");
    assert_eq!(Auth::verify_password("right", &h), Ok(true));
}

#[test]
fn other_password_rejected() {
    let h = Auth::hash_password("right").unwrap();
    assert_eq!(Auth::verify_password("wrong", &h), Ok(false));
    assert_eq!(Auth::verify_password("", &h), Ok(false));
}

#[test]
fn hashes_are_salted() {
    let a = Auth::hash_password("same").unwrap();
    let b = Auth::hash_password("same").unwrap();
    assert_ne!(a, b);
    assert_eq!(Auth::verify_password("same", &b), Ok(true));
}

#[test]
fn malformed_hash_is_an_error() {
    assert_eq!(Auth::verify_password("right", "right"), Err(HashingError));
    assert_eq!(Auth::verify_password("right", ""), Err(HashingError));
}

#[test]
fn hash_with_wrong_layout_is_an_error() {
    let h = Auth::hash_password("right").unwrap();
    let other_version = format!("$3b{}", &h[3..]);
    assert_eq!(Auth::verify_password("right", &other_version), Err(HashingError));
    let no_dollar = format!("{}x{}", &h[..6], &h[7..]);
    assert_eq!(Auth::verify_password("right", &no_dollar), Err(HashingError));
}
