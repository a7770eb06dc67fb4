use api::auth::{parse_bearer, Auth, TokenError, TOKEN_LIFETIME};

const NOW: usize = 1_700_000_000;

fn service() -> Auth {
    Auth::new("a signing secret".to_string())
}

#[test]
fn issued_token_validates_with_same_email() {
    let auth = service();
    let token = auth.issue_at("a@b.com", NOW).unwrap();
    let c = auth.validate_at(&token, NOW).unwrap();
    assert_eq!(c.email, "a@b.com");
    assert_eq!(c.iat, NOW);
    assert_eq!(c.exp, NOW + TOKEN_LIFETIME);
}

#[test]
fn token_is_a_signed_compact_structure() {
    let auth = service();
    let token = auth.issue_at("a@b.com", NOW).unwrap();
    assert_eq!(token.split('.').count(), 3);
    assert!(!token.contains("a@b.com"));
}

#[test]
fn token_accepted_until_expiry_and_not_after() {
    let auth = service();
    let token = auth.issue_at("a@b.com", NOW).unwrap();
    assert!(auth.validate_at(&token, NOW + TOKEN_LIFETIME).is_ok());
    assert_eq!(
        auth.validate_at(&token, NOW + TOKEN_LIFETIME + 1).err(),
        Some(TokenError::TokenInvalid)
    );
}

#[test]
fn token_from_other_secret_rejected() {
    let other = Auth::new("another secret".to_string());
    let token = other.issue_at("a@b.com", NOW).unwrap();
    assert_eq!(service().validate_at(&token, NOW).err(), Some(TokenError::TokenInvalid));
}

#[test]
fn malformed_token_rejected() {
    let auth = service();
    assert_eq!(auth.validate_at("not a token", NOW).err(), Some(TokenError::TokenInvalid));
    let token = auth.issue_at("a@b.com", NOW).unwrap();
    let tampered = format!("{}x", token);
    assert_eq!(auth.validate_at(&tampered, NOW).err(), Some(TokenError::TokenInvalid));
}

#[test]
fn validating_twice_gives_same_claims() {
    let auth = service();
    let token = auth.issue_at("a@b.com", NOW).unwrap();
    let c1 = auth.validate_at(&token, NOW + 10).unwrap();
    let c2 = auth.validate_at(&token, NOW + 20).unwrap();
    assert_eq!((c1.exp, c1.iat, c1.email), (c2.exp, c2.iat, c2.email));
}

#[test]
fn clock_token_round_trip() {
    let auth = service();
    let token = auth.encode_jwt("a@b.com".to_string()).unwrap();
    let c = auth.decode_jwt(token).unwrap();
    assert_eq!(c.email, "a@b.com");
    assert_eq!(c.exp, c.iat + TOKEN_LIFETIME);
}

#[test]
fn bearer_word_is_second() {
    assert_eq!(parse_bearer("Bearer abc.def").as_deref(), Some("abc.def"));
    assert_eq!(parse_bearer("  Bearer \t abc  extra").as_deref(), Some("abc"));
    assert_eq!(parse_bearer("Bearer"), None);
    assert_eq!(parse_bearer("Bearer   "), None);
    assert_eq!(parse_bearer(""), None);
}

#[test]
fn bearer_split_on_unicode_whitespace() {
    assert_eq!(parse_bearer("Bearer\u{a0}tok").as_deref(), Some("tok"));
    assert_eq!(parse_bearer("Bearer\u{3000}tok\u{2003}").as_deref(), Some("tok"));
}
