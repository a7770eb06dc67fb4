//! Calls into bcrypt, jsonwebtoken, serde_json and chrono that the verified
//! code builds on. Each contract here is trusted, not proved.
use vstd::prelude::*;
use crate::claims::{digit_char, members_view, claims_text, decimal};

verus! {

/// `bcrypt::BcryptError`, carried opaque and mapped to `HashingError`.
#[verifier::external_type_specification]
#[verifier::external_body]
pub struct ExBcryptError(bcrypt::BcryptError);

/// `jsonwebtoken::errors::Error`, carried opaque and mapped to `TokenError`.
#[verifier::external_type_specification]
#[verifier::external_body]
pub struct ExJwtError(jsonwebtoken::errors::Error);

/// `serde_json::Error`, carried opaque.
#[verifier::external_type_specification]
#[verifier::external_body]
pub struct ExJsonError(serde_json::Error);

/// The start of a bcrypt hash string at work factor `cost`: `$2b$`, the
/// cost as two digits, `$`.
pub open spec fn bcrypt_prefix(cost: u32) -> Seq<char> {
    seq!['$', '2', 'b', '$', digit_char((cost / 10) as nat), digit_char((cost % 10) as nat), '$']
}

/// The outline of a bcrypt hash string: 60 characters, `$` at 0, 3 and 6,
/// and a version of `2a`, `2b`, `2x` or `2y` between the first two.
pub open spec fn bcrypt_layout(h: Seq<char>) -> bool {
    &&& h.len() == 60
    &&& h[0] == '$' && h[3] == '$' && h[6] == '$'
    &&& h[1] == '2'
    &&& (h[2] == 'a' || h[2] == 'b' || h[2] == 'x' || h[2] == 'y')
}

/// What `bcrypt::verify` answers for a password and a stored hash; `None`
/// where it fails.
pub uninterp spec fn bcrypt_verdict(password: Seq<char>, hash: Seq<char>) -> Option<bool>;

/// The HS256 token that `jsonwebtoken::encode` makes of a claims text and a
/// secret; `None` where it fails.
pub uninterp spec fn hs256_token(claims: Seq<char>, secret: Seq<char>) -> Option<Seq<char>>;

/// The members of the claims object that `jsonwebtoken::decode` finds in a
/// token under a secret, expiry left unchecked, as pairs of key and raw JSON
/// text of the value; `None` where the token is refused.
pub uninterp spec fn hs256_claims(token: Seq<char>, secret: Seq<char>) -> Option<Seq<(Seq<char>, Seq<char>)>>;

/// The JSON string literal that `serde_json::to_string` writes for a string;
/// `None` where it fails.
pub uninterp spec fn json_string_literal(s: Seq<char>) -> Option<Seq<char>>;

/// The string that `serde_json::from_str::<String>` reads from JSON text;
/// `None` where the text is not a JSON string.
pub uninterp spec fn json_string_value(text: Seq<char>) -> Option<Seq<char>>;

/// Relies on `bcrypt::hash`: it draws a random salt, writes 60 characters
/// that start `$2b$`, the cost in two digits and `$` (`HashParts::format`),
/// and `bcrypt::verify` accepts the same password against that hash.
#[verifier::external_body]
pub(crate) fn bcrypt_hash(password: &str, cost: u32) -> (r: Result<String, bcrypt::BcryptError>)
    ensures
        r matches Ok(h) ==> bcrypt_verdict(password@, h@) == Some(true),
        r matches Ok(h) ==> h@.len() == 60 && h@.subrange(0, 7) == bcrypt_prefix(cost),
{
    bcrypt::hash(password, cost)
}

/// Relies on `bcrypt::verify`: the answer depends on the password and the
/// hash alone, and `split_hash` refuses a hash that is not 60 ASCII
/// characters, lacks `$` at 0, 3 or 6, or names another version.
#[verifier::external_body]
pub(crate) fn bcrypt_verify(password: &str, hash: &str) -> (r: Result<bool, bcrypt::BcryptError>)
    ensures
        match r {
            Ok(b) => bcrypt_verdict(password@, hash@) == Some(b),
            Err(_) => bcrypt_verdict(password@, hash@) is None,
        },
        !bcrypt_layout(hash@) ==> r is Err,
{
    bcrypt::verify(password, hash)
}

/// Relies on `jsonwebtoken::encode` with the default header (HS256) and the
/// secret's bytes as key. The claims go in as raw JSON text through
/// `serde_json::value::RawValue`, which refuses text that is not JSON. The
/// token depends on the text and the secret alone, and is never empty (it
/// holds the two `.` separators). Claims text of the shape of
/// `claims_text`, with a string literal that `serde_json` wrote, is JSON, so
/// `RawValue` takes it and signing (HMAC, key family matching the header)
/// succeeds; decoding that token with `hs256_decode` under the same secret
/// checks the same signature and gives back its three members in key order
/// with their raw texts.
#[verifier::external_body]
pub(crate) fn hs256_encode(claims: String, secret: &str) -> (r: Result<String, jsonwebtoken::errors::Error>)
    ensures
        match r {
            Ok(t) => hs256_token(claims@, secret@) == Some(t@) && t@.len() > 0,
            Err(_) => hs256_token(claims@, secret@) is None,
        },
        forall|e: usize, i: usize, q: Seq<char>|
            claims@ == #[trigger] claims_text(e as nat, i as nat, q) && (exists|m: Seq<char>|
                json_string_literal(m) == Some(q)) ==> r is Ok,
        r matches Ok(t) ==> forall|e: usize, i: usize, q: Seq<char>|
            claims@ == #[trigger] claims_text(e as nat, i as nat, q) && (exists|m: Seq<char>|
                json_string_literal(m) == Some(q)) ==> hs256_claims(t@, secret@) == Some(
                seq![("email"@, q), ("exp"@, decimal(e as nat)), ("iat"@, decimal(i as nat))],
            ),
{
    let raw = serde_json::value::RawValue::from_string(claims)?;
    let key = jsonwebtoken::EncodingKey::from_secret(secret.as_bytes());
    jsonwebtoken::encode(&jsonwebtoken::Header::default(), &raw, &key)
}

/// Relies on `jsonwebtoken::decode` with HS256, the secret's bytes as key
/// and `validate_exp` off: it checks the signature and the `exp` claim's
/// presence, not the clock. The claims are read by serde_json into a
/// `BTreeMap` of raw values, and each member is handed back as its key and
/// its value's JSON text. The outcome depends on the token and the secret
/// alone.
#[verifier::external_body]
pub(crate) fn hs256_decode(token: &str, secret: &str) -> (r: Result<Vec<(String, String)>, jsonwebtoken::errors::Error>)
    ensures
        match r {
            Ok(ms) => hs256_claims(token@, secret@) == Some(members_view(ms@)),
            Err(_) => hs256_claims(token@, secret@) is None,
        },
{
    let mut validation = jsonwebtoken::Validation::new(jsonwebtoken::Algorithm::HS256);
    validation.validate_exp = false;
    let key = jsonwebtoken::DecodingKey::from_secret(secret.as_bytes());
    jsonwebtoken::decode::<std::collections::BTreeMap<String, Box<serde_json::value::RawValue>>>(
        token,
        &key,
        &validation,
    )
        .map(|data| data.claims.into_iter().map(|(k, v)| (k, v.get().to_string())).collect())
}

/// Relies on `serde_json::to_string` on a string: the quoted, escaped JSON
/// string literal, which depends on the string alone, and which it always
/// writes (a string serializes into a `Vec` without error) and which
/// `serde_json::from_str::<String>` reads back as the same string.
#[verifier::external_body]
pub(crate) fn json_quote(s: &str) -> (r: Result<String, serde_json::Error>)
    ensures
        match r {
            Ok(q) => json_string_literal(s@) == Some(q@),
            Err(_) => json_string_literal(s@) is None,
        },
        r is Ok,
        r matches Ok(q) ==> json_string_value(q@) == Some(s@),
{
    serde_json::to_string(s)
}

/// Relies on `serde_json::from_str::<String>`: the string that JSON text
/// denotes, which depends on the text alone.
#[verifier::external_body]
pub(crate) fn json_unquote(text: &str) -> (r: Result<String, serde_json::Error>)
    ensures
        match r {
            Ok(s) => json_string_value(text@) == Some(s@),
            Err(_) => json_string_value(text@) is None,
        },
{
    serde_json::from_str::<String>(text)
}

/// Relies on chrono's `From<SystemTime> for DateTime<Utc>`: the current unix
/// time in seconds, negative for a clock before 1970, of which nothing else
/// is known.
#[verifier::external_body]
pub(crate) fn unix_now() -> (r: i64) {
    chrono::DateTime::<chrono::Utc>::from(std::time::SystemTime::now()).timestamp()
}

} // verus!
