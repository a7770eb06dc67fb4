//! Credential hashing, token issue and validation, and the request gate.
use vstd::prelude::*;
use crate::claims::{
    Claims, claims_text, claims_of_members, claims_from_members, member, decimal,
    lemma_usize_of_decimal,
};
use crate::primitives::{
    bcrypt_verdict, bcrypt_prefix, bcrypt_layout, hs256_token, hs256_claims, json_string_literal,
    json_string_value, bcrypt_hash, bcrypt_verify, hs256_encode, hs256_decode, unix_now,
};

verus! {

/// Seconds a token stays valid after it is issued.
pub const TOKEN_LIFETIME: usize = 86400;

/// bcrypt work factor used for every stored hash.
pub const HASH_COST: u32 = 12;

pub const UNAUTHORIZED: u16 = 401;

pub const BAD_REQUEST: u16 = 400;

pub const INTERNAL_SERVER_ERROR: u16 = 500;

/// The hasher failed, or the stored hash is not a well-formed bcrypt hash.
#[derive(Debug, PartialEq, Eq, Structural)]
pub struct HashingError;

#[derive(Debug, PartialEq, Eq, Structural)]
pub enum TokenError {
    /// Malformed token, bad signature, unreadable claims, or expired.
    TokenInvalid,
    /// The signing primitive failed.
    TokenSigningError,
}

/// A terminal outcome of a request, as an HTTP status and a message.
#[derive(Debug, PartialEq, Eq)]
pub struct AuthError {
    pub message: String,
    pub status_code: u16,
}

pub open spec fn is_error(r: AuthError, status: u16, message: Seq<char>) -> bool {
    r.status_code == status && r.message@ == message
}

pub(crate) fn auth_error(status: u16, message: &str) -> (r: AuthError)
    ensures
        is_error(r, status, message@),
{
    AuthError { message: String::from_str(message), status_code: status }
}

/// The token issued at `now` for `email`: the claims
/// `{exp: now + TOKEN_LIFETIME, iat: now, email}` signed under `secret`.
pub open spec fn issued_token(email: Seq<char>, now: nat, secret: Seq<char>) -> Option<Seq<char>> {
    match json_string_literal(email) {
        Some(q) => hs256_token(claims_text(now + TOKEN_LIFETIME as nat, now, q), secret),
        None => None,
    }
}

/// What validating `token` at time `now` yields: its claims as
/// `(exp, iat, email)`, when the signature holds under `secret`, the claims
/// object holds the three claims, and `now` is not past `exp`.
pub open spec fn validation(token: Seq<char>, secret: Seq<char>, now: nat) -> Option<(usize, usize, Seq<char>)> {
    match hs256_claims(token, secret) {
        Some(ms) => match claims_of_members(ms) {
            Some(c) => if now <= c.0 {
                Some(c)
            } else {
                None
            },
            None => None,
        },
        None => None,
    }
}

/// A token's claims are never accepted past their `exp`, whatever the
/// signature: validation at a time after `exp` fails.
pub proof fn lemma_expired_token_rejected(token: Seq<char>, secret: Seq<char>, now: nat)
    ensures
        validation(token, secret, now) matches Some(c) ==> now <= c.0,
        hs256_claims(token, secret) matches Some(ms) && claims_of_members(ms) matches Some(c) && c.0
            < now ==> validation(token, secret, now) is None,
{
}

/// Validation changes nothing: at any two times at which a token is
/// accepted, it yields the same claims.
pub proof fn lemma_validation_stable(token: Seq<char>, secret: Seq<char>, t1: nat, t2: nat)
    requires
        validation(token, secret, t1) is Some,
        validation(token, secret, t2) is Some,
    ensures
        validation(token, secret, t1) == validation(token, secret, t2),
{
}

/// A token whose claims object carries the claims issued at `now` for
/// `email` is accepted at every time up to its expiry, and yields those
/// claims, `email` among them.
pub proof fn lemma_issued_claims_accepted(
    token: Seq<char>,
    secret: Seq<char>,
    email: Seq<char>,
    quoted: Seq<char>,
    now: usize,
    later: nat,
)
    requires
        now <= usize::MAX - TOKEN_LIFETIME,
        json_string_value(quoted) == Some(email),
        hs256_claims(token, secret) matches Some(ms) && member(ms, "exp"@) == Some(
            decimal((now + TOKEN_LIFETIME) as nat),
        ) && member(ms, "iat"@) == Some(decimal(now as nat)) && member(ms, "email"@) == Some(quoted),
        later <= now + TOKEN_LIFETIME,
    ensures
        validation(token, secret, later) == Some(((now + TOKEN_LIFETIME) as usize, now, email)),
{
    lemma_usize_of_decimal((now + TOKEN_LIFETIME) as usize);
    lemma_usize_of_decimal(now);
}

/// The characters with the Unicode White_Space property.
pub open spec fn is_white_space(c: char) -> bool {
    let u = c as u32;
    (0x9 <= u && u <= 0xd) || u == 0x20 || u == 0x85 || u == 0xa0 || u == 0x1680 || (0x2000 <= u
        && u <= 0x200a) || u == 0x2028 || u == 0x2029 || u == 0x202f || u == 0x205f || u == 0x3000
}

fn is_whitespace(c: char) -> (r: bool)
    ensures
        r == is_white_space(c),
{
    let u = c as u32;
    (0x9 <= u && u <= 0xd) || u == 0x20 || u == 0x85 || u == 0xa0 || u == 0x1680 || (0x2000 <= u
        && u <= 0x200a) || u == 0x2028 || u == 0x2029 || u == 0x202f || u == 0x205f || u == 0x3000
}

/// First index at or after `i` that does not hold whitespace.
pub open spec fn skip_space(s: Seq<char>, i: int) -> int
    decreases s.len() - i,
{
    if 0 <= i < s.len() && is_white_space(s[i]) {
        skip_space(s, i + 1)
    } else {
        i
    }
}

/// First index at or after `i` that holds whitespace, or the end.
pub open spec fn skip_word(s: Seq<char>, i: int) -> int
    decreases s.len() - i,
{
    if 0 <= i < s.len() && !is_white_space(s[i]) {
        skip_word(s, i + 1)
    } else {
        i
    }
}

/// The second whitespace-separated word of an `Authorization` header value
/// (`Bearer <token>`), if there is one.
pub open spec fn bearer_token(h: Seq<char>) -> Option<Seq<char>> {
    let a = skip_space(h, skip_word(h, skip_space(h, 0)));
    let b = skip_word(h, a);
    if a < b {
        Some(h.subrange(a, b))
    } else {
        None
    }
}

fn skip_space_exec(s: &str, len: usize, i: usize) -> (r: usize)
    requires
        len == s@.len(),
        i <= len,
    ensures
        r == skip_space(s@, i as int),
        i <= r <= len,
{
    let mut j = i;
    while j < len && is_whitespace(s.get_char(j))
        invariant
            len == s@.len(),
            i <= j <= len,
            skip_space(s@, i as int) == skip_space(s@, j as int),
        decreases len - j,
    {
        j = j + 1;
    }
    j
}

fn skip_word_exec(s: &str, len: usize, i: usize) -> (r: usize)
    requires
        len == s@.len(),
        i <= len,
    ensures
        r == skip_word(s@, i as int),
        i <= r <= len,
{
    let mut j = i;
    while j < len && !is_whitespace(s.get_char(j))
        invariant
            len == s@.len(),
            i <= j <= len,
            skip_word(s@, i as int) == skip_word(s@, j as int),
        decreases len - j,
    {
        j = j + 1;
    }
    j
}

/// The token of an `Authorization: Bearer <token>` header value: its second
/// whitespace-separated word.
pub fn parse_bearer(header: &str) -> (r: Option<String>)
    ensures
        match bearer_token(header@) {
            Some(t) => r matches Some(x) && x@ == t,
            None => r is None,
        },
{
    let len = header.unicode_len();
    let a0 = skip_space_exec(header, len, 0);
    let a1 = skip_word_exec(header, len, a0);
    let a = skip_space_exec(header, len, a1);
    let b = skip_word_exec(header, len, a);
    if a < b {
        Some(String::from_str(header.substring_char(a, b)))
    } else {
        None
    }
}

/// The current unix time, held to the range of `usize`.
fn clock_seconds() -> usize {
    let now = unix_now();
    if now < 0 {
        0
    } else if now as u64 > usize::MAX as u64 {
        usize::MAX
    } else {
        now as usize
    }
}

/// The token service and hasher. The signing secret is configuration,
/// handed in once and never changed.
pub struct Auth {
    secret: String,
}

impl Auth {
    pub closed spec fn key(&self) -> Seq<char> {
        self.secret@
    }

    pub fn new(secret: String) -> (r: Auth)
        ensures
            r.key() == secret@,
    {
        Auth { secret }
    }

    /// A salted bcrypt hash of `password` at `HASH_COST`.
    pub fn hash_password(password: &str) -> (r: Result<String, HashingError>)
        ensures
            r matches Ok(h) ==> bcrypt_verdict(password@, h@) == Some(true),
            r matches Ok(h) ==> h@.len() == 60 && h@.subrange(0, 7) == bcrypt_prefix(HASH_COST),
    {
        match bcrypt_hash(password, HASH_COST) {
            Ok(h) => Ok(h),
            Err(_) => Err(HashingError),
        }
    }

    /// Whether `password` matches the stored `hash`; `HashingError` where the
    /// hash is not well formed.
    pub fn verify_password(password: &str, hash: &str) -> (r: Result<bool, HashingError>)
        ensures
            match bcrypt_verdict(password@, hash@) {
                Some(b) => r == Ok::<bool, HashingError>(b),
                None => r is Err,
            },
            !bcrypt_layout(hash@) ==> r is Err,
    {
        match bcrypt_verify(password, hash) {
            Ok(b) => Ok(b),
            Err(_) => Err(HashingError),
        }
    }

    /// Signs the claims `{exp: now + TOKEN_LIFETIME, iat: now, email}`.
    pub fn issue_at(&self, email: &str, now: usize) -> (r: Result<String, TokenError>)
        requires
            now <= usize::MAX - TOKEN_LIFETIME,
        ensures
            match issued_token(email@, now as nat, self.key()) {
                Some(t) => r matches Ok(x) && x@ == t,
                None => r == Err::<String, TokenError>(TokenError::TokenSigningError),
            },
            r is Ok,
            r matches Ok(x) ==> x@.len() > 0,
            r matches Ok(x) ==> forall|later: nat|
                later <= now + TOKEN_LIFETIME ==> #[trigger] validation(x@, self.key(), later) == Some(
                    ((now + TOKEN_LIFETIME) as usize, now, email@),
                ),
    {
        let claims = Claims { exp: now + TOKEN_LIFETIME, iat: now, email: String::from_str(email) };
        let text = claims.to_json();
        let ghost quoted = json_string_literal(email@)->0;
        let ghost text_view = text@;
        proof {
            let e = (now + TOKEN_LIFETIME) as usize;
            assert(json_string_literal(email@) == Some(quoted));
            assert(text_view == claims_text(e as nat, now as nat, quoted));
        }
        match hs256_encode(text, self.secret.as_str()) {
            Ok(t) => {
                proof {
                    reveal_strlit("email");
                    reveal_strlit("exp");
                    reveal_strlit("iat");
                    let e = (now + TOKEN_LIFETIME) as usize;
                    assert(text_view == claims_text(e as nat, now as nat, quoted));
                    assert(json_string_literal(email@) == Some(quoted));
                    let ms = seq![("email"@, quoted), ("exp"@, decimal(e as nat)), ("iat"@, decimal(now as nat))];
                    assert(hs256_claims(t@, self.key()) == Some(ms));
                    assert("email"@.len() == 5 && "exp"@.len() == 3 && "iat"@.len() == 3);
                    assert("exp"@ != "iat"@) by {
                        assert("exp"@[0] != "iat"@[0]);
                    }
                    assert(member(ms, "email"@) == Some(quoted));
                    assert(ms.drop_first()[0].0 == "exp"@);
                    assert(member(ms.drop_first(), "exp"@) == Some(decimal(e as nat)));
                    assert(member(ms, "exp"@) == Some(decimal(e as nat)));
                    assert(ms.drop_first().drop_first()[0].0 == "iat"@);
                    assert(member(ms.drop_first().drop_first(), "iat"@) == Some(decimal(now as nat)));
                    assert(member(ms.drop_first(), "iat"@) == Some(decimal(now as nat)));
                    assert(member(ms, "iat"@) == Some(decimal(now as nat)));
                    assert forall|later: nat| later <= now + TOKEN_LIFETIME implies #[trigger] validation(
                        t@,
                        self.key(),
                        later,
                    ) == Some((e, now, email@)) by {
                        lemma_issued_claims_accepted(t@, self.key(), email@, quoted, now, later);
                    }
                }
                Ok(t)
            },
            Err(_) => Err(TokenError::TokenSigningError),
        }
    }

    /// Issues a token for `email` at the current time; it fails only when
    /// the clock reads a time outside what a token can carry.
    pub fn encode_jwt(&self, email: String) -> (r: Result<String, TokenError>)
        ensures
            r matches Ok(t) ==> exists|now: usize|
                {
                    &&& #[trigger] issued_token(email@, now as nat, self.key()) == Some(t@)
                    &&& forall|later: nat|
                        later <= now + TOKEN_LIFETIME ==> #[trigger] validation(t@, self.key(), later)
                            == Some(((now + TOKEN_LIFETIME) as usize, now, email@))
                },
            r matches Err(e) ==> e == TokenError::TokenSigningError,
    {
        let now = unix_now();
        if now < 0 || now as u64 > (usize::MAX - TOKEN_LIFETIME) as u64 {
            return Err(TokenError::TokenSigningError);
        }
        self.issue_at(email.as_str(), now as usize)
    }

    /// Checks `token`'s signature and claims, and its expiry against `now`.
    pub fn validate_at(&self, token: &str, now: usize) -> (r: Result<Claims, TokenError>)
        ensures
            match validation(token@, self.key(), now as nat) {
                Some(c) => r matches Ok(x) && x.exp == c.0 && x.iat == c.1 && x.email@ == c.2,
                None => r == Err::<Claims, TokenError>(TokenError::TokenInvalid),
            },
    {
        let members = match hs256_decode(token, self.secret.as_str()) {
            Ok(ms) => ms,
            Err(_) => {
                return Err(TokenError::TokenInvalid);
            },
        };
        let claims = match claims_from_members(&members) {
            Some(c) => c,
            None => {
                return Err(TokenError::TokenInvalid);
            },
        };
        if now <= claims.exp {
            Ok(claims)
        } else {
            Err(TokenError::TokenInvalid)
        }
    }

    /// Validates `token` at the current time.
    pub fn decode_jwt(&self, jwt_token: String) -> (r: Result<Claims, TokenError>)
        ensures
            r matches Ok(x) ==> exists|now: nat|
                #[trigger] validation(jwt_token@, self.key(), now) == Some((x.exp, x.iat, x.email@)),
            hs256_claims(jwt_token@, self.key()) is None ==> r is Err,
            r matches Err(e) ==> e == TokenError::TokenInvalid,
    {
        self.validate_at(jwt_token.as_str(), clock_seconds())
    }

    /// Steps Extract, Parse and Validate of the request gate: the claims of
    /// the bearer token in the `Authorization` header, checked at `now`.
    pub fn authenticate_at(&self, header: Option<&str>, now: usize) -> (r: Result<Claims, AuthError>)
        ensures
            match header {
                None => r matches Err(e) && is_error(e, UNAUTHORIZED, "No authorization header provided"@),
                Some(h) => match bearer_token(h@) {
                    None => r matches Err(e) && is_error(e, UNAUTHORIZED, "Invalid authorization header"@),
                    Some(t) => match validation(t, self.key(), now as nat) {
                        None => r matches Err(e) && is_error(e, UNAUTHORIZED, "Invalid token"@),
                        Some(c) => r matches Ok(x) && x.exp == c.0 && x.iat == c.1 && x.email@ == c.2,
                    },
                },
            },
    {
        let h = match header {
            Some(h) => h,
            None => {
                return Err(auth_error(UNAUTHORIZED, "No authorization header provided"));
            },
        };
        let token = match parse_bearer(h) {
            Some(t) => t,
            None => {
                return Err(auth_error(UNAUTHORIZED, "Invalid authorization header"));
            },
        };
        match self.validate_at(token.as_str(), now) {
            Ok(c) => Ok(c),
            Err(_) => Err(auth_error(UNAUTHORIZED, "Invalid token")),
        }
    }

    /// The request gate's first three steps at the current time.
    pub fn authenticate(&self, header: Option<&str>) -> (r: Result<Claims, AuthError>)
        ensures
            header is None ==> (r matches Err(e) && is_error(e, UNAUTHORIZED, "No authorization header provided"@)),
            header matches Some(h) && bearer_token(h@) is None ==> (r matches Err(e) && is_error(
                e,
                UNAUTHORIZED,
                "Invalid authorization header"@,
            )),
            r matches Ok(x) ==> (header matches Some(h) && bearer_token(h@) matches Some(t) && exists|now: nat|
                #[trigger] validation(t, self.key(), now) == Some((x.exp, x.iat, x.email@))),
            r matches Err(e) ==> e.status_code == UNAUTHORIZED,
    {
        self.authenticate_at(header, clock_seconds())
    }
}

} // verus!
