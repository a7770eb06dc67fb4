//! The login operation: input check, user lookup, password check, token.
use vstd::prelude::*;
use crate::auth::{
    Auth, AuthError, auth_error, is_error, issued_token, validation, TOKEN_LIFETIME, BAD_REQUEST,
    UNAUTHORIZED, INTERNAL_SERVER_ERROR,
};
use crate::principal::{User, StorageError, first_match, resolve};
use crate::primitives::{bcrypt_verdict, unix_now};

verus! {

/// The body of a login request.
pub struct LoginModel {
    pub email: String,
    pub password: String,
}

/// What a successful login hands back: a token and the user's display name.
pub struct LoginReply {
    pub token: String,
    pub username: String,
}

pub struct UserController;

/// How login refuses, before any token is made, as status and message;
/// `None` when the password matches the stored hash of the user found.
pub open spec fn login_refusal(
    email: Seq<char>,
    password: Seq<char>,
    lookup: Result<Vec<User>, StorageError>,
) -> Option<(u16, Seq<char>)> {
    if email.len() == 0 || password.len() == 0 {
        Some((BAD_REQUEST, "Email and password are required"@))
    } else {
        match lookup {
            Err(_) => Some((INTERNAL_SERVER_ERROR, "Failed to find user"@)),
            Ok(rows) => match first_match(rows@, email) {
                None => Some((UNAUTHORIZED, "User not found"@)),
                Some(u) => match bcrypt_verdict(password, u.password@) {
                    None => Some((INTERNAL_SERVER_ERROR, "Failed to verify password"@)),
                    Some(false) => Some((UNAUTHORIZED, "Invalid password"@)),
                    Some(true) => None,
                },
            },
        }
    }
}

impl UserController {
    /// Step one of login: both fields must be non-empty.
    pub fn check_login_input(email: &str, password: &str) -> (r: Result<(), AuthError>)
        ensures
            if email@.len() == 0 || password@.len() == 0 {
                r matches Err(e) && is_error(e, BAD_REQUEST, "Email and password are required"@)
            } else {
                r is Ok
            },
    {
        if email.unicode_len() == 0 || password.unicode_len() == 0 {
            Err(auth_error(BAD_REQUEST, "Email and password are required"))
        } else {
            Ok(())
        }
    }

    /// Login up to the token: input check, lookup and password check; the
    /// user found when the password matches.
    fn check_credentials(payload: &LoginModel, lookup: Result<Vec<User>, StorageError>) -> (r: Result<
        User,
        AuthError,
    >)
        ensures
            match login_refusal(payload.email@, payload.password@, lookup) {
                Some((s, m)) => r matches Err(e) && is_error(e, s, m),
                None => lookup matches Ok(rows) && r matches Ok(u) && first_match(rows@, payload.email@)
                    == Some(u),
            },
    {
        let email = payload.email.as_str();
        let password = payload.password.as_str();
        match Self::check_login_input(email, password) {
            Err(e) => {
                return Err(e);
            },
            Ok(()) => {},
        }
        let rows = match lookup {
            Ok(rows) => rows,
            Err(_) => {
                return Err(auth_error(INTERNAL_SERVER_ERROR, "Failed to find user"));
            },
        };
        let user = match resolve(rows, email) {
            Some(u) => u,
            None => {
                return Err(auth_error(UNAUTHORIZED, "User not found"));
            },
        };
        match Auth::verify_password(password, user.password.as_str()) {
            Err(_) => Err(auth_error(INTERNAL_SERVER_ERROR, "Failed to verify password")),
            Ok(false) => Err(auth_error(UNAUTHORIZED, "Invalid password")),
            Ok(true) => Ok(user),
        }
    }

    /// Login at time `now`, given the store's answer to a lookup by email:
    /// the refusals of `login_refusal`, or else a token issued at `now` and
    /// the user's display name.
    pub fn login_at(
        auth: &Auth,
        payload: &LoginModel,
        lookup: Result<Vec<User>, StorageError>,
        now: usize,
    ) -> (r: Result<LoginReply, AuthError>)
        requires
            now <= usize::MAX - TOKEN_LIFETIME,
        ensures
            match login_refusal(payload.email@, payload.password@, lookup) {
                Some((s, m)) => r matches Err(e) && is_error(e, s, m),
                None => lookup matches Ok(rows) && first_match(rows@, payload.email@) matches Some(u)
                    && r matches Ok(x) && x.username@ == u.name@ && issued_token(
                    payload.email@,
                    now as nat,
                    auth.key(),
                ) == Some(x.token@),
            },
            r matches Ok(x) ==> x.token@.len() > 0,
            r matches Ok(x) ==> forall|later: nat|
                later <= now + TOKEN_LIFETIME ==> #[trigger] validation(x.token@, auth.key(), later)
                    == Some(((now + TOKEN_LIFETIME) as usize, now, payload.email@)),
    {
        let user = match Self::check_credentials(payload, lookup) {
            Ok(u) => u,
            Err(e) => {
                return Err(e);
            },
        };
        match auth.issue_at(payload.email.as_str(), now) {
            Err(_) => Err(auth_error(INTERNAL_SERVER_ERROR, "Failed to encode token")),
            Ok(token) => Ok(LoginReply { token, username: user.name }),
        }
    }

    /// Login at the current time, which is read only once the password has
    /// matched.
    pub fn login(auth: &Auth, payload: &LoginModel, lookup: Result<Vec<User>, StorageError>) -> (r: Result<
        LoginReply,
        AuthError,
    >)
        ensures
            match login_refusal(payload.email@, payload.password@, lookup) {
                Some((s, m)) => r matches Err(e) && is_error(e, s, m),
                None => match r {
                    Err(e) => is_error(e, INTERNAL_SERVER_ERROR, "Failed to encode token"@),
                    Ok(x) => lookup matches Ok(rows) && first_match(rows@, payload.email@) matches Some(u)
                        && x.username@ == u.name@ && x.token@.len() > 0 && exists|now: usize|
                        {
                            &&& #[trigger] issued_token(payload.email@, now as nat, auth.key())
                                == Some(x.token@)
                            &&& forall|later: nat|
                                later <= now + TOKEN_LIFETIME ==> #[trigger] validation(
                                    x.token@,
                                    auth.key(),
                                    later,
                                ) == Some(((now + TOKEN_LIFETIME) as usize, now, payload.email@))
                        },
                },
            },
    {
        let user = match Self::check_credentials(payload, lookup) {
            Ok(u) => u,
            Err(e) => {
                return Err(e);
            },
        };
        let now = unix_now();
        if now < 0 || now as u64 > (usize::MAX - TOKEN_LIFETIME) as u64 {
            return Err(auth_error(INTERNAL_SERVER_ERROR, "Failed to encode token"));
        }
        match auth.issue_at(payload.email.as_str(), now as usize) {
            Err(_) => Err(auth_error(INTERNAL_SERVER_ERROR, "Failed to encode token")),
            Ok(token) => Ok(LoginReply { token, username: user.name }),
        }
    }
}

} // verus!
