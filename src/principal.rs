//! Resolving a token's subject to the stored user it names.
use vstd::prelude::*;
use crate::auth::{AuthError, auth_error, is_error, UNAUTHORIZED, INTERNAL_SERVER_ERROR};

verus! {

/// The part of a stored user record that authentication reads.
#[derive(Clone, Debug)]
pub struct User {
    pub id: i32,
    pub name: String,
    pub email: Option<String>,
    pub password: String,
}

/// The backing store failed.
#[derive(Debug, PartialEq, Eq, Structural)]
pub struct StorageError;

pub open spec fn has_email(u: User, email: Seq<char>) -> bool {
    u.email matches Some(e) && e@ == email
}

/// The first of `rows` whose email is exactly `email`.
pub open spec fn first_match(rows: Seq<User>, email: Seq<char>) -> Option<User>
    decreases rows.len(),
{
    if rows.len() == 0 {
        None
    } else if has_email(rows[0], email) {
        Some(rows[0])
    } else {
        first_match(rows.drop_first(), email)
    }
}

/// Picks, among the candidate rows the store returned, the first whose
/// email equals `email` exactly.
pub fn resolve(rows: Vec<User>, email: &str) -> (r: Option<User>)
    ensures
        r == first_match(rows@, email@),
{
    let ghost all = rows@;
    let mut pool = rows;
    let target = String::from_str(email);
    let mut i: usize = 0;
    assert(all.subrange(0, all.len() as int) =~= all);
    while i < pool.len()
        invariant
            pool@ == all,
            rows@ == all,
            target@ == email@,
            i <= all.len(),
            first_match(all, email@) == first_match(all.subrange(i as int, all.len() as int), email@),
        decreases all.len() - i,
    {
        let ghost rest = all.subrange(i as int, all.len() as int);
        assert(rest[0] == all[i as int]);
        assert(rest.drop_first() =~= all.subrange(i + 1, all.len() as int));
        let found = match &pool[i].email {
            Some(e) => *e == target,
            None => false,
        };
        assert(found == has_email(all[i as int], email@));
        if found {
            assert(has_email(rest[0], email@));
            assert(first_match(rest, email@) == Some(rest[0]));
            let u = pool.remove(i);
            assert(u == all[i as int]);
            return Some(u);
        }
        i = i + 1;
    }
    None
}

/// Step Resolve of the request gate: the principal for a validated email,
/// from the store's answer to a lookup by that email.
pub fn resolve_principal(lookup: Result<Vec<User>, StorageError>, email: &str) -> (r: Result<User, AuthError>)
    ensures
        match lookup {
            Err(_) => r matches Err(e) && is_error(e, INTERNAL_SERVER_ERROR, "Internal server error"@),
            Ok(rows) => match first_match(rows@, email@) {
                None => r matches Err(e) && is_error(e, UNAUTHORIZED, "User not found"@),
                Some(u) => r == Ok::<User, AuthError>(u),
            },
        },
{
    match lookup {
        Err(_) => Err(auth_error(INTERNAL_SERVER_ERROR, "Internal server error")),
        Ok(rows) => match resolve(rows, email) {
            None => Err(auth_error(UNAUTHORIZED, "User not found")),
            Some(u) => Ok(u),
        },
    }
}

} // verus!
