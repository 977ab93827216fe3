//! Session tokens: what a token claims, how long it holds, and who a
//! request is taken to come from.

use vstd::prelude::*;

verus! {

/// How long a session token holds, in seconds: twenty-four hours.
pub const TOKEN_LIFETIME_SECS: i64 = 86400;

/// What a session token claims: the user it was issued to, and the second
/// of the epoch at which it expires.
#[derive(Debug)]
pub struct Claims {
    pub sub: String,
    pub exp: usize,
}

/// The user that a request was found to come from.
#[derive(Debug)]
pub struct AuthenticatedUser {
    pub username: String,
}

/// A request carries no token that holds.
#[derive(Clone, Copy, Debug, PartialEq, Eq, Structural)]
pub enum AuthError {
    Unauthorized,
}

/// When a token that is issued at `now` expires, where that second can be
/// written down.
pub open spec fn expiry_spec(now: i64) -> Option<usize> {
    if 0 <= now + TOKEN_LIFETIME_SECS <= i64::MAX && now + TOKEN_LIFETIME_SECS <= usize::MAX {
        Some((now + TOKEN_LIFETIME_SECS) as usize)
    } else {
        None
    }
}

/// Computes when a token that is issued at `now` expires.
pub fn token_expiry(now: i64) -> (r: Option<usize>)
    ensures
        r == expiry_spec(now),
{
    if now > i64::MAX - TOKEN_LIFETIME_SECS {
        return None;
    }
    let exp: i64 = now + TOKEN_LIFETIME_SECS;
    if exp < 0 {
        return None;
    }
    if exp as u64 > usize::MAX as u64 {
        return None;
    }
    Some(exp as usize)
}

/// Makes the claims of a token that is issued to `username` at `now`.
pub fn claims_for(username: &str, now: i64) -> (r: Option<Claims>)
    ensures
        r is Some <==> expiry_spec(now) is Some,
        r matches Some(c) ==> c.sub@ == username@ && Some(c.exp) == expiry_spec(now),
{
    match token_expiry(now) {
        Some(exp) => Some(Claims { sub: String::from_str(username), exp }),
        None => None,
    }
}

/// Decides who a request comes from: `claims` are those of the token in
/// its session cookie, where it carries one that holds.
pub fn authenticate(claims: Option<Claims>) -> (r: Result<AuthenticatedUser, AuthError>)
    ensures
        r is Ok <==> claims is Some,
        r matches Ok(user) ==> user.username@ == claims->0.sub@,
        r matches Err(e) ==> e == AuthError::Unauthorized,
{
    match claims {
        Some(c) => Ok(AuthenticatedUser { username: c.sub }),
        None => Err(AuthError::Unauthorized),
    }
}

} // verus!
