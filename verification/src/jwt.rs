//! The claims of the tokens that a login hands out.

use vstd::prelude::*;
use std::time::{Duration, SystemTime, UNIX_EPOCH};
use uuid::Builder;
use crate::models::{Claims, TokenType};
use crate::random::random_bytes;

verus! {

/// `std::time::SystemTime`, a reading of the system's clock.
#[verifier::external_type_specification]
#[verifier::external_body]
pub struct ExSystemTime(SystemTime);

/// `SystemTime::now` reads the clock. The result is whatever the clock
/// says.
#[verifier::external_body]
fn clock() -> (at: SystemTime) {
    SystemTime::now()
}

/// `SystemTime::duration_since` gives the time from the start of 1970 to a
/// reading of the clock, or an error for a reading that lies before it.
#[verifier::external_body]
fn since_epoch(at: &SystemTime) -> (since: Option<Duration>) {
    match at.duration_since(UNIX_EPOCH) {
        Ok(since) => Some(since),
        Err(_) => None,
    }
}

/// `Duration::as_secs` gives the whole seconds of a span of time.
#[verifier::external_body]
fn whole_seconds(span: &Duration) -> (seconds: u64) {
    span.as_secs()
}

/// The second that the clock shows, counted from the start of 1970; `None`
/// for a clock that stands before it.
fn now() -> (seconds: Option<u64>) {
    let at = clock();
    match since_epoch(&at) {
        Some(since) => Some(whole_seconds(&since)),
        None => None,
    }
}

/// `Builder::from_random_bytes` makes a version 4 identifier of sixteen
/// random bytes, and `to_string` writes it in hyphenated form.
#[verifier::external_body]
fn jti_of(bytes: [u8; 16]) -> (jti: String) {
    Builder::from_random_bytes(bytes).into_uuid().to_string()
}

/// The user that a token is issued to.
pub struct Subject {
    pub user_id: u64,
    pub username: String,
    /// The number of the user's role.
    pub role: u8,
    pub employee_id: Option<u64>,
}

/// The second at which a token issued at the second `now` for `ttl` seconds
/// expires, where the machine can count that far.
pub open spec fn spec_expiry(now: Option<u64>, ttl: usize) -> Option<usize> {
    match now {
        Some(seconds) => if seconds + ttl <= usize::MAX {
            Some((seconds + ttl) as usize)
        } else {
            None
        },
        None => None,
    }
}

/// The second at which a token issued now for `ttl` seconds expires. `now`
/// is what the clock gave; there is no expiry where it gave nothing or where
/// the machine cannot count that far.
pub fn expiry(now: Option<u64>, ttl: usize) -> (exp: Option<usize>)
    ensures
        exp == spec_expiry(now, ttl),
{
    match now {
        Some(seconds) => {
            if seconds > usize::MAX as u64 {
                return None;
            }
            (seconds as usize).checked_add(ttl)
        },
        None => None,
    }
}

/// The claims of a token of the given kind for `subject`, with the expiry
/// `exp` and the identifier `jti`.
pub fn issue_claims(subject: Subject, token_type: TokenType, exp: usize, jti: String) -> (claims:
    Claims)
    ensures
        claims.user_id == subject.user_id,
        claims.sub == subject.username,
        claims.role == subject.role,
        claims.employee_id == subject.employee_id,
        claims.exp == exp,
        claims.jti == jti,
        claims.token_type == token_type,
{
    Claims {
        user_id: subject.user_id,
        sub: subject.username,
        role: subject.role,
        exp,
        jti,
        token_type,
        employee_id: subject.employee_id,
    }
}

/// The expiry of claims, if there are any.
pub open spec fn expiry_of(claims: Option<Claims>) -> Option<usize> {
    match claims {
        Some(c) => Some(c.exp),
        None => None,
    }
}

/// The claims of the given kind for `subject` that expire `ttl` seconds
/// after the second `now`, under an identifier made of the given random
/// bytes. `None` where there is no expiry or there are no bytes.
pub fn claims_from(
    subject: Subject,
    token_type: TokenType,
    ttl: usize,
    now: Option<u64>,
    bytes: Option<[u8; 16]>,
) -> (claims: Option<Claims>)
    ensures
        claims.is_some() <==> spec_expiry(now, ttl).is_some() && bytes.is_some(),
        claims matches Some(c) ==> {
            &&& c.user_id == subject.user_id
            &&& c.sub == subject.username
            &&& c.role == subject.role
            &&& c.employee_id == subject.employee_id
            &&& c.token_type == token_type
            &&& spec_expiry(now, ttl) == Some(c.exp)
        },
{
    match (expiry(now, ttl), bytes) {
        (Some(exp), Some(drawn)) => Some(issue_claims(subject, token_type, exp, jti_of(drawn))),
        _ => None,
    }
}

/// Fresh claims of the given kind for `subject`, valid for `ttl` seconds
/// from now, under a random identifier of their own. `None` where no expiry
/// can be had or the system has no random numbers to give: the expiry is
/// the one that some reading of the clock gives.
pub fn fresh_claims(subject: Subject, token_type: TokenType, ttl: usize) -> (claims: Option<Claims>)
    ensures
        exists|now: Option<u64>| spec_expiry(now, ttl) == expiry_of(claims),
        claims matches Some(c) ==> {
            &&& c.user_id == subject.user_id
            &&& c.sub == subject.username
            &&& c.role == subject.role
            &&& c.employee_id == subject.employee_id
            &&& c.token_type == token_type
            &&& c.exp >= ttl
        },
{
    let seconds = now();
    let claims = claims_from(subject, token_type, ttl, seconds, random_bytes());
    proof {
        if claims.is_some() {
            assert(spec_expiry(seconds, ttl) == expiry_of(claims));
        } else {
            assert(spec_expiry(None, ttl) == expiry_of(claims));
        }
    }
    claims
}

/// Whether a token may be traded for a new pair, or revoked at logout: only
/// a refresh token may.
pub fn is_refresh(claims: &Claims) -> (refresh: bool)
    ensures
        refresh == (claims.token_type == TokenType::Refresh),
{
    claims.token_type == TokenType::Refresh
}

} // verus!
