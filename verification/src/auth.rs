//! Who a request comes from, and what that user may do.

use vstd::prelude::*;
use crate::models::Claims;
use crate::role::Role;
use crate::token::strip_prefix;

verus! {

/// The authenticated user of a request.
#[derive(Debug, PartialEq, Eq)]
pub struct AuthUser {
    pub user_id: u64,
    pub username: String,
    pub role: Role,
    /// Present only where this user is linked to an employee record.
    pub employee_id: Option<u64>,
}

/// Why a request was turned away.
#[derive(Debug, Clone, Copy, PartialEq, Eq, Structural)]
pub enum AuthError {
    /// The request has no `Authorization` header.
    MissingHeader,
    /// The `Authorization` header is no text.
    InvalidEncoding,
    /// The `Authorization` header does not start with `Bearer `.
    NotBearer,
    /// The token does not verify, or has expired.
    InvalidToken,
    /// The token names a role that does not exist.
    InvalidRole,
    /// The user is no administrator.
    AdminOnly,
    /// The user is neither in HR nor an administrator.
    HrOrAdminOnly,
}

/// The scheme word, and the blank after it, that a bearer token follows.
pub open spec fn bearer_prefix() -> Seq<char> {
    "Bearer "@
}

/// The token of an `Authorization` header: what follows `Bearer `, where the
/// header starts with it.
pub fn bearer_token<'a>(header: &'a str) -> (token: Option<&'a str>)
    ensures
        match token {
            Some(t) => header@ == bearer_prefix() + t@,
            None => !bearer_prefix().is_prefix_of(header@),
        },
{
    strip_prefix(header, "Bearer ")
}

/// The token of a request. `header` is the request's `Authorization` header
/// where it has one, and in it the header's text where the header is text.
pub fn request_token<'a>(header: Option<Option<&'a str>>) -> (token: Result<&'a str, AuthError>)
    ensures
        match token {
            Ok(t) => header matches Some(Some(h)) && h@ == bearer_prefix() + t@,
            Err(e) => match header {
                None => e == AuthError::MissingHeader,
                Some(None) => e == AuthError::InvalidEncoding,
                Some(Some(h)) => e == AuthError::NotBearer && !bearer_prefix().is_prefix_of(h@),
            },
        },
{
    match header {
        None => Err(AuthError::MissingHeader),
        Some(None) => Err(AuthError::InvalidEncoding),
        Some(Some(h)) => match bearer_token(h) {
            Some(t) => Ok(t),
            None => Err(AuthError::NotBearer),
        },
    }
}

impl AuthError {
    /// The HTTP status of a refusal: 403 for a user who is known but may
    /// not, 401 for a request whose user is not known.
    pub fn status(&self) -> (code: u16)
        ensures
            code == if *self == AuthError::AdminOnly || *self == AuthError::HrOrAdminOnly {
                403u16
            } else {
                401u16
            },
    {
        match self {
            AuthError::AdminOnly => 403,
            AuthError::HrOrAdminOnly => 403,
            _ => 401,
        }
    }
}

/// The user that verified claims stand for. Claims with a role number that
/// names no role are refused.
pub fn user_from_claims(claims: Claims) -> (user: Result<AuthUser, AuthError>)
    ensures
        match user {
            Ok(u) => {
                &&& Role::spec_from_id(claims.role) == Some(u.role)
                &&& u.user_id == claims.user_id
                &&& u.username == claims.sub
                &&& u.employee_id == claims.employee_id
            },
            Err(e) => e == AuthError::InvalidRole && Role::spec_from_id(claims.role).is_none(),
        },
{
    match Role::from_id(claims.role) {
        Some(role) => Ok(
            AuthUser {
                user_id: claims.user_id,
                username: claims.sub,
                role,
                employee_id: claims.employee_id,
            },
        ),
        None => Err(AuthError::InvalidRole),
    }
}

impl AuthUser {
    /// Lets administrators through.
    pub fn require_admin(&self) -> (allowed: Result<(), AuthError>)
        ensures
            allowed == if self.role == Role::Admin {
                Ok::<(), AuthError>(())
            } else {
                Err(AuthError::AdminOnly)
            },
    {
        if self.role == Role::Admin {
            Ok(())
        } else {
            Err(AuthError::AdminOnly)
        }
    }

    /// Lets administrators and HR through.
    pub fn require_hr_or_admin(&self) -> (allowed: Result<(), AuthError>)
        ensures
            allowed == if self.role == Role::Admin || self.role == Role::Hr {
                Ok::<(), AuthError>(())
            } else {
                Err(AuthError::HrOrAdminOnly)
            },
    {
        match self.role {
            Role::Admin => Ok(()),
            Role::Hr => Ok(()),
            _ => Err(AuthError::HrOrAdminOnly),
        }
    }

    /// Whether the user has the role of an employee.
    pub fn is_employee(&self) -> (employee: bool)
        ensures
            employee == (self.role == Role::Employee),
    {
        self.role == Role::Employee
    }
}

} // verus!
