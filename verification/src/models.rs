//! The records that requests, tokens and the user table carry.

use vstd::prelude::*;

verus! {

/// A registration request.
pub struct UserReq {
    pub username: String,
    pub password: String,
    pub role_id: u8,
}

/// A login request.
pub struct LoginReqDto {
    pub username: String,
    pub password: String,
}

/// A row of the user table as the login reads it.
pub struct UserSql {
    pub id: u64,
    pub username: String,
    pub password: String,
    pub role_id: u8,
    pub employee_id: Option<u64>,
}

/// A row of the user table.
#[derive(Debug)]
pub struct User {
    pub id: u64,
    pub username: String,
    pub password: String,
    pub role_id: u8,
    pub employee_id: Option<u64>,
    pub is_active: bool,
}

/// A department.
#[derive(Debug)]
pub struct Department {
    pub id: u64,
    pub name: String,
}

/// A job title.
#[derive(Debug)]
pub struct JobTitle {
    pub id: u64,
    pub title: String,
}

/// The two kinds of token that a login hands out.
#[derive(Debug, Clone, Copy, PartialEq, Eq, Structural)]
pub enum TokenType {
    /// Short-lived; authorizes requests.
    Access,
    /// Long-lived; buys a new pair of tokens, once.
    Refresh,
}

/// The claims of a token.
#[derive(Debug, PartialEq, Eq)]
pub struct Claims {
    pub user_id: u64,
    /// The username.
    pub sub: String,
    /// The number of the user's role.
    pub role: u8,
    /// The second, counted from the epoch, at which the token expires.
    pub exp: usize,
    /// The token's own identifier.
    pub jti: String,
    pub token_type: TokenType,
    /// Present only where the user is linked to an employee record.
    pub employee_id: Option<u64>,
}

} // verus!
