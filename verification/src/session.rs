//! Sessions: logging in, trading a refresh token for a new pair of tokens,
//! and logging out.
//!
//! Each of the three is a small machine. The caller talks to the store and
//! signs tokens; it hands every answer to the machine and does what the
//! machine asks for next, until the machine gives the reply.

use vstd::prelude::*;
use crate::auth::{bearer_prefix, request_token, AuthError};
use crate::jwt::is_refresh;
use crate::models::{Claims, TokenType};
use crate::password::{phc_verifies, spec_check, verify_password};
use crate::registration::check_credentials;
use crate::token::is_blank;

verus! {

/// How a login ends.
#[derive(Debug, Clone, Copy, PartialEq, Eq, Structural)]
pub enum LoginReply {
    /// The user is logged in and gets a pair of tokens.
    LoggedIn,
    /// The username is blank, or the password is empty.
    CredentialsRequired,
    /// No such user, or not that user's password. The two are not told
    /// apart.
    InvalidCredentials,
    /// The store failed.
    InternalError,
}

impl LoginReply {
    /// The HTTP status of a reply.
    pub open spec fn spec_status(self) -> u16 {
        match self {
            LoginReply::LoggedIn => 200,
            LoginReply::CredentialsRequired => 400,
            LoginReply::InvalidCredentials => 401,
            LoginReply::InternalError => 500,
        }
    }

    /// The HTTP status of a reply.
    pub fn status(&self) -> (code: u16)
        ensures
            code == self.spec_status(),
    {
        match self {
            LoginReply::LoggedIn => 200,
            LoginReply::CredentialsRequired => 400,
            LoginReply::InvalidCredentials => 401,
            LoginReply::InternalError => 500,
        }
    }
}

/// What the store said of the user who logs in.
#[derive(Debug, PartialEq, Eq)]
pub enum UserLookup {
    /// The user's record, with this password hash.
    Found(String),
    /// No user of that name.
    NotFound,
    /// The lookup failed.
    Failed,
}

/// An answer that a login was waiting for.
#[derive(Debug, PartialEq, Eq)]
pub enum LoginEvent {
    /// The store answered the lookup of the user.
    UserLooked(UserLookup),
    /// The refresh token was written to the store, or could not be.
    TokensStored(bool),
    /// The time of the last login was updated, or could not be.
    LastLoginTouched(bool),
}

/// What a login asks its caller to do next.
#[derive(Debug, Clone, Copy, PartialEq, Eq, Structural)]
pub enum LoginAction {
    /// Look the user up by the submitted username.
    FetchUser,
    /// Sign a pair of tokens for the user and write the refresh token to
    /// the store.
    IssueTokens,
    /// Update the time of the user's last login.
    TouchLastLogin,
    /// Answer the request.
    Reply(LoginReply),
}

/// The answer that a login waits for.
#[derive(Debug, Clone, Copy, PartialEq, Eq, Structural)]
pub enum LoginStage {
    AwaitingUser,
    AwaitingTokenStore,
    AwaitingTouch,
    Finished,
}

/// A login in progress.
pub struct Login {
    stage: LoginStage,
    password: String,
}

/// The next stage and action of a login at `stage` for an event, where
/// `password_ok` says whether the submitted password verifies against the
/// hash of a user that was found. An event that the stage does not wait for
/// ends the login with an internal error.
pub open spec fn spec_login_step(stage: LoginStage, event: LoginEvent, password_ok: bool) -> (
    LoginStage,
    LoginAction,
) {
    match (stage, event) {
        (LoginStage::AwaitingUser, LoginEvent::UserLooked(UserLookup::Found(_))) => if password_ok {
            (LoginStage::AwaitingTokenStore, LoginAction::IssueTokens)
        } else {
            (LoginStage::Finished, LoginAction::Reply(LoginReply::InvalidCredentials))
        },
        (LoginStage::AwaitingUser, LoginEvent::UserLooked(UserLookup::NotFound)) => (
            LoginStage::Finished,
            LoginAction::Reply(LoginReply::InvalidCredentials),
        ),
        (LoginStage::AwaitingTokenStore, LoginEvent::TokensStored(true)) => (
            LoginStage::AwaitingTouch,
            LoginAction::TouchLastLogin,
        ),
        (LoginStage::AwaitingTouch, LoginEvent::LastLoginTouched(_)) => (
            LoginStage::Finished,
            LoginAction::Reply(LoginReply::LoggedIn),
        ),
        _ => (LoginStage::Finished, LoginAction::Reply(LoginReply::InternalError)),
    }
}

/// Whether the password of a login verifies against the hash that an event
/// brings, if it brings one.
pub open spec fn password_accepted(password: Seq<char>, event: LoginEvent) -> bool {
    match event {
        LoginEvent::UserLooked(UserLookup::Found(hash)) => spec_check(
            phc_verifies(password, hash@),
        ).is_ok(),
        _ => false,
    }
}

impl Login {
    /// The answer that the login waits for.
    pub closed spec fn stage(&self) -> LoginStage {
        self.stage
    }

    /// The password that was submitted.
    pub closed spec fn password(&self) -> Seq<char> {
        self.password@
    }

    /// Starts a login. Blank credentials end it at once; otherwise the user
    /// is to be looked up.
    pub fn begin(username: &str, password: String) -> (started: (Login, LoginAction))
        ensures
            started.0.password() == password@,
            (started.0.stage(), started.1) == if is_blank(username@) || password@.len() == 0 {
                (LoginStage::Finished, LoginAction::Reply(LoginReply::CredentialsRequired))
            } else {
                (LoginStage::AwaitingUser, LoginAction::FetchUser)
            },
    {
        let given = check_credentials(username, password.as_str()).is_ok();
        if given {
            (Login { stage: LoginStage::AwaitingUser, password }, LoginAction::FetchUser)
        } else {
            (
                Login { stage: LoginStage::Finished, password },
                LoginAction::Reply(LoginReply::CredentialsRequired),
            )
        }
    }

    /// Takes in an answer and says what to do next.
    pub fn step(&mut self, event: LoginEvent) -> (action: LoginAction)
        ensures
            final(self).password() == old(self).password(),
            (final(self).stage(), action) == spec_login_step(
                old(self).stage(),
                event,
                password_accepted(old(self).password(), event),
            ),
    {
        let (stage, action) = match (self.stage, &event) {
            (LoginStage::AwaitingUser, LoginEvent::UserLooked(UserLookup::Found(hash))) => {
                match verify_password(self.password.as_str(), hash.as_str()) {
                    Ok(()) => (LoginStage::AwaitingTokenStore, LoginAction::IssueTokens),
                    Err(_) => (
                        LoginStage::Finished,
                        LoginAction::Reply(LoginReply::InvalidCredentials),
                    ),
                }
            },
            (LoginStage::AwaitingUser, LoginEvent::UserLooked(UserLookup::NotFound)) => (
                LoginStage::Finished,
                LoginAction::Reply(LoginReply::InvalidCredentials),
            ),
            (LoginStage::AwaitingTokenStore, LoginEvent::TokensStored(true)) => (
                LoginStage::AwaitingTouch,
                LoginAction::TouchLastLogin,
            ),
            (LoginStage::AwaitingTouch, LoginEvent::LastLoginTouched(_)) => (
                LoginStage::Finished,
                LoginAction::Reply(LoginReply::LoggedIn),
            ),
            _ => (LoginStage::Finished, LoginAction::Reply(LoginReply::InternalError)),
        };
        self.stage = stage;
        action
    }
}

/// A login does not tell an unknown user from a wrong password, and it
/// succeeds whether or not the time of the last login could be updated.
pub proof fn lemma_login_replies(hash: String, touched: bool)
    ensures
        spec_login_step(
            LoginStage::AwaitingUser,
            LoginEvent::UserLooked(UserLookup::NotFound),
            false,
        ) == spec_login_step(
            LoginStage::AwaitingUser,
            LoginEvent::UserLooked(UserLookup::Found(hash)),
            false,
        ),
        spec_login_step(LoginStage::AwaitingTouch, LoginEvent::LastLoginTouched(touched), false).1
            == LoginAction::Reply(LoginReply::LoggedIn),
{
}

/// How a refresh ends.
#[derive(Debug, Clone, Copy, PartialEq, Eq, Structural)]
pub enum RefreshReply {
    /// The old refresh token is revoked and a new pair of tokens goes out.
    Refreshed,
    /// The request has no `Authorization` header.
    NoToken,
    /// The header holds no bearer token.
    InvalidToken,
    /// The token does not verify, is no refresh token, or is not, or no
    /// longer, usable.
    Unauthorized,
    /// The store failed.
    InternalError,
}

impl RefreshReply {
    /// The HTTP status of a reply.
    pub fn status(&self) -> (code: u16)
        ensures
            code == match *self {
                RefreshReply::Refreshed => 200u16,
                RefreshReply::InternalError => 500u16,
                _ => 401u16,
            },
    {
        match self {
            RefreshReply::Refreshed => 200,
            RefreshReply::InternalError => 500,
            _ => 401,
        }
    }
}

/// What the store said of the record of a refresh token.
#[derive(Debug, Clone, Copy, PartialEq, Eq, Structural)]
pub enum RecordLookup {
    /// The record, with its number, its user and its revocation flag.
    Found { id: u64, user_id: u64, revoked: i8 },
    /// No record of that token.
    NotFound,
    /// The lookup failed.
    Failed,
}

/// An answer that a refresh was waiting for.
#[derive(Debug, PartialEq, Eq)]
pub enum RefreshEvent {
    /// The token was verified: its claims, or nothing for a token that
    /// does not verify.
    Verified(Option<Claims>),
    /// The store answered the lookup of the token's record.
    Record(RecordLookup),
    /// The old record was marked as revoked, or could not be.
    Revoked(bool),
    /// The new refresh token was written to the store, or could not be.
    TokensStored(bool),
}

/// What a refresh asks its caller to do next.
#[derive(Debug, PartialEq, Eq)]
pub enum RefreshAction {
    /// Verify this token.
    VerifyToken(String),
    /// Look up the record of the refresh token with this identifier.
    FindRecord(String),
    /// Mark the record with this number as revoked.
    Revoke(u64),
    /// Sign a new pair of tokens and write the refresh token to the store
    /// under this user.
    IssueTokens(u64),
    /// Answer the request.
    Reply(RefreshReply),
}

/// The answer that a refresh waits for.
#[derive(Debug, Clone, Copy, PartialEq, Eq, Structural)]
pub enum RefreshStage {
    AwaitingVerification,
    AwaitingRecord,
    /// With the user of the record that is being revoked.
    AwaitingRevocation(u64),
    AwaitingTokenStore,
    Finished,
}

/// The next stage of a refresh at `stage` for an event. An event that the
/// stage does not wait for ends the refresh with an internal error.
pub open spec fn spec_refresh_stage(stage: RefreshStage, event: RefreshEvent) -> RefreshStage {
    match (stage, event) {
        (RefreshStage::AwaitingVerification, RefreshEvent::Verified(Some(claims))) => if claims.token_type
            == TokenType::Refresh {
            RefreshStage::AwaitingRecord
        } else {
            RefreshStage::Finished
        },
        (
            RefreshStage::AwaitingRecord,
            RefreshEvent::Record(RecordLookup::Found { id, user_id, revoked }),
        ) => if revoked == 0 {
            RefreshStage::AwaitingRevocation(user_id)
        } else {
            RefreshStage::Finished
        },
        (RefreshStage::AwaitingRevocation(_), RefreshEvent::Revoked(true)) => RefreshStage::AwaitingTokenStore,
        _ => RefreshStage::Finished,
    }
}

/// The reply of a refresh that ends at `stage` with an event.
pub open spec fn spec_refresh_reply(stage: RefreshStage, event: RefreshEvent) -> RefreshReply {
    match (stage, event) {
        (RefreshStage::AwaitingVerification, RefreshEvent::Verified(_)) => RefreshReply::Unauthorized,
        (RefreshStage::AwaitingRecord, RefreshEvent::Record(RecordLookup::Failed)) => RefreshReply::InternalError,
        (RefreshStage::AwaitingRecord, RefreshEvent::Record(_)) => RefreshReply::Unauthorized,
        (RefreshStage::AwaitingTokenStore, RefreshEvent::TokensStored(true)) => RefreshReply::Refreshed,
        _ => RefreshReply::InternalError,
    }
}

/// Whether an action is the one that a refresh takes from `stage` on an
/// event: the lookup of the verified token's record, the revocation of the
/// record that was found, the issue of tokens for the record's user, or the
/// reply.
pub open spec fn refresh_action_fits(stage: RefreshStage, event: RefreshEvent, action: RefreshAction) -> bool {
    match spec_refresh_stage(stage, event) {
        RefreshStage::AwaitingRecord => {
            &&& event matches RefreshEvent::Verified(Some(claims))
            &&& action matches RefreshAction::FindRecord(jti)
            &&& jti@ == claims.jti@
        },
        RefreshStage::AwaitingRevocation(_) => {
            &&& event matches RefreshEvent::Record(RecordLookup::Found { id, user_id, revoked })
            &&& action == RefreshAction::Revoke(id)
        },
        RefreshStage::AwaitingTokenStore => {
            &&& stage matches RefreshStage::AwaitingRevocation(user_id)
            &&& action == RefreshAction::IssueTokens(user_id)
        },
        _ => action == RefreshAction::Reply(spec_refresh_reply(stage, event)),
    }
}

/// The bearer token of a request, where its `Authorization` header is text
/// that starts with the scheme word.
pub open spec fn spec_request_token(header: Option<Option<&str>>) -> Option<Seq<char>> {
    match header {
        Some(Some(text)) => if bearer_prefix().is_prefix_of(text@) {
            Some(text@.subrange(bearer_prefix().len() as int, text@.len() as int))
        } else {
            None
        },
        _ => None,
    }
}

proof fn lemma_token_follows_prefix(text: Seq<char>, token: Seq<char>)
    requires
        text == bearer_prefix() + token,
    ensures
        bearer_prefix().is_prefix_of(text),
        text.subrange(bearer_prefix().len() as int, text.len() as int) == token,
{
    assert(text.subrange(0, bearer_prefix().len() as int) =~= bearer_prefix());
    assert(text.subrange(bearer_prefix().len() as int, text.len() as int) =~= token);
}

/// A refresh in progress.
pub struct Refresh {
    stage: RefreshStage,
}

impl Refresh {
    /// The answer that the refresh waits for.
    pub closed spec fn stage(&self) -> RefreshStage {
        self.stage
    }

    /// Starts a refresh for a request. `header` is the request's
    /// `Authorization` header where it has one, and in it the header's text
    /// where the header is text.
    pub fn begin(header: Option<Option<&str>>) -> (started: (Refresh, RefreshAction))
        ensures
            spec_request_token(header) matches Some(token) ==> {
                &&& started.0.stage() == RefreshStage::AwaitingVerification
                &&& started.1 matches RefreshAction::VerifyToken(t)
                &&& t@ == token
            },
            spec_request_token(header).is_none() ==> {
                &&& started.0.stage() == RefreshStage::Finished
                &&& started.1 == RefreshAction::Reply(
                    if header.is_none() {
                        RefreshReply::NoToken
                    } else {
                        RefreshReply::InvalidToken
                    },
                )
            },
    {
        match request_token(header) {
            Ok(token) => {
                proof {
                    lemma_token_follows_prefix(header.unwrap().unwrap()@, token@);
                }
                (
                    Refresh { stage: RefreshStage::AwaitingVerification },
                    RefreshAction::VerifyToken(String::from_str(token)),
                )
            },
            Err(AuthError::MissingHeader) => (
                Refresh { stage: RefreshStage::Finished },
                RefreshAction::Reply(RefreshReply::NoToken),
            ),
            Err(_) => (
                Refresh { stage: RefreshStage::Finished },
                RefreshAction::Reply(RefreshReply::InvalidToken),
            ),
        }
    }

    /// Takes in an answer and says what to do next.
    pub fn step(&mut self, event: RefreshEvent) -> (action: RefreshAction)
        ensures
            final(self).stage() == spec_refresh_stage(old(self).stage(), event),
            refresh_action_fits(old(self).stage(), event, action),
    {
        let (stage, action) = match (self.stage, &event) {
            (RefreshStage::AwaitingVerification, RefreshEvent::Verified(Some(claims))) => {
                if is_refresh(claims) {
                    (RefreshStage::AwaitingRecord, RefreshAction::FindRecord(claims.jti.clone()))
                } else {
                    (RefreshStage::Finished, RefreshAction::Reply(RefreshReply::Unauthorized))
                }
            },
            (RefreshStage::AwaitingVerification, RefreshEvent::Verified(None)) => (
                RefreshStage::Finished,
                RefreshAction::Reply(RefreshReply::Unauthorized),
            ),
            (
                RefreshStage::AwaitingRecord,
                RefreshEvent::Record(RecordLookup::Found { id, user_id, revoked }),
            ) => {
                if *revoked == 0 {
                    (RefreshStage::AwaitingRevocation(*user_id), RefreshAction::Revoke(*id))
                } else {
                    (RefreshStage::Finished, RefreshAction::Reply(RefreshReply::Unauthorized))
                }
            },
            (RefreshStage::AwaitingRecord, RefreshEvent::Record(RecordLookup::NotFound)) => (
                RefreshStage::Finished,
                RefreshAction::Reply(RefreshReply::Unauthorized),
            ),
            (RefreshStage::AwaitingRevocation(user_id), RefreshEvent::Revoked(true)) => (
                RefreshStage::AwaitingTokenStore,
                RefreshAction::IssueTokens(user_id),
            ),
            (RefreshStage::AwaitingTokenStore, RefreshEvent::TokensStored(true)) => (
                RefreshStage::Finished,
                RefreshAction::Reply(RefreshReply::Refreshed),
            ),
            _ => (RefreshStage::Finished, RefreshAction::Reply(RefreshReply::InternalError)),
        };
        self.stage = stage;
        action
    }
}

/// What a logout asks its caller to do next.
#[derive(Debug, PartialEq, Eq)]
pub enum LogoutAction {
    /// Verify this token.
    VerifyToken(String),
    /// Mark the record of the refresh token with this identifier as
    /// revoked, then answer.
    Revoke(String),
    /// Answer the request. The answer is the same whatever happened.
    Done,
}

/// Starts a logout for a request: a bearer token is to be verified, and
/// without one there is nothing to do.
pub fn begin_logout(header: Option<Option<&str>>) -> (action: LogoutAction)
    ensures
        spec_request_token(header) matches Some(token) ==> {
            &&& action matches LogoutAction::VerifyToken(t)
            &&& t@ == token
        },
        spec_request_token(header).is_none() ==> action == LogoutAction::Done,
{
    match request_token(header) {
        Ok(token) => {
            proof {
                lemma_token_follows_prefix(header.unwrap().unwrap()@, token@);
            }
            LogoutAction::VerifyToken(String::from_str(token))
        },
        Err(_) => LogoutAction::Done,
    }
}

/// Goes on with a logout whose token was verified: only a refresh token is
/// revoked.
pub fn logout_after_verification(claims: Option<&Claims>) -> (action: LogoutAction)
    ensures
        match claims {
            Some(c) => if c.token_type == TokenType::Refresh {
                &&& action matches LogoutAction::Revoke(jti)
                &&& jti@ == c.jti@
            } else {
                action == LogoutAction::Done
            },
            None => action == LogoutAction::Done,
        },
{
    match claims {
        Some(c) => {
            if is_refresh(c) {
                LogoutAction::Revoke(c.jti.clone())
            } else {
                LogoutAction::Done
            }
        },
        None => LogoutAction::Done,
    }
}

} // verus!
