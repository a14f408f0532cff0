//! Registration: the checks before a claim, and the reply after it.

use vstd::prelude::*;
use crate::resolver::{grants, Availability, ClaimResult};
use crate::token::{is_blank, lemma_trimmed_empty_iff_blank, trimmed};

verus! {

/// How a registration ends.
#[derive(Debug, Clone, Copy, PartialEq, Eq, Structural)]
pub enum RegisterReply {
    /// The user was registered.
    Created,
    /// The username is blank, or the password is empty.
    EmptyCredentials,
    /// The lookup before the claim found the username taken, or could not
    /// tell.
    UsernameTaken,
    /// The store refused the claim: the username exists.
    UsernameExists,
    /// The store failed.
    Failed,
}

/// The username to register, without the white space around it, where the
/// username holds more than white space and the password is not empty.
pub fn check_credentials<'a>(username: &'a str, password: &str) -> (checked: Result<
    &'a str,
    RegisterReply,
>)
    ensures
        match checked {
            Ok(name) => name@ == trimmed(username@) && !is_blank(username@) && password@.len() > 0,
            Err(reply) => reply == RegisterReply::EmptyCredentials && (is_blank(username@)
                || password@.len() == 0),
        },
{
    proof {
        lemma_trimmed_empty_iff_blank(username@);
    }
    let name = username.trim();
    if name.is_empty() || password.is_empty() {
        Err(RegisterReply::EmptyCredentials)
    } else {
        Ok(name)
    }
}

/// The reply that ends a registration after the lookup, if the lookup ends
/// it: anything but "available" does.
pub fn reply_after_lookup(verdict: Availability) -> (reply: Option<RegisterReply>)
    ensures
        reply == if grants(verdict) {
            None::<RegisterReply>
        } else {
            Some(RegisterReply::UsernameTaken)
        },
{
    if verdict.is_available() {
        None
    } else {
        Some(RegisterReply::UsernameTaken)
    }
}

/// The reply to a registration whose claim has been answered.
pub open spec fn spec_reply_after_claim(result: ClaimResult) -> RegisterReply {
    match result {
        ClaimResult::Claimed => RegisterReply::Created,
        ClaimResult::Conflict => RegisterReply::UsernameExists,
        ClaimResult::InternalError => RegisterReply::Failed,
    }
}

/// The reply to a registration whose claim has been answered.
pub fn reply_after_claim(result: ClaimResult) -> (reply: RegisterReply)
    ensures
        reply == spec_reply_after_claim(result),
{
    match result {
        ClaimResult::Claimed => RegisterReply::Created,
        ClaimResult::Conflict => RegisterReply::UsernameExists,
        ClaimResult::InternalError => RegisterReply::Failed,
    }
}

impl RegisterReply {
    /// The HTTP status of a reply.
    pub open spec fn spec_status(self) -> u16 {
        match self {
            RegisterReply::Created => 201,
            RegisterReply::EmptyCredentials => 400,
            RegisterReply::UsernameTaken => 409,
            RegisterReply::UsernameExists => 409,
            RegisterReply::Failed => 500,
        }
    }

    /// The HTTP status of a reply.
    pub fn status(&self) -> (code: u16)
        ensures
            code == self.spec_status(),
    {
        match self {
            RegisterReply::Created => 201,
            RegisterReply::EmptyCredentials => 400,
            RegisterReply::UsernameTaken => 409,
            RegisterReply::UsernameExists => 409,
            RegisterReply::Failed => 500,
        }
    }
}

/// A username that is taken gets one and the same status, whichever tier
/// found it out: the lookup before the claim, or the store at the claim.
pub proof fn lemma_conflict_is_uniform(verdict: Availability)
    requires
        verdict == Availability::Taken,
    ensures
        !grants(verdict),
        RegisterReply::UsernameTaken.spec_status() == spec_reply_after_claim(
            ClaimResult::Conflict,
        ).spec_status(),
        RegisterReply::UsernameTaken.spec_status() == 409,
{
}

} // verus!
