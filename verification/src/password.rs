//! Password hashes: made with a fresh salt, verified against the stored
//! text.

use vstd::prelude::*;
use argon2::password_hash::{PasswordHash, PasswordHasher, PasswordVerifier, SaltString};
use argon2::Argon2;
use crate::random::random_bytes;

verus! {

/// The hash of a password under a salt, as Argon2 with its default
/// parameters computes it and writes it in the PHC string format; `None`
/// where the salt is no valid salt or the password is too long to hash.
pub uninterp spec fn phc_hash(password: Seq<char>, salt: Seq<char>) -> Option<Seq<char>>;

/// Whether a password verifies against a stored hash: `None` where the
/// stored text is no hash in the PHC string format.
pub uninterp spec fn phc_verifies(password: Seq<char>, hashed: Seq<char>) -> Option<bool>;

/// `SaltString::encode_b64` writes bytes as a salt in the alphabet of the
/// PHC string format, or gives an error for bytes that make a salt of no
/// valid length.
#[verifier::external_body]
fn salt_of(bytes: &[u8; 16]) -> (salt: Option<String>) {
    match SaltString::encode_b64(bytes) {
        Ok(salt) => Some(salt.as_str().to_string()),
        Err(_) => None,
    }
}

/// `Argon2::hash_password` hashes a password under a salt and gives the
/// hash with its parameters and the salt; `to_string` writes that in the PHC
/// string format. A password verifies against a hash that was made from
/// it.
#[verifier::external_body]
fn argon2_hash(password: &str, salt: &str) -> (hashed: Option<String>)
    ensures
        hashed matches Some(h) ==> phc_hash(password@, salt@) == Some(h@) && phc_verifies(
            password@,
            h@,
        ) == Some(true),
        hashed.is_none() ==> phc_hash(password@, salt@).is_none(),
{
    let salt = SaltString::from_b64(salt).ok()?;
    match Argon2::default().hash_password(password.as_bytes(), &salt) {
        Ok(hashed) => Some(hashed.to_string()),
        Err(_) => None,
    }
}

/// `PasswordHash::new` parses a hash in the PHC string format, and
/// `Argon2::verify_password` hashes the password with the salt and the
/// parameters of that hash and compares.
#[verifier::external_body]
fn argon2_verify(password: &str, hashed: &str) -> (verdict: Option<bool>)
    ensures
        verdict == phc_verifies(password@, hashed@),
{
    let parsed = PasswordHash::new(hashed).ok()?;
    Some(Argon2::default().verify_password(password.as_bytes(), &parsed).is_ok())
}

/// Why a password was not accepted.
#[derive(Debug, Clone, Copy, PartialEq, Eq, Structural)]
pub enum PasswordError {
    /// The stored text is no password hash.
    MalformedHash,
    /// The password is not the one that the hash was made from.
    Mismatch,
}

/// What a verification result means for a login.
pub open spec fn spec_check(verdict: Option<bool>) -> Result<(), PasswordError> {
    match verdict {
        Some(true) => Ok(()),
        Some(false) => Err(PasswordError::Mismatch),
        None => Err(PasswordError::MalformedHash),
    }
}

/// What a verification result means for a login.
pub fn check(verdict: Option<bool>) -> (checked: Result<(), PasswordError>)
    ensures
        checked == spec_check(verdict),
{
    match verdict {
        Some(true) => Ok(()),
        Some(false) => Err(PasswordError::Mismatch),
        None => Err(PasswordError::MalformedHash),
    }
}

/// The text of a hash, if there is one.
pub open spec fn text_of(hashed: Option<String>) -> Option<Seq<char>> {
    match hashed {
        Some(h) => Some(h@),
        None => None,
    }
}

/// The hash of a password under a salt made of the given random bytes;
/// `None` where there are no bytes, or no salt can be made of them, or the
/// password cannot be hashed under it.
pub fn hash_under(password: &str, bytes: Option<[u8; 16]>) -> (hashed: Option<String>)
    ensures
        bytes.is_none() ==> hashed.is_none(),
        hashed matches Some(h) ==> phc_verifies(password@, h@) == Some(true),
        hashed matches Some(h) ==> exists|salt: Seq<char>| phc_hash(password@, salt) == Some(h@),
{
    let salt = match bytes {
        Some(drawn) => salt_of(&drawn),
        None => None,
    };
    match salt {
        Some(salt) => {
            let hashed = argon2_hash(password, salt.as_str());
            proof {
                assert(phc_hash(password@, salt@) == text_of(hashed));
            }
            hashed
        },
        None => None,
    }
}

/// Hashes a password under a fresh random salt: the result is the hash of
/// the password under some salt, and it verifies against the password.
/// `None` where the system has no random numbers to give or the password
/// cannot be hashed under the salt drawn.
pub fn hash_password(password: &str) -> (hashed: Option<String>)
    ensures
        hashed matches Some(h) ==> phc_verifies(password@, h@) == Some(true),
        hashed matches Some(h) ==> exists|salt: Seq<char>| phc_hash(password@, salt) == Some(h@),
{
    hash_under(password, random_bytes())
}

/// Verifies a password against a stored hash.
pub fn verify_password(password: &str, hashed: &str) -> (checked: Result<(), PasswordError>)
    ensures
        checked == spec_check(phc_verifies(password@, hashed@)),
{
    check(argon2_verify(password, hashed))
}

} // verus!
