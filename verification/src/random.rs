//! Random numbers from the operating system.

use vstd::prelude::*;
use argon2::password_hash::rand_core::{OsRng, RngCore};

verus! {

/// `OsRng::try_fill_bytes` fills a buffer with random bytes from the
/// operating system, or gives an error on a system that has none to give.
/// Nothing is known of the bytes beforehand.
#[verifier::external_body]
pub(crate) fn random_bytes() -> (bytes: Option<[u8; 16]>) {
    let mut bytes: [u8; 16] = [0u8; 16];
    match OsRng.try_fill_bytes(&mut bytes) {
        Ok(()) => Some(bytes),
        Err(_) => None,
    }
}

} // verus!
