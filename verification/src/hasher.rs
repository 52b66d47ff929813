//! Argon2 as the `argon2` crate provides it, with its default parameters.

use vstd::prelude::*;
use argon2::password_hash::{PasswordHash, PasswordHasher, PasswordVerifier, Salt, SaltString};
use argon2::Argon2;
use rand::rngs::OsRng;

verus! {

/// The hash that `Argon2::default().hash_password` gives for a password
/// under a salt, in its self-describing text form; `None` where the salt is
/// not one that the hasher takes, or where the hasher fails.
pub uninterp spec fn argon2_hashed(password: Seq<u8>, salt: Seq<char>) -> Option<Seq<char>>;

/// What `Argon2::default().verify_password` says of a password against a
/// stored hash: `None` where the stored text does not parse as a hash,
/// otherwise whether the password is the one that was hashed.
pub uninterp spec fn argon2_verdict(password: Seq<u8>, stored: Seq<char>) -> Option<bool>;

/// Draws a salt with `SaltString::generate` from the operating system's
/// random source and gives it as text, in the encoding that the hasher
/// takes.
///
/// Trusted, and nothing is promised of the salt. The call panics where the
/// operating system cannot give random bytes.
#[verifier::external_body]
pub(crate) fn fresh_salt() -> String {
    SaltString::generate(&mut OsRng).to_string()
}

/// Reads the salt with `Salt::from_b64`, hashes with
/// `Argon2::default().hash_password` and renders the hash in its
/// self-describing text form.
///
/// Trusted: the outcome depends on the password and the salt alone and is
/// the one that `argon2_hashed` names, and a hash that comes back verifies
/// against the password it was made from. `Err` holds the crate's message.
#[verifier::external_body]
pub(crate) fn hash_with_salt(password: &[u8], salt: &str) -> (outcome: Result<String, String>)
    ensures
        match outcome {
            Ok(stored) => argon2_hashed(password@, salt@) == Some(stored@) && argon2_verdict(
                password@,
                stored@,
            ) == Some(true),
            Err(_) => argon2_hashed(password@, salt@) is None,
        },
{
    match Salt::from_b64(salt) {
        Ok(salt) => match Argon2::default().hash_password(password, salt) {
            Ok(hash) => Ok(hash.to_string()),
            Err(e) => Err(e.to_string()),
        },
        Err(e) => Err(e.to_string()),
    }
}

/// Parses the stored text with `PasswordHash::new` and checks the password
/// against it with `Argon2::default().verify_password`.
///
/// Trusted: the answer depends on the two arguments alone and is the one
/// that `argon2_verdict` names. The stored hash names its own cost: one that
/// asks for more memory than the machine can give makes the call abort.
#[verifier::external_body]
pub(crate) fn check_password(password: &[u8], stored: &str) -> (outcome: Option<bool>)
    ensures
        outcome == argon2_verdict(password@, stored@),
{
    match PasswordHash::new(stored) {
        Ok(parsed) => Some(Argon2::default().verify_password(password, &parsed).is_ok()),
        Err(_) => None,
    }
}

} // verus!
