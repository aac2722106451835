use vstd::prelude::*;

use argon2::password_hash::PasswordHasher;
use argon2::password_hash::PasswordVerifier;

use crate::errors::HashingFailure;

verus! {

/// Whether a password verifies against a stored hash string, as the
/// `argon2` crate judges it: the digest is re-derived from the salt
/// and cost parameters embedded in the stored string and compared; a
/// malformed stored string matches nothing. A function of the two
/// strings alone.
pub uninterp spec fn password_matches(password: Seq<char>, stored: Seq<char>) -> bool;

/// Relies on `Argon2::default().hash_password` with a salt from
/// `SaltString::generate(&mut OsRng)`: on success the returned string
/// embeds the salt and cost parameters beside the digest, and
/// verifying the same password against it succeeds. The salt is drawn
/// fresh from the system entropy source, so nothing beyond that is
/// promised of the string itself; it fails only on entropy or
/// resource exhaustion.
#[verifier::external_body]
fn argon2_hash(password: &str) -> (r: Option<String>)
    ensures
        r matches Some(h) ==> password_matches(password@, h@) && h@.len() > 0,
{
    let salt = argon2::password_hash::SaltString::generate(
        &mut argon2::password_hash::rand_core::OsRng,
    );
    match argon2::Argon2::default().hash_password(password.as_bytes(), &salt) {
        Ok(h) => Some(h.to_string()),
        Err(_) => None,
    }
}

/// Relies on `PasswordHash::new` and
/// `Argon2::default().verify_password`: the outcome depends on the
/// password and the stored string alone, and a stored string that does
/// not parse verifies nothing.
#[verifier::external_body]
fn argon2_verify(password: &str, stored: &str) -> (r: bool)
    ensures
        r == password_matches(password@, stored@),
{
    match argon2::password_hash::PasswordHash::new(stored) {
        Ok(parsed) => {
            argon2::Argon2::default().verify_password(password.as_bytes(), &parsed).is_ok()
        },
        Err(_) => false,
    }
}

/// Derives a salted, memory-hard hash of the password and encodes
/// salt, cost parameters and digest into one self-describing string.
/// On success the password verifies against the returned string; it
/// fails only on underlying entropy or resource exhaustion, never
/// because of the password value.
pub fn hash_password(password: &str) -> (r: Result<String, HashingFailure>)
    ensures
        r matches Ok(h) ==> password_matches(password@, h@) && h@.len() > 0,
{
    match argon2_hash(password) {
        Some(h) => Ok(h),
        None => Err(HashingFailure),
    }
}

/// Re-derives the digest using the parameters embedded in the stored
/// string and compares. `false` for any mismatch, a malformed stored
/// string included: attacker-controlled stored values never raise.
pub fn verify_password(password: &str, password_hash: &str) -> (r: bool)
    ensures
        r == password_matches(password@, password_hash@),
{
    argon2_verify(password, password_hash)
}

} // verus!
