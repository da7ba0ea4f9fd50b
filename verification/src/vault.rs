//! Password hashing and verification with a memory-hard, salted algorithm.
//!
//! Hashing draws a fresh random salt per call, so two hashes of the same
//! password differ; verification is fail-closed and never reports why it
//! failed.

use vstd::prelude::*;

verus! {

/// What password verification returns for a stored hash string and a
/// candidate password. The salt and all parameters are embedded in the hash
/// string itself, so the outcome is a function of the two strings alone.
pub uninterp spec fn password_verifies(hash: Seq<char>, candidate: Seq<char>) -> bool;

/// Relies on `argon2::Argon2::hash_password` (`password_hash::PasswordHasher`):
/// hashing with a fresh random salt yields a PHC string that verifies against
/// the password it was derived from. Returns `None` on an internal hashing
/// error.
#[verifier::external_body]
pub fn hash_password(plain: &str) -> (r: Option<String>)
    ensures
        r matches Some(h) ==> password_verifies(h@, plain@),
{
    let salt = argon2::password_hash::SaltString::generate(&mut rand_core::OsRng);
    let hasher = argon2::Argon2::default();
    match argon2::PasswordHasher::hash_password(&hasher, plain.as_bytes(), &salt) {
        Ok(h) => Some(h.to_string()),
        Err(_) => None,
    }
}

/// Relies on `argon2::Argon2::verify_password` (`password_hash::PasswordVerifier`):
/// it re-derives the hash from the candidate together with the salt and
/// parameters embedded in the stored string and compares the outputs, a
/// deterministic check. A malformed stored string verifies as false rather
/// than raising a distinguishable error.
#[verifier::external_body]
pub fn verify_password(hash: &str, plain: &str) -> (r: bool)
    ensures
        r == password_verifies(hash@, plain@),
{
    let verifier = argon2::Argon2::default();
    match argon2::password_hash::PasswordHash::new(hash) {
        Ok(parsed) => argon2::PasswordVerifier::verify_password(
            &verifier,
            plain.as_bytes(),
            &parsed,
        ).is_ok(),
        Err(_) => false,
    }
}

} // verus!
