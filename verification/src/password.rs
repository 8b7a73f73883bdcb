//! The credential verifier: salted one-way password hashing.
//!
//! Hashing draws a random salt, so no two hashes of the same password need
//! agree; what is promised of every outcome is that checking the password
//! against the fresh hash succeeds. `password_matches` names the result of
//! bcrypt's deterministic check of a password against a stored hash.

use vstd::prelude::*;

use crate::errors::AuthError;

verus! {

/// Whether bcrypt's check of `password` against the stored `hash` reports a
/// match. The check is a function of the two arguments alone: the salt and
/// cost are read back out of the hash itself.
pub uninterp spec fn password_matches(password: Seq<char>, hash: Seq<char>) -> bool;

/// Relies on bcrypt::hash: a freshly salted hash of the password, which
/// bcrypt::verify accepts for that same password.
#[verifier::external_body]
fn bcrypt_hash(password: &str) -> (r: Option<String>)
    ensures
        r matches Some(h) ==> password_matches(password@, h@),
{
    bcrypt::hash(password, bcrypt::DEFAULT_COST).ok()
}

/// Relies on bcrypt::verify: reports a match exactly when the hash, re-derived
/// from the password with the salt and cost stored in `hash`, agrees with
/// `hash`; fails only on a structurally invalid hash.
#[verifier::external_body]
fn bcrypt_verify(password: &str, hash: &str) -> (r: Option<bool>)
    ensures
        r == Some(true) <==> password_matches(password@, hash@),
{
    bcrypt::verify(password, hash).ok()
}

/// Hashes a plaintext password with a fresh random salt.
///
/// Fails only on a hashing-backend error, never on any property of the input.
pub fn hash_password(password: &str) -> (r: Result<String, AuthError>)
    ensures
        r matches Ok(h) ==> password_matches(password@, h@),
        r is Err ==> r == Result::<String, AuthError>::Err(AuthError::HashingFailure),
{
    match bcrypt_hash(password) {
        Some(h) => Ok(h),
        None => Err(AuthError::HashingFailure),
    }
}

/// Checks a plaintext password against a stored hash.
///
/// Reports true exactly when the pair matches; fails only when the stored
/// hash is structurally invalid.
pub fn verify_password(password: &str, hash: &str) -> (r: Result<bool, AuthError>)
    ensures
        r == Result::<bool, AuthError>::Ok(true) <==> password_matches(password@, hash@),
        r is Err ==> r == Result::<bool, AuthError>::Err(AuthError::HashingFailure),
{
    match bcrypt_verify(password, hash) {
        Some(b) => Ok(b),
        None => Err(AuthError::HashingFailure),
    }
}

} // verus!
