//! Password digests: making one from a password, and checking a password
//! against one.

use vstd::prelude::*;
use argon2::password_hash::rand_core::OsRng;
use argon2::password_hash::{PasswordHash, PasswordHasher, PasswordVerifier, SaltString};
use argon2::Argon2;
use crate::errors::AppError;

verus! {

/// What checking `password` against `digest` yields: `None` where `digest`
/// is not a well-formed password hash string, else whether the digest was
/// computed from the password.
pub uninterp spec fn digest_check(password: Seq<char>, digest: Seq<char>) -> Option<bool>;

/// The digest is well formed and was computed from the password.
pub open spec fn digest_accepts(digest: Seq<char>, password: Seq<char>) -> bool {
    digest_check(password, digest) == Some(true)
}

/// Parses `digest` with `PasswordHash::new` and checks `password` against it
/// with `Argon2::verify_password` under the default parameters. Trusted: the
/// outcome is a function of the two strings; a digest that does not parse
/// yields the parser's error as text, and a parsed one yields whether the
/// verifier accepted the password. The verifier works in as much memory as
/// the parameters inside the digest ask for.
#[verifier::external_body]
fn argon2_check(password: &str, digest: &str) -> (r: Result<bool, String>)
    ensures
        r matches Ok(accepted) ==> digest_check(password@, digest@) == Some(accepted),
        r is Err ==> digest_check(password@, digest@).is_none(),
{
    match PasswordHash::new(digest) {
        Ok(parsed) => Ok(Argon2::default().verify_password(password.as_bytes(), &parsed).is_ok()),
        Err(e) => Err(e.to_string()),
    }
}

/// Hashes `password` with `Argon2::hash_password` under the default
/// parameters and a salt from `SaltString::generate`. Trusted: whatever salt
/// was drawn, a digest that comes back is a well-formed password hash string
/// that the verifier accepts for the same password. Nothing is claimed of
/// when the call fails.
#[verifier::external_body]
fn argon2_digest(password: &str) -> (r: Result<String, String>)
    ensures
        r matches Ok(digest) ==> digest_accepts(digest@, password@),
{
    let salt = SaltString::generate(&mut OsRng);
    match Argon2::default().hash_password(password.as_bytes(), &salt) {
        Ok(hash) => Ok(hash.to_string()),
        Err(e) => Err(e.to_string()),
    }
}

/// What the service reports for the outcome of a digest check.
pub open spec fn verdict_of(checked: Result<bool, String>) -> Result<bool, AppError> {
    match checked {
        Ok(accepted) => Ok(accepted),
        Err(reason) => Err(AppError::PasswordHashError(reason)),
    }
}

/// Turns the outcome of a digest check into the service's result: a verdict
/// is passed on, a malformed digest becomes a `PasswordHashError`.
pub fn verdict(checked: Result<bool, String>) -> (r: Result<bool, AppError>)
    ensures
        r == verdict_of(checked),
{
    match checked {
        Ok(accepted) => Ok(accepted),
        Err(reason) => Err(AppError::PasswordHashError(reason)),
    }
}

/// Turns the outcome of hashing into the service's result.
pub fn digest_or_error(hashed: Result<String, String>) -> (r: Result<String, AppError>)
    ensures
        r == match hashed {
            Ok(digest) => Ok::<String, AppError>(digest),
            Err(reason) => Err(AppError::PasswordHashError(reason)),
        },
{
    match hashed {
        Ok(digest) => Ok(digest),
        Err(reason) => Err(AppError::PasswordHashError(reason)),
    }
}

/// A fresh digest of `password`. The salt is random, so two calls differ;
/// every digest that comes back accepts the password it was made from.
pub fn hash_password(password: &str) -> (r: Result<String, AppError>)
    ensures
        r matches Ok(digest) ==> digest_accepts(digest@, password@),
        r matches Err(e) ==> e is PasswordHashError,
{
    digest_or_error(argon2_digest(password))
}

/// Whether `hashed_password` was computed from `password`; a
/// `PasswordHashError` where `hashed_password` is not a well-formed digest.
pub fn verify_password(password: &str, hashed_password: &str) -> (r: Result<bool, AppError>)
    ensures
        match digest_check(password@, hashed_password@) {
            Some(accepted) => r == Ok::<bool, AppError>(accepted),
            None => r matches Err(e) && e is PasswordHashError,
        },
{
    verdict(argon2_check(password, hashed_password))
}

} // verus!
