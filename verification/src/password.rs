//! Salted one-way hashing of passwords, and the check of a password against
//! a stored credential.

use vstd::prelude::*;
use crate::error::AuthError;

verus! {

/// The error type of the `bcrypt` crate, carried through unread.
#[verifier::external_type_specification]
#[verifier::external_body]
pub struct ExBcryptError(bcrypt::BcryptError);

/// What `bcrypt::verify` answers for a password and a credential:
/// `Some(true)` or `Some(false)` where it returns `Ok`, `None` where the
/// credential is malformed and it returns an error.
pub uninterp spec fn bcrypt_check(password: Seq<char>, credential: Seq<char>) -> Option<bool>;

/// A credential accepts a password when the check succeeds with `true`.
pub open spec fn password_matches(password: Seq<char>, credential: Seq<char>) -> bool {
    bcrypt_check(password, credential) == Some(true)
}

/// The work factors that the hash accepts.
pub open spec fn valid_cost(cost: u32) -> bool {
    4 <= cost <= 31
}

/// Calls `bcrypt::hash`, which draws a fresh salt from the operating system.
/// Trusted: a result, when there is one, came from a work factor between 4
/// and 31, has the 60 characters of the `$2b$` format, and is accepted by
/// `bcrypt::verify` for the same password. Nothing is claimed about when the
/// call succeeds, nor about the salt.
#[verifier::external_body]
fn bcrypt_hash(password: &str, cost: u32) -> (r: Result<String, bcrypt::BcryptError>)
    ensures
        r matches Ok(credential) ==> valid_cost(cost) && credential@.len() == 60
            && bcrypt_check(password@, credential@) == Some(true),
{
    bcrypt::hash(password, cost)
}

/// Calls `bcrypt::verify`. Trusted: the answer depends on the two strings
/// alone; an error of the crate becomes `None`.
#[verifier::external_body]
fn bcrypt_verify(password: &str, credential: &str) -> (r: Option<bool>)
    ensures
        r == bcrypt_check(password@, credential@),
{
    bcrypt::verify(password, credential).ok()
}

/// Hashes a password with the given work factor.
///
/// A failure of the hash is reported as `Internal`; no credential is made up
/// in its place. A credential that is returned accepts the password it was
/// made from.
pub fn hash_password(password: &str, cost: u32) -> (r: Result<String, AuthError>)
    ensures
        !valid_cost(cost) ==> r is Err,
        r matches Err(e) ==> e == AuthError::Internal,
        r matches Ok(credential) ==> credential@.len() == 60 && password_matches(
            password@,
            credential@,
        ),
{
    match bcrypt_hash(password, cost) {
        Ok(credential) => Ok(credential),
        Err(_) => Err(AuthError::Internal),
    }
}

/// Reads the outcome of a check: only a successful check that said yes
/// accepts; a malformed credential accepts nothing.
pub fn accepts(outcome: Option<bool>) -> (ok: bool)
    ensures
        ok == (outcome == Some(true)),
{
    match outcome {
        Some(verdict) => verdict,
        None => false,
    }
}

/// Whether the credential accepts the password. A malformed credential is
/// no error: the answer is `false`.
pub fn verify_password(password: &str, credential: &str) -> (ok: bool)
    ensures
        ok == password_matches(password@, credential@),
{
    accepts(bcrypt_verify(password, credential))
}

} // verus!
