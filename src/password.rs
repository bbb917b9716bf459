//! Password hashing: one-way, salted, through bcrypt.

use crate::errors::AuthError;
use vstd::prelude::*;

verus! {

/// bcrypt's default work factor.
pub const DEFAULT_HASH_COST: u32 = 12;

/// The least work factor bcrypt accepts.
pub const MIN_HASH_COST: u32 = 4;

/// The greatest work factor bcrypt accepts.
pub const MAX_HASH_COST: u32 = 31;

#[verifier::external_type_specification]
#[verifier::external_body]
pub struct ExBcryptError(bcrypt::BcryptError);

/// What bcrypt's `verify` says of a password against a stored hash: whether
/// they match, or `None` when the hash cannot be read.
pub uninterp spec fn password_verdict(password: Seq<char>, hash: Seq<char>) -> Option<bool>;

/// Relies on `bcrypt::hash`: a hash with a fresh random salt, which
/// `bcrypt::verify` accepts for the same password.
#[verifier::external_body]
fn bcrypt_hash(password: &str, cost: u32) -> (r: Result<String, bcrypt::BcryptError>)
    ensures
        r matches Ok(h) ==> password_verdict(password@, h@) == Some(true),
{
    bcrypt::hash(password, cost)
}

/// Relies on `bcrypt::verify`: recomputes the hash with the salt and cost
/// held in `hash` and compares; an unreadable hash is an error, here `None`.
#[verifier::external_body]
fn bcrypt_verify(password: &str, hash: &str) -> (r: Option<bool>)
    ensures
        r == password_verdict(password@, hash@),
{
    bcrypt::verify(password, hash).ok()
}

/// Hashes `password` with the work factor `cost`, within bcrypt's 4 to 31.
/// The salt comes from the system's random source, whose failure is the only
/// `HashingError`.
pub fn hash(password: &str, cost: u32) -> (r: Result<String, AuthError>)
    requires
        MIN_HASH_COST <= cost <= MAX_HASH_COST,
    ensures
        r matches Ok(h) ==> password_verdict(password@, h@) == Some(true),
        r matches Err(e) ==> e == AuthError::HashingError,
{
    match bcrypt_hash(password, cost) {
        Ok(h) => Ok(h),
        Err(_) => Err(AuthError::HashingError),
    }
}

/// Whether `password` matches the stored `hash`; a hash that cannot be read
/// is a `HashingError`.
pub fn verify(password: &str, hash: &str) -> (r: Result<bool, AuthError>)
    ensures
        match password_verdict(password@, hash@) {
            Some(b) => r == Ok::<bool, AuthError>(b),
            None => r == Err::<bool, AuthError>(AuthError::HashingError),
        },
{
    match bcrypt_verify(password, hash) {
        Some(b) => Ok(b),
        None => Err(AuthError::HashingError),
    }
}

} // verus!
