//! One-way hashing and verification of credential strings.
//!
//! The primitive is bcrypt. Its verification outcome on a given value and
//! hash is a pure function of the two strings, named `bcrypt_verify_of`:
//! `Some(b)` when verification runs and answers `b`, `None` when the
//! primitive rejects the hash as malformed. Nothing in the library states
//! what that function is on given values; every contract goes through the
//! name.

use vstd::prelude::*;
use vstd::string::StringExecFns;
use crate::errors::AppError;
use crate::errors::ErrorKind;

verus! {

/// What `bcrypt::verify(value, hashed)` returns: `Some(b)` for `Ok(b)`,
/// `None` for an error. The result depends on the two strings alone.
pub uninterp spec fn bcrypt_verify_of(value: Seq<char>, hashed: Seq<char>) -> Option<bool>;

#[verifier::external_type_specification]
#[verifier::external_body]
pub struct ExBcryptError(bcrypt::BcryptError);

/// Relies on `bcrypt::hash` with cost 8: the salt is drawn from OS
/// randomness, and the call fails only if that randomness source fails.
/// Every hash it returns is a well-formed 60-character bcrypt string whose
/// embedded cost is 8, so `bcrypt::verify` parses it and answers `Ok` for
/// any value; recomputing with the embedded salt and cost on the hashed
/// value itself answers `Ok(true)`.
#[verifier::external_body]
fn bcrypt_hash(value: &str) -> (r: Result<String, bcrypt::BcryptError>)
    ensures
        r matches Ok(h) ==> {
            &&& bcrypt_verify_of(value@, h@) == Some(true)
            &&& forall|v: Seq<char>| (#[trigger] bcrypt_verify_of(v, h@)) is Some
        },
{
    bcrypt::hash(value, 8)
}

/// Relies on `bcrypt::verify`: deterministic in its two arguments; errors
/// exactly when the hash string cannot be parsed as a bcrypt hash with an
/// acceptable cost, and otherwise answers whether the value matches.
#[verifier::external_body]
fn bcrypt_check(value: &str, hashed: &str) -> (r: Result<bool, bcrypt::BcryptError>)
    ensures
        r matches Ok(b) ==> bcrypt_verify_of(value@, hashed@) == Some(b),
        r is Err ==> bcrypt_verify_of(value@, hashed@) is None,
{
    bcrypt::verify(value, hashed)
}

/// Produce the salted one-way digest of a secret value. The digest verifies
/// against the value it was produced from, and the verification primitive
/// accepts it for any presented value. Fails only on a primitive
/// malfunction, which is an internal condition, never a caller-input one.
pub fn hash_value(value: &str) -> (r: Result<String, AppError>)
    ensures
        r matches Ok(h) ==> {
            &&& bcrypt_verify_of(value@, h@) == Some(true)
            &&& forall|v: Seq<char>| (#[trigger] bcrypt_verify_of(v, h@)) is Some
        },
        r matches Err(e) ==> e.kind == ErrorKind::Internal,
{
    match bcrypt_hash(value) {
        Ok(h) => Ok(h),
        Err(_) => Err(
            AppError::new(ErrorKind::Internal, String::from_str("error encrypting key")),
        ),
    }
}

/// Answer whether `value` matches the digest `hashed`. A clean mismatch is
/// `Ok(false)`, not an error; only a primitive malfunction (a digest the
/// primitive cannot parse) is an error, and that is an internal condition.
pub fn verify_hashed_value(value: &str, hashed: &str) -> (r: Result<bool, AppError>)
    ensures
        bcrypt_verify_of(value@, hashed@) matches Some(b) ==> r == Ok::<bool, AppError>(b),
        bcrypt_verify_of(value@, hashed@) is None ==> (r matches Err(e) && e.kind
            == ErrorKind::Internal),
{
    match bcrypt_check(value, hashed) {
        Ok(b) => Ok(b),
        Err(_) => Err(
            AppError::new(ErrorKind::Internal, String::from_str("error decrypting key")),
        ),
    }
}

} // verus!
