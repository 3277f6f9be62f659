//! Password hashes.

use vstd::prelude::*;

verus! {

/// How much work a password hash takes: two to this power rounds.
pub const HASH_COST: u32 = 10;

/// The error type of the `bcrypt` crate, which is carried through unread.
#[verifier::external_type_specification]
#[verifier::external_body]
pub struct ExBcryptError(bcrypt::BcryptError);

/// A password could not be hashed, or a hash could not be read.
#[derive(Clone, Copy, Debug, PartialEq, Eq, Structural)]
pub struct HashError;

/// Whether the password is the one that the bcrypt hash was made of, if the
/// text is a bcrypt hash.
pub uninterp spec fn bcrypt_verify(plain: Seq<char>, hash: Seq<char>) -> Option<bool>;

/// Calls `bcrypt::hash`. Trusted: a hash that comes back is one that the
/// password verifies against; its salt is random, so nothing else is known
/// of it.
#[verifier::external_body]
fn bcrypt_hash(password: &str, cost: u32) -> (result: Result<String, bcrypt::BcryptError>)
    ensures
        result matches Ok(hash) ==> bcrypt_verify(password@, hash@) == Some(true),
{
    bcrypt::hash(password, cost)
}

/// Calls `bcrypt::verify`. Trusted: the answer is whether the password is
/// the one that the hash was made of, and an error where the text is no
/// bcrypt hash.
#[verifier::external_body]
fn bcrypt_compare(plain: &str, hash: &str) -> (result: Result<bool, bcrypt::BcryptError>)
    ensures
        match result {
            Ok(same) => bcrypt_verify(plain@, hash@) == Some(same),
            Err(_) => bcrypt_verify(plain@, hash@) is None,
        },
{
    bcrypt::verify(plain, hash)
}

/// What the outcome of hashing is to the caller: the hash, or that there is
/// none.
pub fn hashed(outcome: Result<String, bcrypt::BcryptError>) -> (result: Result<String, HashError>)
    ensures
        match outcome {
            Ok(hash) => result == Ok::<String, HashError>(hash),
            Err(_) => result == Err::<String, HashError>(HashError),
        },
{
    match outcome {
        Ok(hash) => Ok(hash),
        Err(_) => Err(HashError),
    }
}

/// What the outcome of a comparison is to the caller: whether the password
/// matched, or that the hash could not be read.
pub fn compared(outcome: Result<bool, bcrypt::BcryptError>) -> (result: Result<bool, HashError>)
    ensures
        match outcome {
            Ok(same) => result == Ok::<bool, HashError>(same),
            Err(_) => result == Err::<bool, HashError>(HashError),
        },
{
    match outcome {
        Ok(same) => Ok(same),
        Err(_) => Err(HashError),
    }
}

/// Hashes a password with a fresh random salt. A hash that comes back is one
/// that the password compares equal to.
pub fn hash_password(p: &str) -> (result: Result<String, HashError>)
    ensures
        result matches Ok(hash) ==> bcrypt_verify(p@, hash@) == Some(true),
{
    hashed(bcrypt_hash(p, HASH_COST))
}

/// Whether the password is the one that the hash was made of. Fails exactly
/// when the text is no bcrypt hash.
pub fn compare(plain: &str, hash: &str) -> (result: Result<bool, HashError>)
    ensures
        match result {
            Ok(same) => bcrypt_verify(plain@, hash@) == Some(same),
            Err(_) => bcrypt_verify(plain@, hash@) is None,
        },
{
    compared(bcrypt_compare(plain, hash))
}

} // verus!
