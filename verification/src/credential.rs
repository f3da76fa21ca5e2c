//! The credential verifier: a memory-hard one-way transform over passwords.
//! Hashing salts each hash with fresh random bytes, so nothing relates two
//! hashes of one password; verification re-derives the hash from the salt
//! embedded in the encoded text and is a pure function of its arguments.

use vstd::prelude::*;

use crate::model::Error;

verus! {

/// What `argon2::verify_encoded` returns for an encoded hash and a
/// password: `Some(true)` when the password matches, `Some(false)` when it
/// does not, `None` when it rejects the encoded text or the parameters.
/// Deterministic in its arguments alone.
pub uninterp spec fn password_verifies(hash: Seq<char>, password: Seq<char>) -> Option<bool>;

/// Relies on rand::random: sixteen random salt bytes. Nothing is assumed
/// of the values.
#[verifier::external_body]
fn random_salt() -> (r: Vec<u8>)
    ensures
        r@.len() == 16,
{
    let salt: [u8; 16] = rand::random();
    salt.to_vec()
}

/// Relies on argon2::hash_encoded (rust-argon2) with the default
/// configuration: with a salt of eight to 2^32 - 1 bytes and a password of
/// at most 2^32 - 1 bytes it returns an encoded hash (UTF-8 spends at most
/// four bytes per character), and argon2::verify_encoded re-derives the
/// hash from the salt and parameters embedded in that text, so the result
/// verifies against the password it was made from.
#[verifier::external_body]
fn argon2_hash(password: &str, salt: &[u8]) -> (r: Option<String>)
    requires
        8 <= salt@.len() <= u32::MAX,
    ensures
        password@.len() <= 0x3FFF_FFFF ==> r is Some,
        r matches Some(h) ==> password_verifies(h@, password@) == Some(true),
{
    argon2::hash_encoded(password.as_bytes(), salt, &argon2::Config::default()).ok()
}

/// Relies on argon2::verify_encoded (rust-argon2): whether the password
/// matches the encoded hash, a deterministic function of the two.
#[verifier::external_body]
fn argon2_verify(hash: &str, password: &str) -> (r: Option<bool>)
    ensures
        r == password_verifies(hash@, password@),
{
    argon2::verify_encoded(hash, password.as_bytes()).ok()
}

/// Hashes a password under a fresh random salt; the hash verifies
/// against the password it was made from.
pub fn password_hash(password: &str) -> (r: Result<String, Error>)
    ensures
        r matches Err(e) ==> e == Error::HashingError,
        password@.len() <= 0x3FFF_FFFF ==> r is Ok,
        r matches Ok(h) ==> password_verifies(h@, password@) == Some(true),
{
    let salt = random_salt();
    match argon2_hash(password, salt.as_slice()) {
        Some(h) => Ok(h),
        None => Err(Error::HashingError),
    }
}

/// Verifies a password against an encoded hash.
pub fn verify_password(hash: &str, password: &str) -> (r: Result<bool, Error>)
    ensures
        r matches Ok(b) ==> password_verifies(hash@, password@) == Some(b),
        r matches Err(e) ==> e == Error::HashingError && password_verifies(hash@, password@)
            is None,
{
    match argon2_verify(hash, password) {
        Some(b) => Ok(b),
        None => Err(Error::HashingError),
    }
}

} // verus!
