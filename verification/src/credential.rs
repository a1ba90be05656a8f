//! Password credentials: a password is stored as a salted bcrypt hash and
//! checked against it, never kept as it was typed.

use vstd::prelude::*;

verus! {

/// The error type of the bcrypt crate, carried through unopened.
#[verifier::external_type_specification]
#[verifier::external_body]
pub struct ExBcryptError(bcrypt::BcryptError);

/// What `bcrypt::verify` answers for a password and a stored hash: `Some` of
/// its verdict, or `None` where it reports an error (a hash that is not in
/// bcrypt's format, or one that names a cost outside bcrypt's range).
pub uninterp spec fn verdict(password: Seq<char>, hash: Seq<char>) -> Option<bool>;

/// The work factor with which passwords are hashed: bcrypt's own default.
pub const PASSWORD_COST: u32 = 12;

/// Calls `bcrypt::hash`, which draws a random salt and hashes the password
/// with the given cost. Nothing is claimed about which hash comes back, nor
/// that one does: the call fails when the system gives no random bytes or the
/// cost is outside bcrypt's range. What is claimed is that a hash that does
/// come back is one that `bcrypt::verify` accepts for the same password.
#[verifier::external_body]
fn bcrypt_hash(password: &str, cost: u32) -> (r: Result<String, bcrypt::BcryptError>)
    ensures
        r matches Ok(hash) ==> verdict(password@, hash@) == Some(true),
{
    bcrypt::hash(password, cost)
}

/// Calls `bcrypt::verify`, which reads cost and salt from the stored hash,
/// hashes the password again with them and compares. The answer depends on
/// the two texts alone, so it is a fixed function of them: `verdict`.
#[verifier::external_body]
fn bcrypt_verify(password: &str, hash: &str) -> (r: Result<bool, bcrypt::BcryptError>)
    ensures
        match r {
            Ok(same) => verdict(password@, hash@) == Some(same),
            Err(_) => verdict(password@, hash@) is None,
        },
{
    bcrypt::verify(password, hash)
}

/// The hash to store when hashing ended as `outcome`: the hash itself, or
/// nothing when hashing failed.
pub fn stored_hash(outcome: Result<String, bcrypt::BcryptError>) -> (r: Option<String>)
    ensures
        r == match outcome {
            Ok(hash) => Some(hash),
            Err(_) => None,
        },
{
    match outcome {
        Ok(hash) => Some(hash),
        Err(_) => None,
    }
}

/// Whether a verification that ended as `outcome` lets the password pass.
/// Only a clean yes does: a hash that cannot be read counts as a mismatch.
pub fn grants(outcome: Result<bool, bcrypt::BcryptError>) -> (r: bool)
    ensures
        r == (outcome matches Ok(true)),
{
    match outcome {
        Ok(same) => same,
        Err(_) => false,
    }
}

/// Hashes a password for storage. Gives `None` when no hash could be made;
/// a hash that is given is one the password matches.
pub fn hash_password(password: &str) -> (r: Option<String>)
    ensures
        r matches Some(hash) ==> verdict(password@, hash@) == Some(true),
{
    stored_hash(bcrypt_hash(password, PASSWORD_COST))
}

/// Whether the password matches the stored hash.
pub fn password_matches(password: &str, hash: &str) -> (r: bool)
    ensures
        r == (verdict(password@, hash@) == Some(true)),
{
    grants(bcrypt_verify(password, hash))
}

} // verus!
