//! Credentials: deriving the stored hash from a password and checking a
//! password against it. The hashing itself is bcrypt's.
use crate::models::User;
use vstd::prelude::*;

verus! {

/// The failure type of bcrypt.
#[verifier::external_type_specification]
#[verifier::external_body]
pub struct ExBcryptError(bcrypt::BcryptError);

/// What `bcrypt::verify` answers for a password and a hash: `Some(true)`
/// where the password fits the hash, `Some(false)` where it does not, and
/// `None` where bcrypt gives an error, as it does for a text that is no
/// bcrypt hash.
pub uninterp spec fn bcrypt_verdict(password: Seq<char>, hash: Seq<char>) -> Option<bool>;

/// The password fits the hash.
pub open spec fn password_matches(password: Seq<char>, hash: Seq<char>) -> bool {
    bcrypt_verdict(password, hash) == Some(true)
}

/// The work factor of the hashes that the engine derives.
pub const HASH_COST: u32 = 12;

/// Calls `bcrypt::verify`. The answer depends on the two texts alone: the
/// salt and the cost are read from the hash, and the password is hashed
/// again with them.
#[verifier::external_body]
pub(crate) fn bcrypt_verify(password: &str, hash: &str) -> (r: Result<bool, bcrypt::BcryptError>)
    ensures
        match r {
            Ok(fits) => bcrypt_verdict(password@, hash@) == Some(fits),
            Err(_) => bcrypt_verdict(password@, hash@) is None,
        },
{
    bcrypt::verify(password, hash)
}

/// Calls `bcrypt::hash`, which salts the password with fresh random bytes:
/// two calls on one password give different hashes. Whatever hash comes
/// back, `bcrypt::verify` accepts the password for it, since it reads the
/// same salt and cost back out of the hash and repeats the computation.
#[verifier::external_body]
fn bcrypt_hash(password: &str, cost: u32) -> (r: Result<String, bcrypt::BcryptError>)
    ensures
        match r {
            Ok(hash) => bcrypt_verdict(password@, hash@) == Some(true),
            Err(_) => true,
        },
{
    bcrypt::hash(password, cost)
}

/// What a check of a password comes to: an error of the check counts as a
/// password that does not fit.
pub fn verdict_accepts(verdict: Result<bool, bcrypt::BcryptError>) -> (r: bool)
    ensures
        r == (verdict matches Ok(fits) && fits),
{
    match verdict {
        Ok(fits) => fits,
        Err(_) => false,
    }
}

impl User {
    /// Whether the password fits the user's stored hash. A stored text
    /// that is no hash fits no password.
    pub fn verify_password(&self, password: &str) -> (r: bool)
        ensures
            r == password_matches(password@, self@.password_hash),
    {
        verdict_accepts(bcrypt_verify(password, self.password_hash.as_str()))
    }

    /// A fresh hash of the password. Every hash that comes back fits the
    /// password.
    pub fn hash_password(password: &str) -> (r: Result<String, bcrypt::BcryptError>)
        ensures
            match r {
                Ok(hash) => password_matches(password@, hash@),
                Err(_) => true,
            },
    {
        bcrypt_hash(password, HASH_COST)
    }
}

} // verus!
