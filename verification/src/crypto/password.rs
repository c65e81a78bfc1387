//! Password hashing and verification (Argon2id), and the dummy verification
//! used to equalize timing between unknown-username and wrong-password
//! paths.

use vstd::prelude::*;

#[allow(unused_imports)]
use password_hash::{PasswordHash, PasswordHasher, PasswordVerifier, SaltString};

verus! {

/// Whether a password matches a password-hash string, as decided by
/// `argon2::Argon2::verify_password` (false for any malformed hash). The
/// hash string carries algorithm, parameters and salt, so the outcome
/// depends on the two strings alone.
pub uninterp spec fn password_matches(password: Seq<char>, hash: Seq<char>) -> bool;

/// Hash a password with Argon2id and a fresh random salt.
///
/// Relies on `argon2::Argon2::hash_password` and
/// `password_hash::SaltString::generate`: the produced hash is a
/// self-describing PHC string beginning with the `$argon2id$` algorithm
/// identifier and encoding parameters and salt, so verification of the
/// same password against it succeeds.
#[verifier::external_body]
pub fn hash_password(password: &str) -> (r: Result<String, ()>)
    ensures
        r is Ok ==> password_matches(password@, r->Ok_0@),
        r is Ok ==> r->Ok_0@.len() > "$argon2id$"@.len() && r->Ok_0@.take(
            "$argon2id$"@.len() as int,
        ) == "$argon2id$"@,
{
    let salt = SaltString::generate(&mut password_hash::rand_core::OsRng);
    match argon2::Argon2::default().hash_password(password.as_bytes(), &salt) {
        Ok(hash) => Ok(hash.to_string()),
        Err(_) => Err(()),
    }
}

/// Verify a password against an Argon2id hash string. False on any
/// malformed hash or mismatch; never fails.
///
/// Relies on `argon2::Argon2::verify_password` via
/// `password_hash::PasswordHash::new`: deterministic in the two arguments.
#[verifier::external_body]
pub fn verify_password(password: &str, hash: &str) -> (r: bool)
    ensures
        r == password_matches(password@, hash@),
{
    let parsed = match PasswordHash::new(hash) {
        Ok(h) => h,
        Err(_) => return false,
    };
    argon2::Argon2::default().verify_password(password.as_bytes(), &parsed).is_ok()
}

/// Perform a full verification against a fixed, valid hash (default
/// Argon2id parameters and a salt of legal length, so the computation
/// actually runs) and discard the result, so that the unknown-username
/// path takes as long as the wrong-password path.
pub fn dummy_verify() {
    let dummy_hash =
        "$argon2id$v=19$m=19456,t=2,p=1$dW5rbm93bjE$AAAAAAAAAAAAAAAAAAAAAAAAAAAAAAAAAAAAAAAAAAA";
    let _ = verify_password("dummy", dummy_hash);
}

} // verus!
