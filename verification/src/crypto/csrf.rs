//! CSRF double-submit tokens: random opaque values, compared in constant
//! time.

use vstd::prelude::*;

use crate::crypto::ct_str_eq;
use crate::encoding::b64url_of;
use crate::rng::generate_random_token;

verus! {

/// Generate a random CSRF token (32 bytes, base64url-encoded).
pub fn generate_csrf_token() -> (r: String)
    ensures
        r@.len() == 43,
        exists|b: Seq<u8>| b.len() == 32 && r@ == b64url_of(b),
{
    generate_random_token()
}

/// Timing-safe comparison of two CSRF tokens: true exactly when they hold
/// the same characters.
pub fn verify_csrf_token(token: &str, expected: &str) -> (r: bool)
    ensures
        r == (token@ == expected@),
{
    ct_str_eq(token, expected)
}

} // verus!
