//! Security primitives gating every trust-sensitive decision: constant-time
//! comparison, password hashing, PKCE, CSRF tokens, signing keys and JWTs.

pub mod csrf;
pub mod keys;
pub mod password;
pub mod pkce;
pub mod token;

use vstd::prelude::*;

#[allow(unused_imports)]
use subtle::ConstantTimeEq;

verus! {

/// Relies on `subtle::ConstantTimeEq::ct_eq` for byte slices: true exactly
/// when the two strings hold the same bytes, in time independent of the
/// contents (only a length mismatch returns early). Equal byte strings are
/// equal strings (UTF-8 encoding is injective), so the result is character
/// equality.
#[verifier::external_body]
pub fn ct_str_eq(a: &str, b: &str) -> (r: bool)
    ensures
        r == (a@ == b@),
{
    a.as_bytes().ct_eq(b.as_bytes()).into()
}

} // verus!
