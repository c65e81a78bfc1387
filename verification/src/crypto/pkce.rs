//! PKCE S256 verification: the code challenge is the base64url-encoded
//! SHA-256 digest of the code verifier.

use vstd::prelude::*;

use crate::crypto::ct_str_eq;
use crate::encoding::{b64url_encode, b64url_of, sha256, sha256_of};

verus! {

/// The S256 challenge that belongs to a code verifier: base64url (no
/// padding) of the SHA-256 digest of the verifier's bytes.
pub open spec fn s256_challenge_of(verifier: Seq<char>) -> Seq<char> {
    b64url_of(sha256_of(vstd::utf8::encode_utf8(verifier)))
}

/// Verify a PKCE S256 code challenge: true exactly when the challenge is
/// the S256 challenge of the presented verifier. The final comparison is
/// constant-time.
pub fn verify_s256(code_verifier: &str, code_challenge: &str) -> (r: bool)
    ensures
        r == (s256_challenge_of(code_verifier@) == code_challenge@),
{
    let digest = sha256(code_verifier.as_bytes());
    let computed = b64url_encode(digest.as_slice());
    ct_str_eq(computed.as_str(), code_challenge)
}

} // verus!
