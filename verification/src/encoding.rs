//! Trusted boundary around the byte-string codecs the protocol relies on:
//! SHA-256 digests, base64url (no padding), and percent-encoding for
//! redirect query parameters. Each outside call is given a name so that the
//! callers' own contracts can pin their results exactly.

use vstd::prelude::*;

#[allow(unused_imports)]
use sha2::Digest;
#[allow(unused_imports)]
use base64::Engine;

use crate::hex::hex_of;

verus! {

/// The SHA-256 digest of a byte string, as computed by the sha2 crate.
/// The digest is a function of the input bytes alone.
pub uninterp spec fn sha256_of(bytes: Seq<u8>) -> Seq<u8>;

/// The base64url encoding without padding of a byte string, as computed by
/// the base64 crate's `URL_SAFE_NO_PAD` engine.
pub uninterp spec fn b64url_of(bytes: Seq<u8>) -> Seq<char>;

/// The percent-encoding of a string, as computed by `urlencoding::encode`.
pub uninterp spec fn urlenc_of(s: Seq<char>) -> Seq<char>;

/// Relies on `sha2::Sha256::digest`: a SHA-256 digest is 32 bytes and
/// depends on the input bytes alone.
#[verifier::external_body]
pub fn sha256(bytes: &[u8]) -> (r: Vec<u8>)
    ensures
        r@ == sha256_of(bytes@),
        r@.len() == 32,
{
    sha2::Sha256::digest(bytes).to_vec()
}

/// Relies on the base64 crate's `URL_SAFE_NO_PAD` engine: unpadded base64url
/// output has 4 characters per full 3-byte chunk, plus 2 or 3 for a trailing
/// partial chunk, and depends on the input bytes alone.
#[verifier::external_body]
pub fn b64url_encode(bytes: &[u8]) -> (r: String)
    ensures
        r@ == b64url_of(bytes@),
        r@.len() == (bytes@.len() * 4 + 2) / 3,
{
    base64::engine::general_purpose::URL_SAFE_NO_PAD.encode(bytes)
}

/// Relies on `urlencoding::encode`: percent-encodes everything but ASCII
/// alphanumerics and `-`, `_`, `.`, `~`; the result depends on the input
/// alone, and an empty input stays empty.
#[verifier::external_body]
pub fn url_encode(s: &str) -> (r: String)
    ensures
        r@ == urlenc_of(s@),
        s@.len() == 0 ==> r@.len() == 0,
{
    urlencoding::encode(s).into_owned()
}

/// The stored form of a bearer secret: lowercase hex of its SHA-256 digest.
pub open spec fn secret_hash_of(s: Seq<char>) -> Seq<char> {
    hex_of(sha256_of(vstd::utf8::encode_utf8(s)))
}

/// Hash a bearer secret for storage: hex-encoded SHA-256 of its bytes.
pub fn secret_hash(s: &str) -> (r: String)
    ensures
        r@ == secret_hash_of(s@),
{
    let digest = sha256(s.as_bytes());
    crate::hex::encode(digest.as_slice())
}

} // verus!
