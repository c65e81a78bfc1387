//! Trusted boundary around the random generators: fresh secrets (codes,
//! tokens), and fresh record identifiers. Nothing beyond a length can be
//! promised of a random value.

use vstd::prelude::*;

#[allow(unused_imports)]
use rand::RngCore;

use crate::encoding::{b64url_encode, b64url_of};

verus! {

/// Relies on `rand::thread_rng` / `RngCore::fill_bytes`: fills 32 bytes from
/// a cryptographically secure generator. Only the length is promised.
#[verifier::external_body]
pub fn random_bytes_32() -> (r: Vec<u8>)
    ensures
        r@.len() == 32,
{
    let mut bytes = [0u8; 32];
    rand::thread_rng().fill_bytes(&mut bytes);
    bytes.to_vec()
}

/// Relies on `uuid::Uuid::new_v4` and its hyphenated `to_string` form:
/// a fresh random identifier, 36 characters long.
#[verifier::external_body]
pub fn new_uuid() -> (r: String)
    ensures
        r@.len() == 36,
{
    uuid::Uuid::new_v4().to_string()
}

/// A fresh opaque bearer secret: 32 random bytes, base64url-encoded without
/// padding (43 characters).
pub fn generate_random_token() -> (r: String)
    ensures
        r@.len() == 43,
        exists|b: Seq<u8>| b.len() == 32 && r@ == b64url_of(b),
{
    let bytes = random_bytes_32();
    let r = b64url_encode(bytes.as_slice());
    proof {
        assert(bytes@.len() == 32 && r@ == b64url_of(bytes@));
    }
    r
}

} // verus!
