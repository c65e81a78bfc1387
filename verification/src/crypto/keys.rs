//! Ed25519 signing keys: generation, the public-key JWK projection, and raw
//! signing. Key material crosses this module only as PEM text.

use vstd::prelude::*;

#[allow(unused_imports)]
use ed25519_dalek::pkcs8::{DecodePrivateKey, DecodePublicKey, EncodePrivateKey, EncodePublicKey};
#[allow(unused_imports)]
use ed25519_dalek::Signer;
#[allow(unused_imports)]
use vstd::string::StringExecFns;

use crate::encoding::{b64url_encode, b64url_of};
use crate::jsontext::{append_json_str, json_str};
use crate::rng::new_uuid;

verus! {

/// The 32 public-key bytes encoded by an Ed25519 public-key PEM, as decoded
/// by `ed25519_dalek::VerifyingKey::from_public_key_pem`.
pub uninterp spec fn ed25519_pub_of(public_key_pem: Seq<char>) -> Seq<u8>;

/// The Ed25519 signature over a message under the private key held in a
/// PKCS#8 PEM. Ed25519 signing is deterministic, so the signature is a
/// function of the key and the message alone.
pub uninterp spec fn ed25519_sig_of(private_key_pem: Seq<char>, msg: Seq<char>) -> Seq<u8>;

/// Whether a text is a PKCS#8 Ed25519 private-key PEM that
/// `SigningKey::from_pkcs8_pem` accepts — a deterministic property of the
/// text alone.
pub uninterp spec fn ed25519_priv_pem_ok(private_key_pem: Seq<char>) -> bool;

/// Whether a text is an SPKI Ed25519 public-key PEM that
/// `VerifyingKey::from_public_key_pem` accepts — a deterministic property
/// of the text alone.
pub uninterp spec fn ed25519_pub_pem_ok(public_key_pem: Seq<char>) -> bool;

/// The SPKI public-key PEM belonging to a PKCS#8 Ed25519 private-key PEM:
/// the private PEM determines the signing key, whose verifying key has
/// exactly one PEM encoding (`SigningKey::verifying_key` followed by
/// `to_public_key_pem`).
pub uninterp spec fn ed25519_public_pem_of(private_key_pem: Seq<char>) -> Seq<char>;

/// Relies on `ed25519_dalek::SigningKey::generate` (seeded from
/// `rand::thread_rng`) and the pkcs8 PEM encoders: a fresh keypair as
/// (private PEM, public PEM). The two PEMs encode a matching pair — the
/// public PEM is the one derived from the private PEM — and each encoder
/// emits exactly the document its decoder accepts (the pkcs8 round trip),
/// so both PEMs parse back. Nothing else can be promised of random key
/// material.
#[verifier::external_body]
fn ed25519_generate_pems() -> (r: Result<(String, String), ()>)
    ensures
        r is Ok ==> r->Ok_0.1@ == ed25519_public_pem_of(r->Ok_0.0@),
        r is Ok ==> ed25519_priv_pem_ok(r->Ok_0.0@) && ed25519_pub_pem_ok(r->Ok_0.1@),
{
    let signing_key = ed25519_dalek::SigningKey::generate(&mut rand::thread_rng());
    let line_ending = ed25519_dalek::pkcs8::spki::der::pem::LineEnding::LF;
    let private_pem = match signing_key.to_pkcs8_pem(line_ending) {
        Ok(p) => p.to_string(),
        Err(_) => return Err(()),
    };
    match signing_key.verifying_key().to_public_key_pem(line_ending) {
        Ok(public_pem) => Ok((private_pem, public_pem)),
        Err(_) => Err(()),
    }
}

/// Relies on `ed25519_dalek::VerifyingKey::from_public_key_pem` and
/// `to_bytes`: the 32 raw public-key bytes held in the PEM, a function of
/// the PEM text alone; it succeeds exactly when the PEM parses.
#[verifier::external_body]
fn ed25519_public_bytes(public_key_pem: &str) -> (r: Result<Vec<u8>, ()>)
    ensures
        r is Ok <==> ed25519_pub_pem_ok(public_key_pem@),
        r is Ok ==> r->Ok_0@ == ed25519_pub_of(public_key_pem@) && r->Ok_0@.len() == 32,
{
    match ed25519_dalek::VerifyingKey::from_public_key_pem(public_key_pem) {
        Ok(key) => Ok(key.to_bytes().to_vec()),
        Err(_) => Err(()),
    }
}

/// Relies on `ed25519_dalek::SigningKey::from_pkcs8_pem` and
/// `Signer::sign`: the 64-byte Ed25519 signature of the message under the
/// key, deterministic in both arguments. It succeeds exactly when the
/// private-key PEM parses; signing itself never fails.
#[verifier::external_body]
pub fn ed25519_sign(private_key_pem: &str, msg: &str) -> (r: Result<Vec<u8>, ()>)
    ensures
        r is Ok <==> ed25519_priv_pem_ok(private_key_pem@),
        r is Ok ==> r->Ok_0@ == ed25519_sig_of(private_key_pem@, msg@) && r->Ok_0@.len() == 64,
{
    match ed25519_dalek::SigningKey::from_pkcs8_pem(private_key_pem) {
        Ok(key) => Ok(key.sign(msg.as_bytes()).to_bytes().to_vec()),
        Err(_) => Err(()),
    }
}

/// Generate a new Ed25519 keypair. Returns (private_key_pem,
/// public_key_pem, kid): the public PEM is the one belonging to the
/// private PEM, and the kid is a fresh random identifier, not derived from
/// key material.
pub fn generate_ed25519_keypair() -> (r: Result<(String, String, String), ()>)
    ensures
        r is Ok ==> r->Ok_0.1@ == ed25519_public_pem_of(r->Ok_0.0@),
        r is Ok ==> ed25519_priv_pem_ok(r->Ok_0.0@) && ed25519_pub_pem_ok(r->Ok_0.1@),
        r is Ok ==> r->Ok_0.2@.len() == 36,
{
    let pems = ed25519_generate_pems();
    match pems {
        Ok(p) => {
            let kid = new_uuid();
            Ok((p.0, p.1, kid))
        },
        Err(_) => Err(()),
    }
}

/// The JWK JSON text publishing an Ed25519 public key under a kid.
pub open spec fn jwk_json_of(public_key_pem: Seq<char>, kid: Seq<char>) -> Seq<char> {
    "{\"kty\":\"OKP\",\"crv\":\"Ed25519\",\"use\":\"sig\",\"kid\":"@ + json_str(kid) + ",\"x\":"@
        + json_str(b64url_of(ed25519_pub_of(public_key_pem))) + "}"@
}

/// Build the JWK (JSON text) for a public key PEM and kid; it succeeds
/// exactly when the PEM parses.
pub fn public_key_to_jwk(public_key_pem: &str, kid: &str) -> (r: Result<String, ()>)
    ensures
        r is Ok <==> ed25519_pub_pem_ok(public_key_pem@),
        r is Ok ==> r->Ok_0@ == jwk_json_of(public_key_pem@, kid@),
{
    let bytes = match ed25519_public_bytes(public_key_pem) {
        Ok(b) => b,
        Err(_) => return Err(()),
    };
    let x = b64url_encode(bytes.as_slice());
    let mut out = String::from_str("{\"kty\":\"OKP\",\"crv\":\"Ed25519\",\"use\":\"sig\",\"kid\":");
    append_json_str(&mut out, kid);
    out.append(",\"x\":");
    append_json_str(&mut out, x.as_str());
    out.append("}");
    proof {
        assert(out@ =~= jwk_json_of(public_key_pem@, kid@));
    }
    Ok(out)
}

} // verus!
