//! Unit tests for the security primitives and codecs, with exact expected
//! values, run against the real outside crates.

use anz::crypto::csrf::{generate_csrf_token, verify_csrf_token};
use anz::crypto::keys::{generate_ed25519_keypair, public_key_to_jwk};
use anz::crypto::password::{dummy_verify, hash_password, verify_password};
use anz::crypto::pkce::verify_s256;
use anz::crypto::token::{
    build_access_token_claims, build_id_token_claims, decode_access_token, encode_jwt,
    access_token_payload, id_token_payload,
};
use anz::encoding::{b64url_encode, secret_hash, url_encode};
use anz::hex::encode as hex_encode_slice;
use anz::jsontext::json_escape;
use anz::server::token::hex_encode;
use anz::strutil::{str_eq, u64_to_dec};

#[test]
fn hex_encodes_bytes_two_lowercase_digits_each() {
    assert_eq!(hex_encode_slice(&[]), "");
    assert_eq!(hex_encode_slice(&[0x00, 0xab, 0xff, 0x10]), "00abff10");
    assert_eq!(hex_encode(&[0xde, 0xad, 0xbe, 0xef]), "deadbeef");
}

#[test]
fn secret_hash_is_hex_sha256() {
    // SHA-256("abc"), a fixed known digest.
    assert_eq!(
        secret_hash("abc"),
        "ba7816bf8f01cfea414140de5dae2223b00361a396177a9cb410ff61f20015ad"
    );
    assert_eq!(
        secret_hash(""),
        "e3b0c44298fc1c149afbf4c8996fb92427ae41e4649b934ca495991b7852b855"
    );
}

#[test]
fn b64url_encodes_without_padding() {
    assert_eq!(b64url_encode(b"hello"), "aGVsbG8");
    assert_eq!(b64url_encode(b""), "");
    // The two url-safe alphabet characters appear where standard base64
    // would use + and /.
    assert_eq!(b64url_encode(&[0xfb, 0xff]), "-_8");
}

#[test]
fn url_encode_percent_encodes_reserved_characters() {
    assert_eq!(url_encode("abc-_.~"), "abc-_.~");
    assert_eq!(url_encode("a b/c?d=e"), "a%20b%2Fc%3Fd%3De");
    assert_eq!(url_encode(""), "");
}

#[test]
fn pkce_s256_accepts_the_rfc_7636_example() {
    // The worked example of RFC 7636 appendix B.
    let verifier = "dBjftJeZ4CVP-mB92K27uhbUJU1p1r_wW1gFWFOEjXk";
    let challenge = "E9Melhoa2OwvFrEMTJguCHaoeK1t8URWbuGJSstw-cM";
    assert!(verify_s256(verifier, challenge));
}

#[test]
fn pkce_s256_rejects_any_other_verifier() {
    let challenge = "E9Melhoa2OwvFrEMTJguCHaoeK1t8URWbuGJSstw-cM";
    assert!(!verify_s256("dBjftJeZ4CVP-mB92K27uhbUJU1p1r_wW1gFWFOEjXj", challenge));
    assert!(!verify_s256("", challenge));
}

#[test]
fn csrf_tokens_are_43_chars_and_compare_exactly() {
    let t1 = generate_csrf_token();
    let t2 = generate_csrf_token();
    assert_eq!(t1.chars().count(), 43);
    assert!(verify_csrf_token(&t1, &t1));
    assert!(!verify_csrf_token(&t1, &t2));
    assert!(!verify_csrf_token(&t1, ""));
}

#[test]
fn password_hash_verifies_and_rejects() {
    let hash = hash_password("hunter2").expect("hashing");
    assert!(hash.starts_with("$argon2id$"));
    assert!(verify_password("hunter2", &hash));
    assert!(!verify_password("hunter3", &hash));
    assert!(!verify_password("hunter2", "not a phc string"));
    dummy_verify();
}

#[test]
fn two_hashes_of_one_password_use_different_salts() {
    let h1 = hash_password("same").expect("hashing");
    let h2 = hash_password("same").expect("hashing");
    assert_ne!(h1, h2);
    assert!(verify_password("same", &h1));
    assert!(verify_password("same", &h2));
}

#[test]
fn json_escape_handles_quotes_backslashes_and_controls() {
    assert_eq!(json_escape("plain"), "plain");
    assert_eq!(json_escape("a\"b"), "a\\\"b");
    assert_eq!(json_escape("a\\b"), "a\\\\b");
    assert_eq!(json_escape("a\nb\tc\rd"), "a\\nb\\tc\\rd");
    assert_eq!(json_escape("\u{01}"), "\\u0001");
    assert_eq!(json_escape("émoji ✓"), "émoji ✓");
}

#[test]
fn u64_to_dec_formats_decimal() {
    assert_eq!(u64_to_dec(0), "0");
    assert_eq!(u64_to_dec(7), "7");
    assert_eq!(u64_to_dec(1234567890), "1234567890");
    assert_eq!(u64_to_dec(u64::MAX), "18446744073709551615");
}

#[test]
fn str_eq_compares_by_characters() {
    assert!(str_eq("", ""));
    assert!(str_eq("déjà", "déjà"));
    assert!(!str_eq("a", "b"));
    assert!(!str_eq("a", "ab"));
}

#[test]
fn keypair_jwk_has_okp_shape() {
    let (_private_pem, public_pem, kid) = generate_ed25519_keypair().expect("keypair");
    assert_eq!(kid.chars().count(), 36);
    let jwk = public_key_to_jwk(&public_pem, &kid).expect("jwk");
    let v: serde_json::Value = serde_json::from_str(&jwk).expect("jwk parses");
    assert_eq!(v["kty"], "OKP");
    assert_eq!(v["crv"], "Ed25519");
    assert_eq!(v["use"], "sig");
    assert_eq!(v["kid"], kid.as_str());
    assert_eq!(v["x"].as_str().unwrap().len(), 43);
}

#[test]
fn encoded_jwt_round_trips_through_real_validation() {
    let (private_pem, public_pem, kid) = generate_ed25519_keypair().expect("keypair");
    let issuer = "http://localhost:8080/realms/acme";
    let now = 1_700_000_000i64;
    let claims =
        build_access_token_claims(issuer, "user-1", issuer, 3600, "openid", "app1", now_secs(now));
    let payload = access_token_payload(&claims);
    let token = encode_jwt(&payload, &kid, &private_pem).expect("signing");
    assert_eq!(token.split('.').count(), 3);
    let decoded = decode_access_token(&token, &public_pem, issuer).expect("validates");
    assert_eq!(decoded.iss, issuer);
    assert_eq!(decoded.sub, "user-1");
    assert_eq!(decoded.aud, issuer);
    assert_eq!(decoded.scope, "openid");
    assert_eq!(decoded.client_id, "app1");
    assert_eq!(decoded.iat, now_secs(now));
}

#[test]
fn decode_rejects_wrong_issuer_and_garbage() {
    let (private_pem, public_pem, kid) = generate_ed25519_keypair().expect("keypair");
    let issuer = "http://localhost:8080/realms/acme";
    let now = now_secs(1_700_000_000);
    let claims = build_access_token_claims(issuer, "user-1", issuer, 3600, "openid", "app1", now);
    let payload = access_token_payload(&claims);
    let token = encode_jwt(&payload, &kid, &private_pem).expect("signing");
    assert!(decode_access_token(&token, &public_pem, "http://other/realms/acme").is_err());
    assert!(decode_access_token("not.a.jwt", &public_pem, issuer).is_err());
    let (_, other_public, _) = generate_ed25519_keypair().expect("keypair");
    assert!(decode_access_token(&token, &other_public, issuer).is_err());
}

#[test]
fn id_token_payload_carries_nonce_only_when_present() {
    let now = now_secs(1_700_000_000);
    let with_nonce = build_id_token_claims(
        "iss", "sub", "aud", 60, "alice", "a@example.com", Some("n-1".to_string()), now,
    );
    let without = build_id_token_claims("iss", "sub", "aud", 60, "alice", "a@example.com", None, now);
    let p1 = id_token_payload(&with_nonce);
    let p2 = id_token_payload(&without);
    let v1: serde_json::Value = serde_json::from_str(&p1).expect("payload parses");
    let v2: serde_json::Value = serde_json::from_str(&p2).expect("payload parses");
    assert_eq!(v1["nonce"], "n-1");
    assert!(v2.get("nonce").is_none());
    assert_eq!(v1["preferred_username"], "alice");
    assert_eq!(v1["exp"], serde_json::Value::from(now + 60));
}

fn now_secs(base: i64) -> i64 {
    // A fixed instant well past the epoch keeps expiry arithmetic in range
    // while staying current enough for real-time validators; tests that
    // call outside validation use the real clock instead.
    let real = std::time::SystemTime::now()
        .duration_since(std::time::UNIX_EPOCH)
        .map(|d| d.as_secs() as i64)
        .unwrap_or(base);
    real
}
