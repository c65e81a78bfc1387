//! Timing equalization: the unknown-username path performs a dummy
//! verification so that it is statistically indistinguishable from the
//! wrong-password path. This compares medians over several samples with a
//! generous tolerance (the bound is the Argon2id noise floor, not an exact
//! figure).

use anz::config::Config;
use anz::crypto::password::hash_password;
use anz::encoding::b64url_encode;
use anz::server::authorize::{authorize_post, AuthorizeForm, AuthorizePostOutcome};
use anz::store::Store;
use sha2::Digest;
use std::time::Instant;

const NOW: i64 = 1_700_000_000;

fn form_for(username: &str, password: &str) -> AuthorizeForm {
    let challenge = b64url_encode(&sha2::Sha256::digest(b"verifier-verifier-verifier-verifier-1234567"));
    AuthorizeForm {
        csrf_token: "tok".to_string(),
        username: username.to_string(),
        password: password.to_string(),
        client_id: "app1".to_string(),
        redirect_uri: "https://app1/cb".to_string(),
        response_type: "code".to_string(),
        scope: "openid".to_string(),
        state: String::new(),
        code_challenge: challenge,
        code_challenge_method: "S256".to_string(),
        nonce: None,
    }
}

fn median(mut xs: Vec<u128>) -> u128 {
    xs.sort();
    xs[xs.len() / 2]
}

#[test]
fn unknown_username_and_wrong_password_take_similar_time() {
    let config = Config::default();
    let mut store = Store::new();
    let realm = store.create_realm("acme", NOW).expect("realm");
    let uris = vec!["https://app1/cb".to_string()];
    store.create_client(&realm.id, "app1", &uris, NOW).expect("client");
    let hash = hash_password("secret").expect("hash");
    store.create_user(&realm.id, "alice", "alice@example.com", &hash, NOW).expect("user");
    let cookie = "anz_csrf_acme=tok".to_string();

    let mut unknown_ns: Vec<u128> = Vec::new();
    let mut wrong_ns: Vec<u128> = Vec::new();
    for _ in 0..7 {
        let f = form_for("nobody", "secret");
        let t = Instant::now();
        let r = authorize_post(&mut store, &config, "acme", &f, Some(cookie.as_str()), NOW);
        unknown_ns.push(t.elapsed().as_nanos());
        assert!(matches!(r, AuthorizePostOutcome::LoginError { .. }));

        let f = form_for("alice", "wrong");
        let t = Instant::now();
        let r = authorize_post(&mut store, &config, "acme", &f, Some(cookie.as_str()), NOW);
        wrong_ns.push(t.elapsed().as_nanos());
        assert!(matches!(r, AuthorizePostOutcome::LoginError { .. }));
    }
    let m_unknown = median(unknown_ns) as f64;
    let m_wrong = median(wrong_ns) as f64;
    let ratio = if m_unknown > m_wrong { m_unknown / m_wrong } else { m_wrong / m_unknown };
    assert!(
        ratio < 5.0,
        "failure paths diverge: unknown-user median {m_unknown}ns, wrong-password median {m_wrong}ns"
    );
}
