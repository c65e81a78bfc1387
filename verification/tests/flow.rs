//! End-to-end protocol scenarios: login, code exchange, single use,
//! refresh rotation, PKCE binding, redirect exactness and expiry.

use anz::config::Config;
use anz::crypto::password::hash_password;
use anz::crypto::token::decode_access_token;
use anz::encoding::b64url_encode;
use anz::server::authorize::{
    authorize_get, authorize_post, AuthorizeForm, AuthorizeGetOutcome, AuthorizePostOutcome,
    AuthorizeQuery,
};
use anz::server::error::AppError;
use anz::server::password::{change_password, ChangePasswordRequest};
use anz::server::token::{token, TokenRequest, TokenResponse};
use anz::store::Store;
use sha2::Digest;

const NOW: i64 = 1_700_000_000;
const VERIFIER: &str = "dBjftJeZ4CVP-mB92K27uhbUJU1p1r_wW1gFWFOEjXk";

fn challenge_of(verifier: &str) -> String {
    b64url_encode(&sha2::Sha256::digest(verifier.as_bytes()))
}

struct World {
    store: Store,
    config: Config,
    realm_id: String,
    user_id: String,
}

fn setup() -> World {
    let config = Config::default();
    let mut store = Store::new();
    let realm = store.create_realm("acme", NOW).expect("realm");
    let uris = vec!["https://app1/cb".to_string()];
    store
        .create_client(&realm.id, "app1", &uris, NOW)
        .expect("client");
    let hash = hash_password("secret").expect("hash");
    let user = store
        .create_user(&realm.id, "alice", "alice@example.com", &hash, NOW)
        .expect("user");
    World { store, config, realm_id: realm.id, user_id: user.id }
}

fn base_query() -> AuthorizeQuery {
    AuthorizeQuery {
        response_type: "code".to_string(),
        client_id: "app1".to_string(),
        redirect_uri: "https://app1/cb".to_string(),
        scope: Some("openid".to_string()),
        state: Some("xyz".to_string()),
        code_challenge: Some(challenge_of(VERIFIER)),
        code_challenge_method: Some("S256".to_string()),
        nonce: None,
    }
}

fn base_form(csrf_token: &str, username: &str, password: &str) -> AuthorizeForm {
    AuthorizeForm {
        csrf_token: csrf_token.to_string(),
        username: username.to_string(),
        password: password.to_string(),
        client_id: "app1".to_string(),
        redirect_uri: "https://app1/cb".to_string(),
        response_type: "code".to_string(),
        scope: "openid".to_string(),
        state: "xyz".to_string(),
        code_challenge: challenge_of(VERIFIER),
        code_challenge_method: "S256".to_string(),
        nonce: None,
    }
}

/// Drive GET (login form) then POST (credentials) and return the raw code
/// with the session token.
fn login_and_get_code_at(w: &mut World, at: i64) -> (String, String) {
    let outcome = authorize_get(&mut w.store, &w.config, "acme", &base_query(), None, at);
    let csrf = match outcome {
        AuthorizeGetOutcome::LoginForm { view, .. } => {
            assert!(view.error_message.is_none());
            assert_eq!(view.realm_name, "acme");
            assert_eq!(view.code_challenge, challenge_of(VERIFIER));
            view.csrf_token
        },
        _ => panic!("expected the login form"),
    };
    let cookie_header = format!("anz_csrf_acme={csrf}");
    let form = base_form(&csrf, "alice", "secret");
    let outcome = authorize_post(
        &mut w.store,
        &w.config,
        "acme",
        &form,
        Some(cookie_header.as_str()),
        at,
    );
    match outcome {
        AuthorizePostOutcome::Success { location, raw_code, session_token, session_cookie, clear_csrf_cookie } => {
            assert!(location.starts_with("https://app1/cb?code="));
            assert!(location.ends_with("&state=xyz"));
            assert!(location.contains(&raw_code));
            assert!(session_cookie.starts_with("anz_session_acme="));
            assert!(session_cookie.contains("Max-Age=86400"));
            assert!(clear_csrf_cookie.contains("Max-Age=0"));
            (raw_code, session_token)
        },
        _ => panic!("expected a successful login"),
    }
}

fn login_and_get_code(w: &mut World) -> (String, String) {
    login_and_get_code_at(w, NOW)
}

fn exchange(w: &mut World, code: &str, verifier: &str, redirect_uri: &str, at: i64) -> Result<TokenResponse, AppError> {
    let form = TokenRequest {
        grant_type: "authorization_code".to_string(),
        code: Some(code.to_string()),
        redirect_uri: Some(redirect_uri.to_string()),
        code_verifier: Some(verifier.to_string()),
        client_id: None,
        refresh_token: None,
    };
    token(&mut w.store, &w.config, "acme", &form, at)
}

fn refresh(w: &mut World, refresh_token: &str, at: i64) -> Result<TokenResponse, AppError> {
    let form = TokenRequest {
        grant_type: "refresh_token".to_string(),
        code: None,
        redirect_uri: None,
        code_verifier: None,
        client_id: None,
        refresh_token: Some(refresh_token.to_string()),
    };
    token(&mut w.store, &w.config, "acme", &form, at)
}

fn bad_request_message(r: Result<TokenResponse, AppError>) -> String {
    match r {
        Err(AppError::BadRequest(m)) => m,
        Err(_) => panic!("expected a bad request"),
        Ok(_) => panic!("expected an error"),
    }
}

#[test]
fn end_to_end_code_flow_then_single_use() {
    let mut w = setup();
    let (code, _session) = login_and_get_code(&mut w);
    let resp = exchange(&mut w, &code, VERIFIER, "https://app1/cb", NOW).expect("exchange");
    assert_eq!(resp.token_type, "Bearer");
    assert_eq!(resp.expires_in, 3600);
    assert!(!resp.access_token.is_empty());
    assert!(!resp.id_token.is_empty());
    assert!(!resp.refresh_token.is_empty());
    // The very same raw code never succeeds a second time.
    let again = exchange(&mut w, &code, VERIFIER, "https://app1/cb", NOW);
    assert_eq!(bad_request_message(again), "invalid or expired authorization code");
}

#[test]
fn issued_access_token_validates_against_realm_key() {
    let mut w = setup();
    // Issue at the real clock: the outside validator checks expiry against it.
    let real_now = std::time::SystemTime::now()
        .duration_since(std::time::UNIX_EPOCH)
        .unwrap()
        .as_secs() as i64;
    let (code, _session) = login_and_get_code_at(&mut w, real_now);
    let resp = exchange(&mut w, &code, VERIFIER, "https://app1/cb", real_now).expect("exchange");
    let key = w.store.get_active_signing_key(&w.realm_id).expect("key");
    let public_pem = key.public_key_pem.clone();
    let issuer = "http://localhost:8080/realms/acme";
    let claims = decode_access_token(&resp.access_token, &public_pem, issuer).expect("valid");
    assert_eq!(claims.sub, w.user_id);
    assert_eq!(claims.scope, "openid");
    assert_eq!(claims.client_id, "app1");
}

#[test]
fn silent_reauthentication_uses_live_session() {
    let mut w = setup();
    let (_code, session_token) = login_and_get_code(&mut w);
    let cookie = format!("other=1; anz_session_acme={session_token}");
    let outcome =
        authorize_get(&mut w.store, &w.config, "acme", &base_query(), Some(cookie.as_str()), NOW);
    match outcome {
        AuthorizeGetOutcome::Redirect { location, raw_code } => {
            assert!(location.starts_with("https://app1/cb?code="));
            let resp = exchange(&mut w, &raw_code, VERIFIER, "https://app1/cb", NOW);
            assert!(resp.is_ok());
        },
        _ => panic!("expected a silent redirect"),
    }
}

#[test]
fn expired_session_renders_login_form_again() {
    let mut w = setup();
    let (_code, session_token) = login_and_get_code(&mut w);
    let cookie = format!("anz_session_acme={session_token}");
    let later = NOW + 86400 + 1;
    let outcome =
        authorize_get(&mut w.store, &w.config, "acme", &base_query(), Some(cookie.as_str()), later);
    assert!(matches!(outcome, AuthorizeGetOutcome::LoginForm { .. }));
}

#[test]
fn refresh_rotation_returns_a_different_token_and_burns_the_old_one() {
    let mut w = setup();
    let (code, _session) = login_and_get_code(&mut w);
    let resp = exchange(&mut w, &code, VERIFIER, "https://app1/cb", NOW).expect("exchange");
    let resp2 = refresh(&mut w, &resp.refresh_token, NOW).expect("rotation");
    assert_ne!(resp2.refresh_token, resp.refresh_token);
    assert!(!resp2.access_token.is_empty());
    let reuse = refresh(&mut w, &resp.refresh_token, NOW);
    assert_eq!(bad_request_message(reuse), "invalid or expired refresh token");
    // The rotated token still works once.
    let resp3 = refresh(&mut w, &resp2.refresh_token, NOW).expect("second rotation");
    assert_ne!(resp3.refresh_token, resp2.refresh_token);
}

#[test]
fn pkce_mismatch_fails_and_burns_the_code() {
    let mut w = setup();
    let (_code, session_token) = login_and_get_code(&mut w);
    let cookie = format!("anz_session_acme={session_token}");
    let outcome =
        authorize_get(&mut w.store, &w.config, "acme", &base_query(), Some(cookie.as_str()), NOW);
    let code = match outcome {
        AuthorizeGetOutcome::Redirect { raw_code, .. } => raw_code,
        _ => panic!("expected a silent redirect"),
    };
    let wrong = exchange(&mut w, &code, "not-the-right-verifier-not-the-right-verif", "https://app1/cb", NOW);
    assert_eq!(bad_request_message(wrong), "PKCE verification failed");
    // A failed PKCE check consumed the code: the right verifier is too late.
    let late = exchange(&mut w, &code, VERIFIER, "https://app1/cb", NOW);
    assert_eq!(bad_request_message(late), "invalid or expired authorization code");
}

#[test]
fn redirect_uri_must_match_byte_for_byte() {
    let mut w = setup();
    let (_c, session_token) = login_and_get_code(&mut w);
    let cookie = format!("anz_session_acme={session_token}");
    let outcome =
        authorize_get(&mut w.store, &w.config, "acme", &base_query(), Some(cookie.as_str()), NOW);
    let code = match outcome {
        AuthorizeGetOutcome::Redirect { raw_code, .. } => raw_code,
        _ => panic!("expected a silent redirect"),
    };
    let slash = exchange(&mut w, &code, VERIFIER, "https://app1/cb/", NOW);
    assert_eq!(bad_request_message(slash), "redirect_uri mismatch");
}

#[test]
fn expired_code_is_treated_like_an_absent_one() {
    let mut w = setup();
    let (code, _session) = login_and_get_code(&mut w);
    let after_expiry = NOW + 300 + 1;
    let r = exchange(&mut w, &code, VERIFIER, "https://app1/cb", after_expiry);
    assert_eq!(bad_request_message(r), "invalid or expired authorization code");
    let never_existed = exchange(&mut w, "no-such-code", VERIFIER, "https://app1/cb", NOW);
    assert_eq!(bad_request_message(never_existed), "invalid or expired authorization code");
}

#[test]
fn expired_refresh_token_is_rejected() {
    let mut w = setup();
    let (code, _session) = login_and_get_code(&mut w);
    let resp = exchange(&mut w, &code, VERIFIER, "https://app1/cb", NOW).expect("exchange");
    let after_expiry = NOW + 2_592_000 + 1;
    let r = refresh(&mut w, &resp.refresh_token, after_expiry);
    assert_eq!(bad_request_message(r), "invalid or expired refresh token");
}

#[test]
fn unknown_realm_client_and_grant_are_refused() {
    let mut w = setup();
    let form = TokenRequest {
        grant_type: "password".to_string(),
        code: None,
        redirect_uri: None,
        code_verifier: None,
        client_id: None,
        refresh_token: None,
    };
    match token(&mut w.store, &w.config, "nope", &form, NOW) {
        Err(AppError::NotFound(m)) => assert_eq!(m, "realm 'nope' not found"),
        _ => panic!("expected realm not found"),
    }
    match token(&mut w.store, &w.config, "acme", &form, NOW) {
        Err(AppError::BadRequest(m)) => assert_eq!(m, "unsupported grant_type"),
        _ => panic!("expected unsupported grant_type"),
    }
    let mut q = base_query();
    q.client_id = "ghost".to_string();
    match authorize_get(&mut w.store, &w.config, "acme", &q, None, NOW) {
        AuthorizeGetOutcome::Error(AppError::BadRequest(m)) => assert_eq!(m, "unknown client_id"),
        _ => panic!("expected unknown client"),
    }
    let mut q2 = base_query();
    q2.redirect_uri = "https://evil/cb".to_string();
    match authorize_get(&mut w.store, &w.config, "acme", &q2, None, NOW) {
        AuthorizeGetOutcome::Error(AppError::BadRequest(m)) => {
            assert_eq!(m, "redirect_uri not registered")
        },
        _ => panic!("expected unregistered redirect"),
    }
}

#[test]
fn malformed_authorize_parameters_name_the_violation() {
    let mut w = setup();
    let mut q = base_query();
    q.response_type = "token".to_string();
    match authorize_get(&mut w.store, &w.config, "acme", &q, None, NOW) {
        AuthorizeGetOutcome::InvalidRequest(m) => assert_eq!(m, "unsupported response_type"),
        _ => panic!("expected invalid request"),
    }
    let mut q2 = base_query();
    q2.code_challenge = Some(String::new());
    match authorize_get(&mut w.store, &w.config, "acme", &q2, None, NOW) {
        AuthorizeGetOutcome::InvalidRequest(m) => {
            assert_eq!(m, "code_challenge is required (PKCE)")
        },
        _ => panic!("expected invalid request"),
    }
    let mut q3 = base_query();
    q3.code_challenge_method = Some("plain".to_string());
    match authorize_get(&mut w.store, &w.config, "acme", &q3, None, NOW) {
        AuthorizeGetOutcome::InvalidRequest(m) => {
            assert_eq!(m, "only S256 code_challenge_method is supported")
        },
        _ => panic!("expected invalid request"),
    }
    let mut q4 = base_query();
    q4.code_challenge_method = None;
    match authorize_get(&mut w.store, &w.config, "acme", &q4, None, NOW) {
        AuthorizeGetOutcome::InvalidRequest(m) => {
            assert_eq!(m, "code_challenge_method is required (must be S256)")
        },
        _ => panic!("expected invalid request"),
    }
}

#[test]
fn missing_csrf_cookie_never_passes_the_gate() {
    let mut w = setup();
    // No Cookie header at all: even an empty submitted token is refused.
    let form = base_form("", "alice", "secret");
    match authorize_post(&mut w.store, &w.config, "acme", &form, None, NOW) {
        AuthorizePostOutcome::LoginError { view, .. } => {
            assert_eq!(view.error_message.as_deref(), Some("Invalid request. Please try again."));
        },
        _ => panic!("expected the form again"),
    }
    // A Cookie header without the realm's CSRF cookie fares no better.
    let cookie = "unrelated=1".to_string();
    match authorize_post(&mut w.store, &w.config, "acme", &form, Some(cookie.as_str()), NOW) {
        AuthorizePostOutcome::LoginError { view, .. } => {
            assert_eq!(view.error_message.as_deref(), Some("Invalid request. Please try again."));
        },
        _ => panic!("expected the form again"),
    }
}

#[test]
fn csrf_mismatch_and_bad_credentials_rerender_generically() {
    let mut w = setup();
    // Wrong CSRF echo.
    let form = base_form("not-the-cookie-token", "alice", "secret");
    let cookie = "anz_csrf_acme=something-else".to_string();
    match authorize_post(&mut w.store, &w.config, "acme", &form, Some(cookie.as_str()), NOW) {
        AuthorizePostOutcome::LoginError { view, .. } => {
            assert_eq!(view.error_message.as_deref(), Some("Invalid request. Please try again."));
        },
        _ => panic!("expected the form again"),
    }
    // Unknown username and wrong password produce the identical message.
    let csrf = "tok".to_string();
    let cookie = format!("anz_csrf_acme={csrf}");
    let unknown = base_form(&csrf, "nobody", "secret");
    let m1 = match authorize_post(&mut w.store, &w.config, "acme", &unknown, Some(cookie.as_str()), NOW)
    {
        AuthorizePostOutcome::LoginError { view, .. } => view.error_message.unwrap(),
        _ => panic!("expected the form again"),
    };
    let wrong = base_form(&csrf, "alice", "wrong");
    let m2 = match authorize_post(&mut w.store, &w.config, "acme", &wrong, Some(cookie.as_str()), NOW)
    {
        AuthorizePostOutcome::LoginError { view, .. } => view.error_message.unwrap(),
        _ => panic!("expected the form again"),
    };
    assert_eq!(m1, m2);
    assert_eq!(m1, "Invalid username or password");
}

#[test]
fn change_password_requires_valid_bearer_and_current_password() {
    let mut w = setup();
    let real_now = std::time::SystemTime::now()
        .duration_since(std::time::UNIX_EPOCH)
        .unwrap()
        .as_secs() as i64;
    let (code, _s) = login_and_get_code_at(&mut w, real_now);
    // Exchange at the real clock so the access token is currently valid.
    let resp = exchange(&mut w, &code, VERIFIER, "https://app1/cb", real_now).expect("exchange");
    let body = ChangePasswordRequest {
        current_password: "secret".to_string(),
        new_password: "tighter".to_string(),
    };
    let header = format!("Bearer {}", resp.access_token);
    change_password(&mut w.store, &w.config, "acme", Some(header.as_str()), &body, real_now)
        .expect("password change");
    // The new password now logs in; the old one no longer does.
    let user = w.store.get_user_by_username(&w.realm_id, "alice").expect("user");
    assert!(anz::crypto::password::verify_password("tighter", &user.password_hash));
    assert!(!anz::crypto::password::verify_password("secret", &user.password_hash));
    // Wrong current password is refused.
    let bad = ChangePasswordRequest {
        current_password: "secret".to_string(),
        new_password: "again".to_string(),
    };
    match change_password(&mut w.store, &w.config, "acme", Some(header.as_str()), &bad, real_now) {
        Err(AppError::BadRequest(m)) => assert_eq!(m, "current password is incorrect"),
        _ => panic!("expected a refusal"),
    }
    // Missing and malformed bearers are unauthorized.
    assert!(matches!(
        change_password(&mut w.store, &w.config, "acme", None, &body, real_now),
        Err(AppError::Unauthorized(_))
    ));
    assert!(matches!(
        change_password(&mut w.store, &w.config, "acme", Some("Basic xyz"), &body, real_now),
        Err(AppError::Unauthorized(_))
    ));
    assert!(matches!(
        change_password(&mut w.store, &w.config, "acme", Some("Bearer junk"), &body, real_now),
        Err(AppError::Unauthorized(_))
    ));
}

#[test]
fn discovery_and_jwks_project_the_realm() {
    let mut w = setup();
    let doc = anz::server::discovery::openid_configuration(&w.store, "http://localhost:8080", "acme")
        .expect("discovery");
    let v: serde_json::Value = serde_json::from_str(&doc).expect("parses");
    assert_eq!(v["issuer"], "http://localhost:8080/realms/acme");
    assert_eq!(v["token_endpoint"], "http://localhost:8080/realms/acme/token");
    assert_eq!(v["code_challenge_methods_supported"][0], "S256");
    let jwks = anz::server::jwks::jwks(&w.store, "acme").expect("jwks");
    let v: serde_json::Value = serde_json::from_str(&jwks).expect("parses");
    let keys = v["keys"].as_array().expect("array");
    assert_eq!(keys.len(), 1);
    assert_eq!(keys[0]["kty"], "OKP");
    assert!(anz::server::jwks::jwks(&w.store, "ghost").is_err());
    assert!(
        anz::server::discovery::openid_configuration(&mut w.store, "http://localhost:8080", "ghost")
            .is_err()
    );
}
