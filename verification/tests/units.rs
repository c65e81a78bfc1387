//! Unit tests for header parsing, the error mapping and configuration
//! defaults.

use anz::config::Config;
use anz::server::authorize::{
    clear_csrf_cookie_string, csrf_cookie_string, extract_cookie, session_cookie_string,
    trim_cookie_space,
};
use anz::server::error::AppError;
use anz::server::password::extract_bearer;

#[test]
fn extract_cookie_finds_the_named_pair() {
    let header = "a=1; anz_session_acme=tok-123 ;b=2";
    assert_eq!(extract_cookie(header, "anz_session_acme").as_deref(), Some("tok-123"));
    assert_eq!(extract_cookie(header, "a").as_deref(), Some("1"));
    assert_eq!(extract_cookie(header, "b").as_deref(), Some("2"));
    assert_eq!(extract_cookie(header, "c"), None);
    assert_eq!(extract_cookie("", "a"), None);
    // A name that is a prefix of another name does not match it.
    assert_eq!(extract_cookie("anz_session_acme2=x", "anz_session_acme"), None);
    // The first matching pair wins.
    assert_eq!(extract_cookie("d=first; d=second", "d").as_deref(), Some("first"));
    // An empty value is still a value.
    assert_eq!(extract_cookie("e=; f=1", "e").as_deref(), Some(""));
}

#[test]
fn trim_cookie_space_strips_spaces_and_tabs() {
    assert_eq!(trim_cookie_space("  a=1\t "), "a=1");
    assert_eq!(trim_cookie_space(""), "");
    assert_eq!(trim_cookie_space(" \t "), "");
    assert_eq!(trim_cookie_space("x"), "x");
}

#[test]
fn extract_bearer_requires_the_bearer_scheme() {
    assert_eq!(extract_bearer(Some("Bearer abc.def")).ok().as_deref(), Some("abc.def"));
    assert!(matches!(
        extract_bearer(Some("Basic abc")),
        Err(AppError::Unauthorized(m)) if m == "expected Bearer token"
    ));
    assert!(matches!(
        extract_bearer(None),
        Err(AppError::Unauthorized(m)) if m == "missing Authorization header"
    ));
}

#[test]
fn error_mapping_matches_the_protocol() {
    assert_eq!(AppError::NotFound("x".to_string()).status_code(), 404);
    assert_eq!(AppError::BadRequest("x".to_string()).status_code(), 400);
    assert_eq!(AppError::Unauthorized("x".to_string()).status_code(), 401);
    assert_eq!(AppError::Internal("secret detail".to_string()).status_code(), 500);
    // Internal detail never reaches the caller.
    let internal = AppError::Internal("secret detail".to_string());
    assert_eq!(internal.response_message(), "internal server error");
    assert_eq!(internal.body_json(), "{\"error\":\"internal server error\"}");
    let bad = AppError::BadRequest("no \"quotes\"".to_string());
    assert_eq!(bad.body_json(), "{\"error\":\"no \\\"quotes\\\"\"}");
}

#[test]
fn config_defaults_match_the_documented_values() {
    let c = Config::default();
    assert_eq!(c.bind_address, "127.0.0.1:8080");
    assert_eq!(c.issuer_base_url, "http://localhost:8080");
    assert_eq!(c.database_path, "anz.db");
    assert_eq!(c.access_token_lifetime_secs, 3600);
    assert_eq!(c.id_token_lifetime_secs, 3600);
    assert_eq!(c.refresh_token_lifetime_secs, 2_592_000);
    assert_eq!(c.auth_code_lifetime_secs, 300);
    assert_eq!(c.session_lifetime_secs, 86_400);
}

#[test]
fn cookie_strings_are_http_only_and_path_scoped() {
    assert_eq!(
        csrf_cookie_string("acme", "T"),
        "anz_csrf_acme=T; HttpOnly; SameSite=Lax; Path=/realms/acme"
    );
    assert_eq!(
        session_cookie_string("acme", "S", 86400),
        "anz_session_acme=S; HttpOnly; SameSite=Lax; Path=/realms/acme; Max-Age=86400"
    );
    assert_eq!(
        clear_csrf_cookie_string("acme"),
        "anz_csrf_acme=; HttpOnly; SameSite=Lax; Path=/realms/acme; Max-Age=0"
    );
}
