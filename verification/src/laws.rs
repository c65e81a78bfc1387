//! The security guarantees of the protocol engine, stated on their own and
//! proved from the engines' contracts: single-use codes, refresh rotation,
//! PKCE binding, redirect exactness, and expiry treated as absence.

use vstd::prelude::*;

use crate::config::Config;
use crate::crypto::pkce::s256_challenge_of;
use crate::encoding::secret_hash_of;
use crate::models::{AuthorizationCode, RefreshToken, Session};
use crate::server::error::AppError;
use crate::server::token::{
    code_grant_inputs_ok, code_grant_post, is_bad_request, refresh_grant_post, TokenRequest,
    TokenResponse,
};
use crate::store::{
    code_live, has_live_code, has_live_token, has_live_session, live_code_of, Store,
};

verus! {

/// Single-use codes: once a `token` request redeems an authorization code
/// successfully, any later request presenting the same raw code fails with
/// the generic invalid-code error and changes nothing.
pub proof fn lemma_code_single_use(
    pre: Store,
    config: Config,
    realm: Seq<char>,
    realm_id: Seq<char>,
    form: TokenRequest,
    now: i64,
    r: Result<TokenResponse, AppError>,
    mid: Store,
    config2: Config,
    realm2: Seq<char>,
    realm_id2: Seq<char>,
    form2: TokenRequest,
    now2: i64,
    r2: Result<TokenResponse, AppError>,
    post: Store,
)
    requires
        code_grant_post(pre, config, realm, realm_id, form, now, r, mid),
        r is Ok,
        code_grant_post(mid, config2, realm2, realm_id2, form2, now2, r2, post),
        code_grant_inputs_ok(form2),
        form2.code->Some_0@ == form.code->Some_0@,
    ensures
        is_bad_request(r2, "invalid or expired authorization code"@),
        post == mid,
{
    let h = secret_hash_of(form.code->Some_0@);
    assert(!has_live_code(mid.auth_codes@, h, now2));
}

/// Refresh rotation: a successful redemption returns a refresh token whose
/// raw string differs from the one presented, and the presented token has
/// no live row left at any instant.
pub proof fn lemma_refresh_rotation(
    pre: Store,
    config: Config,
    realm: Seq<char>,
    realm_id: Seq<char>,
    form: TokenRequest,
    now: i64,
    r: Result<TokenResponse, AppError>,
    post: Store,
)
    requires
        refresh_grant_post(pre, config, realm, realm_id, form, now, r, post),
        r is Ok,
    ensures
        r->Ok_0.refresh_token@ != form.refresh_token->Some_0@,
        forall|t: i64|
            !has_live_token(
                post.refresh_tokens@,
                secret_hash_of(form.refresh_token->Some_0@),
                t,
            ),
{
}

/// Refresh tokens never succeed twice: after one successful rotation, a
/// later request presenting the same raw token fails with the generic
/// invalid-token error and changes nothing.
pub proof fn lemma_refresh_single_use(
    pre: Store,
    config: Config,
    realm: Seq<char>,
    realm_id: Seq<char>,
    form: TokenRequest,
    now: i64,
    r: Result<TokenResponse, AppError>,
    mid: Store,
    config2: Config,
    realm2: Seq<char>,
    realm_id2: Seq<char>,
    form2: TokenRequest,
    now2: i64,
    r2: Result<TokenResponse, AppError>,
    post: Store,
)
    requires
        refresh_grant_post(pre, config, realm, realm_id, form, now, r, mid),
        r is Ok,
        refresh_grant_post(mid, config2, realm2, realm_id2, form2, now2, r2, post),
        form2.refresh_token is Some,
        form2.refresh_token->Some_0@ == form.refresh_token->Some_0@,
    ensures
        is_bad_request(r2, "invalid or expired refresh token"@),
        post == mid,
{
    let h = secret_hash_of(form.refresh_token->Some_0@);
    assert(!has_live_token(mid.refresh_tokens@, h, now2));
}

/// PKCE binding: with the redirect URI matching, an exchange succeeds only
/// when the S256 challenge of the presented verifier equals the stored
/// challenge, and a mismatch fails deterministically with the PKCE error.
pub proof fn lemma_pkce_binding(
    pre: Store,
    config: Config,
    realm: Seq<char>,
    realm_id: Seq<char>,
    form: TokenRequest,
    now: i64,
    r: Result<TokenResponse, AppError>,
    post: Store,
)
    requires
        code_grant_post(pre, config, realm, realm_id, form, now, r, post),
        code_grant_inputs_ok(form),
        has_live_code(pre.auth_codes@, secret_hash_of(form.code->Some_0@), now),
        live_code_of(
            pre.auth_codes@,
            secret_hash_of(form.code->Some_0@),
            now,
        ).redirect_uri@ == form.redirect_uri->Some_0@,
    ensures
        r is Ok ==> s256_challenge_of(form.code_verifier->Some_0@) == live_code_of(
            pre.auth_codes@,
            secret_hash_of(form.code->Some_0@),
            now,
        ).code_challenge@,
        s256_challenge_of(form.code_verifier->Some_0@) != live_code_of(
            pre.auth_codes@,
            secret_hash_of(form.code->Some_0@),
            now,
        ).code_challenge@ ==> is_bad_request(r, "PKCE verification failed"@),
{
}

/// Redirect exactness: the redirect_uri presented at token time must be
/// byte-identical to the one recorded when the code was issued; any
/// deviation fails with the mismatch error.
pub proof fn lemma_redirect_exactness(
    pre: Store,
    config: Config,
    realm: Seq<char>,
    realm_id: Seq<char>,
    form: TokenRequest,
    now: i64,
    r: Result<TokenResponse, AppError>,
    post: Store,
)
    requires
        code_grant_post(pre, config, realm, realm_id, form, now, r, post),
        code_grant_inputs_ok(form),
        has_live_code(pre.auth_codes@, secret_hash_of(form.code->Some_0@), now),
    ensures
        r is Ok ==> live_code_of(
            pre.auth_codes@,
            secret_hash_of(form.code->Some_0@),
            now,
        ).redirect_uri@ == form.redirect_uri->Some_0@,
        live_code_of(
            pre.auth_codes@,
            secret_hash_of(form.code->Some_0@),
            now,
        ).redirect_uri@ != form.redirect_uri->Some_0@ ==> is_bad_request(
            r,
            "redirect_uri mismatch"@,
        ),
{
}

/// Expiry enforcement: when every code row holding a hash has passed its
/// expiry, the hash has no live code — exactly as if it were absent — even
/// if no row is marked used.
pub proof fn lemma_expired_code_like_absent(codes: Seq<AuthorizationCode>, h: Seq<char>, now: i64)
    requires
        forall|i: int|
            0 <= i < codes.len() && (#[trigger] codes[i]).code_hash@ == h ==> codes[i].expires_at
                <= now,
    ensures
        !has_live_code(codes, h, now),
{
    if has_live_code(codes, h, now) {
        let i = choose|i: int| 0 <= i < codes.len() && code_live(codes[i], h, now);
        assert(codes[i].expires_at <= now);
        assert(false);
    }
}

/// Expiry enforcement for refresh tokens: an expired row is as good as
/// absent, even if not revoked.
pub proof fn lemma_expired_token_like_absent(tokens: Seq<RefreshToken>, h: Seq<char>, now: i64)
    requires
        forall|i: int|
            0 <= i < tokens.len() && (#[trigger] tokens[i]).token_hash@ == h ==> tokens[i].expires_at
                <= now,
    ensures
        !has_live_token(tokens, h, now),
{
    if has_live_token(tokens, h, now) {
        let i = choose|i: int|
            0 <= i < tokens.len() && crate::store::token_live(tokens[i], h, now);
        assert(tokens[i].expires_at <= now);
        assert(false);
    }
}

/// Expiry enforcement for sessions: an expired session never
/// short-circuits re-authentication, exactly like an absent one.
pub proof fn lemma_expired_session_like_absent(
    sessions: Seq<Session>,
    realm_id: Seq<char>,
    h: Seq<char>,
    now: i64,
)
    requires
        forall|i: int|
            0 <= i < sessions.len() && (#[trigger] sessions[i]).session_token_hash@ == h
                ==> sessions[i].expires_at <= now,
    ensures
        !has_live_session(sessions, realm_id, h, now),
{
    if has_live_session(sessions, realm_id, h, now) {
        let i = choose|i: int|
            0 <= i < sessions.len() && crate::store::session_live(sessions[i], realm_id, h, now);
        assert(sessions[i].expires_at <= now);
        assert(false);
    }
}

/// Expiry enforcement at the protocol surface: a request presenting a code
/// whose rows are all expired fails exactly as one presenting a code that
/// never existed.
pub proof fn lemma_expired_code_rejected(
    pre: Store,
    config: Config,
    realm: Seq<char>,
    realm_id: Seq<char>,
    form: TokenRequest,
    now: i64,
    r: Result<TokenResponse, AppError>,
    post: Store,
)
    requires
        code_grant_post(pre, config, realm, realm_id, form, now, r, post),
        code_grant_inputs_ok(form),
        forall|i: int|
            0 <= i < pre.auth_codes@.len() && (#[trigger] pre.auth_codes@[i]).code_hash@
                == secret_hash_of(form.code->Some_0@) ==> pre.auth_codes@[i].expires_at <= now,
    ensures
        is_bad_request(r, "invalid or expired authorization code"@),
        post == pre,
{
    lemma_expired_code_like_absent(pre.auth_codes@, secret_hash_of(form.code->Some_0@), now);
}

} // verus!
