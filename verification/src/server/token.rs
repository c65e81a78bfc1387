//! The token exchange engine: authorization-code redemption (PKCE-bound,
//! single-use) and refresh-token rotation (single-use, reissued on every
//! call), both producing signed ID and access tokens. Every lookup failure
//! collapses to one generic message, so a caller cannot distinguish a code
//! that never existed from one already used or expired.

use vstd::prelude::*;

#[allow(unused_imports)]
use vstd::string::StringExecFns;

use crate::config::Config;
use crate::crypto::token::{
    access_payload_json, access_token_payload, build_access_token_claims, build_id_token_claims,
    encode_jwt, id_payload_json, id_token_payload, jwt_of,
};
use crate::crypto::pkce::{s256_challenge_of, verify_s256};
use crate::encoding::{secret_hash, secret_hash_of};
use crate::hex::hex_of;
use crate::rng::generate_random_token;
use crate::server::error::AppError;
use crate::server::{build_issuer, issuer_of, realm_not_found_msg, realm_not_found_of};
use crate::store::{
    code_live, has_live_code, has_live_token, has_realm_name, lemma_live_code_unique,
    lemma_live_token_unique, lemma_realm_named_unique, live_code_of, live_token_of, realm_named,
    token_live, with_code_used, with_token_revoked, Store,
};
use crate::strutil::str_eq;

verus! {

/// Form fields of POST token.
pub struct TokenRequest {
    pub grant_type: String,
    pub code: Option<String>,
    pub redirect_uri: Option<String>,
    pub code_verifier: Option<String>,
    pub client_id: Option<String>,
    pub refresh_token: Option<String>,
}

/// The successful token response: the raw refresh token appears here once
/// and is persisted only as a hash.
pub struct TokenResponse {
    pub access_token: String,
    pub token_type: String,
    pub expires_in: u64,
    pub id_token: String,
    pub refresh_token: String,
}

/// Hex encoding of a byte string (the stored form of secret digests).
pub fn hex_encode(bytes: &[u8]) -> (r: String)
    ensures
        r@ == hex_of(bytes@),
{
    crate::hex::encode(bytes)
}

/// Did the response fail as a bad request with exactly this message?
pub open spec fn is_bad_request<T>(r: Result<T, AppError>, msg: Seq<char>) -> bool {
    r matches Err(e) && (e matches AppError::BadRequest(m) && m@ == msg)
}

/// Did the response fail as not-found with exactly this message?
pub open spec fn is_not_found<T>(r: Result<T, AppError>, msg: Seq<char>) -> bool {
    r matches Err(e) && (e matches AppError::NotFound(m) && m@ == msg)
}

/// Did the response fail as an internal fault?
pub open spec fn is_internal<T>(r: Result<T, AppError>) -> bool {
    r matches Err(e) && e is Internal
}

/// All three required fields of the authorization_code grant are present.
pub open spec fn code_grant_inputs_ok(form: TokenRequest) -> bool {
    form.code is Some && form.redirect_uri is Some && form.code_verifier is Some
}

/// What redeeming an authorization code guarantees, as a relation between
/// the store before the call, the request, the response, and the store
/// after it.
pub open spec fn code_grant_post(
    pre: Store,
    config: Config,
    realm: Seq<char>,
    realm_id: Seq<char>,
    form: TokenRequest,
    now: i64,
    r: Result<TokenResponse, AppError>,
    post: Store,
) -> bool {
    let h = secret_hash_of(form.code->Some_0@);
    let c = live_code_of(pre.auth_codes@, h, now);
    let iss = issuer_of(config.issuer_base_url@, realm);
    &&& post.wf()
    &&& form.code is None ==> is_bad_request(r, "code is required"@) && post == pre
    &&& form.code is Some && form.redirect_uri is None ==> is_bad_request(
        r,
        "redirect_uri is required"@,
    ) && post == pre
    &&& form.code is Some && form.redirect_uri is Some && form.code_verifier is None
        ==> is_bad_request(r, "code_verifier is required (PKCE)"@) && post == pre
    &&& code_grant_inputs_ok(form) && !has_live_code(pre.auth_codes@, h, now) ==> is_bad_request(
        r,
        "invalid or expired authorization code"@,
    ) && post == pre
    &&& code_grant_inputs_ok(form) && has_live_code(pre.auth_codes@, h, now) ==> {
        &&& exists|i: int|
            0 <= i < pre.auth_codes@.len() && code_live(#[trigger] pre.auth_codes@[i], h, now)
                && post.auth_codes@ == pre.auth_codes@.update(
                i,
                with_code_used(pre.auth_codes@[i]),
            )
        &&& forall|t: i64| !has_live_code(post.auth_codes@, h, t)
        &&& c.redirect_uri@ != form.redirect_uri->Some_0@ ==> is_bad_request(
            r,
            "redirect_uri mismatch"@,
        )
        &&& c.redirect_uri@ == form.redirect_uri->Some_0@ && s256_challenge_of(
            form.code_verifier->Some_0@,
        ) != c.code_challenge@ ==> is_bad_request(r, "PKCE verification failed"@)
        &&& c.redirect_uri@ == form.redirect_uri->Some_0@ && s256_challenge_of(
            form.code_verifier->Some_0@,
        ) == c.code_challenge@ ==> (r is Ok || is_internal(r))
    }
    &&& r matches Ok(resp) ==> {
        &&& code_grant_inputs_ok(form)
        &&& has_live_code(pre.auth_codes@, h, now)
        &&& c.redirect_uri@ == form.redirect_uri->Some_0@
        &&& s256_challenge_of(form.code_verifier->Some_0@) == c.code_challenge@
        &&& resp.token_type@ == "Bearer"@
        &&& resp.expires_in == config.access_token_lifetime_secs
        &&& exists|ki: int, ui: int|
            {
                let k = #[trigger] pre.signing_keys@[ki];
                let u = #[trigger] pre.users@[ui];
                &&& 0 <= ki < pre.signing_keys@.len()
                &&& k.active
                &&& k.realm_id@ == realm_id
                &&& 0 <= ui < pre.users@.len()
                &&& u.id@ == c.user_id@
                &&& resp.access_token@ == jwt_of(
                    k.kid@,
                    access_payload_json(
                        iss,
                        u.id@,
                        iss,
                        now + config.access_token_lifetime_secs,
                        now as int,
                        c.scopes@,
                        c.client_id@,
                    ),
                    k.private_key_pem@,
                )
                &&& resp.id_token@ == jwt_of(
                    k.kid@,
                    id_payload_json(
                        iss,
                        u.id@,
                        c.client_id@,
                        now + config.id_token_lifetime_secs,
                        now as int,
                        None,
                        u.username@,
                        u.email@,
                    ),
                    k.private_key_pem@,
                )
            }
        &&& resp.refresh_token@.len() == 43
        &&& post.refresh_tokens@.len() == pre.refresh_tokens@.len() + 1
        &&& post.refresh_tokens@ == pre.refresh_tokens@.push(post.refresh_tokens@.last())
        &&& {
            let t = post.refresh_tokens@.last();
            &&& t.token_hash@ == secret_hash_of(resp.refresh_token@)
            &&& t.realm_id@ == realm_id
            &&& t.client_id@ == c.client_id@
            &&& t.user_id@ == c.user_id@
            &&& t.scopes@ == c.scopes@
            &&& t.expires_at == now + config.refresh_token_lifetime_secs
            &&& !t.revoked
        }
    }
    &&& !(r is Ok) ==> post.refresh_tokens == pre.refresh_tokens
    &&& post.realms == pre.realms
    &&& post.signing_keys == pre.signing_keys
    &&& post.users == pre.users
    &&& post.clients == pre.clients
    &&& post.sessions == pre.sessions
}

/// Redeem an authorization code: hash the presented code, consume the live
/// row atomically (a second presentation of the same code fails), enforce
/// byte-exact redirect_uri equality and the PKCE S256 binding, then sign
/// fresh ID and access tokens and issue a fresh refresh token.
pub fn handle_authorization_code(
    store: &mut Store,
    config: &Config,
    realm: &str,
    realm_id: &str,
    form: &TokenRequest,
    now: i64,
) -> (r: Result<TokenResponse, AppError>)
    requires
        old(store).wf(),
        0 <= now,
        config.lifetimes_fit(now),
    ensures
        code_grant_post(*old(store), *config, realm@, realm_id@, *form, now, r, *final(store)),
{
    let raw_code = match &form.code {
        Some(c) => c.as_str(),
        None => {
            return Err(AppError::BadRequest(String::from_str("code is required")));
        },
    };
    let redirect_uri = match &form.redirect_uri {
        Some(u) => u.as_str(),
        None => {
            return Err(AppError::BadRequest(String::from_str("redirect_uri is required")));
        },
    };
    let code_verifier = match &form.code_verifier {
        Some(v) => v.as_str(),
        None => {
            return Err(
                AppError::BadRequest(String::from_str("code_verifier is required (PKCE)")),
            );
        },
    };
    let code_hash = secret_hash(raw_code);
    let auth_code = match store.consume_auth_code(code_hash.as_str(), now) {
        Some(c) => c,
        None => {
            return Err(
                AppError::BadRequest(String::from_str("invalid or expired authorization code")),
            );
        },
    };
    proof {
        let i = choose|i: int|
            0 <= i < old(store).auth_codes@.len() && code_live(
                old(store).auth_codes@[i],
                code_hash@,
                now,
            ) && auth_code == old(store).auth_codes@[i] && store.auth_codes@ == old(
                store,
            ).auth_codes@.update(i, with_code_used(old(store).auth_codes@[i]));
        lemma_live_code_unique(old(store).auth_codes@, code_hash@, now, i);
    }
    if !str_eq(auth_code.redirect_uri.as_str(), redirect_uri) {
        return Err(AppError::BadRequest(String::from_str("redirect_uri mismatch")));
    }
    if !verify_s256(code_verifier, auth_code.code_challenge.as_str()) {
        return Err(AppError::BadRequest(String::from_str("PKCE verification failed")));
    }
    let user = match store.get_user_by_id(auth_code.user_id.as_str()) {
        Some(u) => u.dup(),
        None => {
            return Err(AppError::Internal(String::from_str("user not found")));
        },
    };
    let signing_key = match store.get_active_signing_key(realm_id) {
        Some(k) => k.dup(),
        None => {
            return Err(AppError::Internal(String::from_str("no signing key found")));
        },
    };
    let issuer = build_issuer(config.issuer_base_url.as_str(), realm);
    let id_claims = build_id_token_claims(
        issuer.as_str(),
        user.id.as_str(),
        auth_code.client_id.as_str(),
        config.id_token_lifetime_secs,
        user.username.as_str(),
        user.email.as_str(),
        None,
        now,
    );
    let id_payload = id_token_payload(&id_claims);
    let id_token = match encode_jwt(
        id_payload.as_str(),
        signing_key.kid.as_str(),
        signing_key.private_key_pem.as_str(),
    ) {
        Ok(t) => t,
        Err(_) => {
            return Err(AppError::Internal(String::from_str("token signing failed")));
        },
    };
    let access_claims = build_access_token_claims(
        issuer.as_str(),
        user.id.as_str(),
        issuer.as_str(),
        config.access_token_lifetime_secs,
        auth_code.scopes.as_str(),
        auth_code.client_id.as_str(),
        now,
    );
    let access_payload = access_token_payload(&access_claims);
    let access_token = match encode_jwt(
        access_payload.as_str(),
        signing_key.kid.as_str(),
        signing_key.private_key_pem.as_str(),
    ) {
        Ok(t) => t,
        Err(_) => {
            return Err(AppError::Internal(String::from_str("token signing failed")));
        },
    };
    let raw_refresh = generate_random_token();
    let refresh_hash = secret_hash(raw_refresh.as_str());
    let refresh_expires = now + (config.refresh_token_lifetime_secs as i64);
    let inserted = store.insert_refresh_token(
        realm_id,
        auth_code.client_id.as_str(),
        user.id.as_str(),
        refresh_hash.as_str(),
        auth_code.scopes.as_str(),
        refresh_expires,
    );
    match inserted {
        Ok(_) => {},
        Err(_) => {
            return Err(AppError::Internal(String::from_str("refresh token not stored")));
        },
    }
    Ok(
        TokenResponse {
            access_token,
            token_type: String::from_str("Bearer"),
            expires_in: config.access_token_lifetime_secs,
            id_token,
            refresh_token: raw_refresh,
        },
    )
}

/// What rotating a refresh token guarantees: the presented token is
/// revoked for good, and the response carries a fresh refresh token whose
/// raw string necessarily differs from the presented one.
pub open spec fn refresh_grant_post(
    pre: Store,
    config: Config,
    realm: Seq<char>,
    realm_id: Seq<char>,
    form: TokenRequest,
    now: i64,
    r: Result<TokenResponse, AppError>,
    post: Store,
) -> bool {
    let h = secret_hash_of(form.refresh_token->Some_0@);
    let tok = live_token_of(pre.refresh_tokens@, h, now);
    let iss = issuer_of(config.issuer_base_url@, realm);
    &&& post.wf()
    &&& form.refresh_token is None ==> is_bad_request(r, "refresh_token is required"@) && post
        == pre
    &&& form.refresh_token is Some && !has_live_token(pre.refresh_tokens@, h, now)
        ==> is_bad_request(r, "invalid or expired refresh token"@) && post == pre
    &&& form.refresh_token is Some && has_live_token(pre.refresh_tokens@, h, now) ==> {
        &&& exists|i: int|
            {
                &&& 0 <= i < pre.refresh_tokens@.len()
                &&& token_live(#[trigger] pre.refresh_tokens@[i], h, now)
                &&& r is Ok ==> post.refresh_tokens@ == pre.refresh_tokens@.update(
                    i,
                    with_token_revoked(pre.refresh_tokens@[i]),
                ).push(post.refresh_tokens@.last())
                &&& !(r is Ok) ==> post.refresh_tokens@ == pre.refresh_tokens@.update(
                    i,
                    with_token_revoked(pre.refresh_tokens@[i]),
                )
            }
        &&& forall|t: i64| !has_live_token(post.refresh_tokens@, h, t)
        &&& r is Ok || is_internal(r)
    }
    &&& r matches Ok(resp) ==> {
        &&& form.refresh_token is Some
        &&& has_live_token(pre.refresh_tokens@, h, now)
        &&& resp.token_type@ == "Bearer"@
        &&& resp.expires_in == config.access_token_lifetime_secs
        &&& resp.refresh_token@ != form.refresh_token->Some_0@
        &&& resp.refresh_token@.len() == 43
        &&& exists|ki: int, ui: int|
            {
                let k = #[trigger] pre.signing_keys@[ki];
                let u = #[trigger] pre.users@[ui];
                &&& 0 <= ki < pre.signing_keys@.len()
                &&& k.active
                &&& k.realm_id@ == realm_id
                &&& 0 <= ui < pre.users@.len()
                &&& u.id@ == tok.user_id@
                &&& resp.access_token@ == jwt_of(
                    k.kid@,
                    access_payload_json(
                        iss,
                        u.id@,
                        iss,
                        now + config.access_token_lifetime_secs,
                        now as int,
                        tok.scopes@,
                        tok.client_id@,
                    ),
                    k.private_key_pem@,
                )
                &&& resp.id_token@ == jwt_of(
                    k.kid@,
                    id_payload_json(
                        iss,
                        u.id@,
                        tok.client_id@,
                        now + config.id_token_lifetime_secs,
                        now as int,
                        None,
                        u.username@,
                        u.email@,
                    ),
                    k.private_key_pem@,
                )
            }
        &&& post.refresh_tokens@.len() == pre.refresh_tokens@.len() + 1
        &&& {
            let t = post.refresh_tokens@.last();
            &&& t.token_hash@ == secret_hash_of(resp.refresh_token@)
            &&& t.realm_id@ == realm_id
            &&& t.client_id@ == tok.client_id@
            &&& t.user_id@ == tok.user_id@
            &&& t.scopes@ == tok.scopes@
            &&& t.expires_at == now + config.refresh_token_lifetime_secs
            &&& !t.revoked
        }
    }
    &&& post.realms == pre.realms
    &&& post.signing_keys == pre.signing_keys
    &&& post.users == pre.users
    &&& post.clients == pre.clients
    &&& post.sessions == pre.sessions
    &&& post.auth_codes == pre.auth_codes
}

/// Rotate a refresh token: hash the presented token, revoke the live row
/// atomically, and issue fresh access, ID and refresh tokens for the same
/// client, user and scope. The presented token never succeeds a second
/// time, and the returned refresh token is a different string.
pub fn handle_refresh_token(
    store: &mut Store,
    config: &Config,
    realm: &str,
    realm_id: &str,
    form: &TokenRequest,
    now: i64,
) -> (r: Result<TokenResponse, AppError>)
    requires
        old(store).wf(),
        0 <= now,
        config.lifetimes_fit(now),
    ensures
        refresh_grant_post(*old(store), *config, realm@, realm_id@, *form, now, r, *final(store)),
{
    let raw_token = match &form.refresh_token {
        Some(t) => t.as_str(),
        None => {
            return Err(AppError::BadRequest(String::from_str("refresh_token is required")));
        },
    };
    let token_hash = secret_hash(raw_token);
    let old_token = match store.consume_refresh_token(token_hash.as_str(), now) {
        Some(t) => t,
        None => {
            return Err(
                AppError::BadRequest(String::from_str("invalid or expired refresh token")),
            );
        },
    };
    proof {
        let i = choose|i: int|
            0 <= i < old(store).refresh_tokens@.len() && token_live(
                old(store).refresh_tokens@[i],
                token_hash@,
                now,
            ) && old_token == old(store).refresh_tokens@[i] && store.refresh_tokens@ == old(
                store,
            ).refresh_tokens@.update(i, with_token_revoked(old(store).refresh_tokens@[i]));
        lemma_live_token_unique(old(store).refresh_tokens@, token_hash@, now, i);
    }
    let user = match store.get_user_by_id(old_token.user_id.as_str()) {
        Some(u) => u.dup(),
        None => {
            return Err(AppError::Internal(String::from_str("user not found")));
        },
    };
    let signing_key = match store.get_active_signing_key(realm_id) {
        Some(k) => k.dup(),
        None => {
            return Err(AppError::Internal(String::from_str("no signing key found")));
        },
    };
    let issuer = build_issuer(config.issuer_base_url.as_str(), realm);
    let access_claims = build_access_token_claims(
        issuer.as_str(),
        user.id.as_str(),
        issuer.as_str(),
        config.access_token_lifetime_secs,
        old_token.scopes.as_str(),
        old_token.client_id.as_str(),
        now,
    );
    let access_payload = access_token_payload(&access_claims);
    let access_token = match encode_jwt(
        access_payload.as_str(),
        signing_key.kid.as_str(),
        signing_key.private_key_pem.as_str(),
    ) {
        Ok(t) => t,
        Err(_) => {
            return Err(AppError::Internal(String::from_str("token signing failed")));
        },
    };
    let id_claims = build_id_token_claims(
        issuer.as_str(),
        user.id.as_str(),
        old_token.client_id.as_str(),
        config.id_token_lifetime_secs,
        user.username.as_str(),
        user.email.as_str(),
        None,
        now,
    );
    let id_payload = id_token_payload(&id_claims);
    let id_token = match encode_jwt(
        id_payload.as_str(),
        signing_key.kid.as_str(),
        signing_key.private_key_pem.as_str(),
    ) {
        Ok(t) => t,
        Err(_) => {
            return Err(AppError::Internal(String::from_str("token signing failed")));
        },
    };
    let new_raw_refresh = generate_random_token();
    let new_refresh_hash = secret_hash(new_raw_refresh.as_str());
    let refresh_expires = now + (config.refresh_token_lifetime_secs as i64);
    let inserted = store.insert_refresh_token(
        realm_id,
        old_token.client_id.as_str(),
        user.id.as_str(),
        new_refresh_hash.as_str(),
        old_token.scopes.as_str(),
        refresh_expires,
    );
    match inserted {
        Ok(_) => {},
        Err(_) => {
            return Err(AppError::Internal(String::from_str("refresh token not stored")));
        },
    }
    proof {
        if new_raw_refresh@ == form.refresh_token->Some_0@ {
            assert(secret_hash_of(new_raw_refresh@) == token_hash@);
            assert(false);
        }
    }
    Ok(
        TokenResponse {
            access_token,
            token_type: String::from_str("Bearer"),
            expires_in: config.access_token_lifetime_secs,
            id_token,
            refresh_token: new_raw_refresh,
        },
    )
}

/// Exchange a code or a refresh token, dispatched on `grant_type` (a
/// closed enumeration: any other value is an unsupported grant).
pub fn token(store: &mut Store, config: &Config, realm: &str, form: &TokenRequest, now: i64) -> (r:
    Result<TokenResponse, AppError>)
    requires
        old(store).wf(),
        0 <= now,
        config.lifetimes_fit(now),
    ensures
        final(store).wf(),
        !has_realm_name(old(store).realms@, realm@) ==> is_not_found(
            r,
            realm_not_found_of(realm@),
        ) && *final(store) == *old(store),
        has_realm_name(old(store).realms@, realm@) && form.grant_type@ == "authorization_code"@
            ==> code_grant_post(
            *old(store),
            *config,
            realm@,
            realm_named(old(store).realms@, realm@).id@,
            *form,
            now,
            r,
            *final(store),
        ),
        has_realm_name(old(store).realms@, realm@) && form.grant_type@ == "refresh_token"@
            ==> refresh_grant_post(
            *old(store),
            *config,
            realm@,
            realm_named(old(store).realms@, realm@).id@,
            *form,
            now,
            r,
            *final(store),
        ),
        has_realm_name(old(store).realms@, realm@) && form.grant_type@ != "authorization_code"@
            && form.grant_type@ != "refresh_token"@ ==> is_bad_request(
            r,
            "unsupported grant_type"@,
        ) && *final(store) == *old(store),
{
    let realm_id = match store.get_realm_by_name(realm) {
        Some(rec) => {
            proof {
                let i = choose|i: int|
                    0 <= i < store.realms@.len() && *rec == store.realms@[i]
                        && store.realms@[i].name@ == realm@;
                lemma_realm_named_unique(store.realms@, realm@, i);
            }
            rec.id.clone()
        },
        None => {
            return Err(AppError::NotFound(realm_not_found_msg(realm)));
        },
    };
    proof {
        reveal_strlit("authorization_code");
        reveal_strlit("refresh_token");
        assert("authorization_code"@.len() != "refresh_token"@.len());
    }
    if str_eq(form.grant_type.as_str(), "authorization_code") {
        handle_authorization_code(store, config, realm, realm_id.as_str(), form, now)
    } else if str_eq(form.grant_type.as_str(), "refresh_token") {
        handle_refresh_token(store, config, realm, realm_id.as_str(), form, now)
    } else {
        Err(AppError::BadRequest(String::from_str("unsupported grant_type")))
    }
}

} // verus!
