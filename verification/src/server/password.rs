//! Bearer-authenticated password change: the access token is validated
//! against the realm's active signing key, the current password is
//! verified, and the stored hash is replaced.

use vstd::prelude::*;

#[allow(unused_imports)]
use vstd::string::StringExecFns;

use crate::config::Config;
use crate::crypto::password::{hash_password, password_matches, verify_password};
use crate::crypto::token::{decode_access_token, jwt_claims_of};
use crate::server::error::{app_bad_request, app_unauthorized, AppError};
use crate::server::{build_issuer, realm_not_found_msg, realm_not_found_of};
use crate::store::{
    first_user_with_id, has_active_key, has_realm_name, lemma_first_user_unique,
    lemma_realm_named_unique, realm_named, Store,
};
use crate::strutil::{char_range, starts_with};

verus! {

/// Body of POST password.
pub struct ChangePasswordRequest {
    pub current_password: String,
    pub new_password: String,
}

/// The bearer token of an Authorization header, when the header is
/// present and carries the `Bearer ` scheme.
pub open spec fn bearer_of(auth_header: Option<Seq<char>>) -> Option<Seq<char>> {
    match auth_header {
        Some(h) => if h.len() >= "Bearer "@.len() && h.take("Bearer "@.len() as int)
            == "Bearer "@ {
            Some(h.skip("Bearer "@.len() as int))
        } else {
            None
        },
        None => None,
    }
}

/// Extract the bearer token from an Authorization header value.
pub fn extract_bearer(auth_header: Option<&str>) -> (r: Result<String, AppError>)
    ensures
        auth_header is None ==> (r matches Err(e) && app_unauthorized(
            e,
            "missing Authorization header"@,
        )),
        auth_header matches Some(h) ==> (bearer_of(Some(h@)) is None ==> (r matches Err(e)
            && app_unauthorized(e, "expected Bearer token"@))),
        auth_header matches Some(h) ==> (bearer_of(Some(h@)) matches Some(tok) ==> (r matches Ok(
        t,
        ) && t@ == tok)),
{
    let auth = match auth_header {
        Some(h) => h,
        None => {
            return Err(AppError::Unauthorized(String::from_str("missing Authorization header")));
        },
    };
    let prefix = "Bearer ";
    if starts_with(auth, prefix) {
        let plen = prefix.unicode_len();
        let alen = auth.unicode_len();
        let token = char_range(auth, plen, alen);
        proof {
            assert(auth@.subrange("Bearer "@.len() as int, auth@.len() as int) =~= auth@.skip(
                "Bearer "@.len() as int,
            ));
        }
        Ok(token)
    } else {
        Err(AppError::Unauthorized(String::from_str("expected Bearer token")))
    }
}

/// Apply a password change for the authenticated subject: the current
/// password is checked against the first user row carrying the subject's
/// id; on a match, every row with that id receives a fresh hash of the new
/// password.
pub fn change_password_for_user(
    store: &mut Store,
    sub: &str,
    body: &ChangePasswordRequest,
    now: i64,
) -> (r: Result<(), AppError>)
    requires
        old(store).wf(),
    ensures
        final(store).wf(),
        r is Err ==> *final(store) == *old(store),
        !(exists|i: int| 0 <= i < old(store).users@.len() && old(store).users@[i].id@ == sub@)
            ==> (r matches Err(e) && e is Internal),
        (exists|i: int| 0 <= i < old(store).users@.len() && old(store).users@[i].id@ == sub@)
            && !password_matches(
            body.current_password@,
            first_user_with_id(old(store).users@, sub@).password_hash@,
        ) ==> (r matches Err(e) && app_bad_request(e, "current password is incorrect"@)),
        (exists|i: int| 0 <= i < old(store).users@.len() && old(store).users@[i].id@ == sub@)
            && password_matches(
            body.current_password@,
            first_user_with_id(old(store).users@, sub@).password_hash@,
        ) ==> (r is Ok || (r matches Err(e) && e is Internal)),
        r is Ok ==> {
            &&& password_matches(
                body.current_password@,
                first_user_with_id(old(store).users@, sub@).password_hash@,
            )
            &&& final(store).users@.len() == old(store).users@.len()
            &&& forall|i: int|
                0 <= i < old(store).users@.len() ==> {
                    let o = #[trigger] old(store).users@[i];
                    let u = final(store).users@[i];
                    &&& u.id == o.id
                    &&& u.realm_id == o.realm_id
                    &&& u.username == o.username
                    &&& u.email == o.email
                    &&& (o.id@ == sub@ ==> password_matches(body.new_password@, u.password_hash@)
                        && u.updated_at == now)
                    &&& (o.id@ != sub@ ==> u == o)
                }
        },
        final(store).realms == old(store).realms,
        final(store).signing_keys == old(store).signing_keys,
        final(store).clients == old(store).clients,
        final(store).auth_codes == old(store).auth_codes,
        final(store).refresh_tokens == old(store).refresh_tokens,
        final(store).sessions == old(store).sessions,
{
    let user = match store.get_user_by_id(sub) {
        Some(u) => {
            proof {
                let i = choose|i: int|
                    0 <= i < store.users@.len() && *u == store.users@[i] && store.users@[i].id@
                        == sub@ && (forall|j: int| 0 <= j < i ==> store.users@[j].id@ != sub@);
                lemma_first_user_unique(store.users@, sub@, i);
            }
            u.dup()
        },
        None => {
            return Err(AppError::Internal(String::from_str("user not found")));
        },
    };
    if !verify_password(body.current_password.as_str(), user.password_hash.as_str()) {
        return Err(AppError::BadRequest(String::from_str("current password is incorrect")));
    }
    let new_hash = match hash_password(body.new_password.as_str()) {
        Ok(h) => h,
        Err(_) => {
            return Err(AppError::Internal(String::from_str("password hashing failed")));
        },
    };
    store.update_password(sub, new_hash.as_str(), now);
    Ok(())
}

/// Change the password of the bearer's user. Whether the token is
/// accepted is the outside library's clock-dependent decision, taken as it
/// came: on rejection the caller sees one generic unauthorized error, and
/// every error path leaves the store unchanged. On success, exactly the
/// rows of the bearer token's own subject (its `sub` claim) carry a hash
/// of the new password, and that subject's current password matched.
pub fn change_password(
    store: &mut Store,
    config: &Config,
    realm: &str,
    auth_header: Option<&str>,
    body: &ChangePasswordRequest,
    now: i64,
) -> (r: Result<(), AppError>)
    requires
        old(store).wf(),
    ensures
        final(store).wf(),
        r is Err ==> *final(store) == *old(store),
        auth_header is None ==> (r matches Err(e) && app_unauthorized(
            e,
            "missing Authorization header"@,
        )),
        auth_header matches Some(h) ==> (bearer_of(Some(h@)) is None ==> (r matches Err(e)
            && app_unauthorized(e, "expected Bearer token"@))),
        bearer_of(
            match auth_header {
                Some(h) => Some(h@),
                None => None,
            },
        ) is Some && !has_realm_name(old(store).realms@, realm@) ==> (r matches Err(e)
            && (e matches AppError::NotFound(m) && m@ == realm_not_found_of(realm@))),
        bearer_of(
            match auth_header {
                Some(h) => Some(h@),
                None => None,
            },
        ) is Some && has_realm_name(old(store).realms@, realm@) && !has_active_key(
            old(store).signing_keys@,
            realm_named(old(store).realms@, realm@).id@,
        ) ==> (r matches Err(e) && e is Internal),
        r is Ok ==> (auth_header matches Some(h) && (bearer_of(Some(h@)) matches Some(tok) && {
            let sub = jwt_claims_of(tok).0;
            &&& final(store).users@.len() == old(store).users@.len()
            &&& password_matches(
                body.current_password@,
                first_user_with_id(old(store).users@, sub).password_hash@,
            )
            &&& forall|i: int|
                0 <= i < old(store).users@.len() ==> {
                    let o = #[trigger] old(store).users@[i];
                    let u = final(store).users@[i];
                    &&& u.id == o.id
                    &&& u.realm_id == o.realm_id
                    &&& u.username == o.username
                    &&& u.email == o.email
                    &&& (o.id@ == sub ==> password_matches(body.new_password@, u.password_hash@)
                        && u.updated_at == now)
                    &&& (o.id@ != sub ==> u == o)
                }
        })),
        final(store).realms == old(store).realms,
        final(store).signing_keys == old(store).signing_keys,
        final(store).clients == old(store).clients,
        final(store).auth_codes == old(store).auth_codes,
        final(store).refresh_tokens == old(store).refresh_tokens,
        final(store).sessions == old(store).sessions,
{
    let bearer = match extract_bearer(auth_header) {
        Ok(t) => t,
        Err(e) => {
            return Err(e);
        },
    };
    let realm_id = match store.get_realm_by_name(realm) {
        Some(rec) => {
            proof {
                let i = choose|i: int|
                    0 <= i < store.realms@.len() && *rec == store.realms@[i]
                        && store.realms@[i].name@ == realm@;
                lemma_realm_named_unique(store.realms@, realm@, i);
            }
            rec.id.clone()
        },
        None => {
            return Err(AppError::NotFound(realm_not_found_msg(realm)));
        },
    };
    let signing_key = match store.get_active_signing_key(realm_id.as_str()) {
        Some(k) => k.dup(),
        None => {
            return Err(AppError::Internal(String::from_str("no signing key found")));
        },
    };
    let issuer = build_issuer(config.issuer_base_url.as_str(), realm);
    let claims = match decode_access_token(
        bearer.as_str(),
        signing_key.public_key_pem.as_str(),
        issuer.as_str(),
    ) {
        Ok(c) => c,
        Err(_) => {
            return Err(AppError::Unauthorized(String::from_str("invalid access token")));
        },
    };
    change_password_for_user(store, claims.sub.as_str(), body, now)
}

} // verus!
