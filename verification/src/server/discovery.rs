//! The OpenID Connect discovery document: a constant projection of the
//! realm's issuer URL.

use vstd::prelude::*;

#[allow(unused_imports)]
use vstd::string::StringExecFns;

use crate::jsontext::{append_json_str, json_str};
use crate::server::error::AppError;
use crate::server::{build_issuer, issuer_of, realm_not_found_msg, realm_not_found_of};
use crate::store::{has_realm_name, Store};

verus! {

/// The discovery JSON for an issuer.
pub open spec fn discovery_json_of(issuer: Seq<char>) -> Seq<char> {
    "{\"issuer\":"@ + json_str(issuer) + ",\"authorization_endpoint\":"@ + json_str(
        issuer + "/authorize"@,
    ) + ",\"token_endpoint\":"@ + json_str(issuer + "/token"@) + ",\"userinfo_endpoint\":"@
        + json_str(issuer + "/userinfo"@) + ",\"jwks_uri\":"@ + json_str(issuer + "/jwks"@)
        + ",\"response_types_supported\":[\"code\"],\"subject_types_supported\":[\"public\"],\"id_token_signing_alg_values_supported\":[\"EdDSA\"],\"scopes_supported\":[\"openid\",\"profile\",\"email\"],\"token_endpoint_auth_methods_supported\":[\"none\"],\"grant_types_supported\":[\"authorization_code\",\"refresh_token\"],\"code_challenge_methods_supported\":[\"S256\"]}"@
}

/// Render the discovery document for an issuer.
pub fn discovery_document(issuer: &str) -> (r: String)
    ensures
        r@ == discovery_json_of(issuer@),
{
    let mut out = String::from_str("{\"issuer\":");
    append_json_str(&mut out, issuer);
    out.append(",\"authorization_endpoint\":");
    let mut ep = String::from_str(issuer);
    ep.append("/authorize");
    append_json_str(&mut out, ep.as_str());
    out.append(",\"token_endpoint\":");
    let mut ep2 = String::from_str(issuer);
    ep2.append("/token");
    append_json_str(&mut out, ep2.as_str());
    out.append(",\"userinfo_endpoint\":");
    let mut ep3 = String::from_str(issuer);
    ep3.append("/userinfo");
    append_json_str(&mut out, ep3.as_str());
    out.append(",\"jwks_uri\":");
    let mut ep4 = String::from_str(issuer);
    ep4.append("/jwks");
    append_json_str(&mut out, ep4.as_str());
    out.append(
        ",\"response_types_supported\":[\"code\"],\"subject_types_supported\":[\"public\"],\"id_token_signing_alg_values_supported\":[\"EdDSA\"],\"scopes_supported\":[\"openid\",\"profile\",\"email\"],\"token_endpoint_auth_methods_supported\":[\"none\"],\"grant_types_supported\":[\"authorization_code\",\"refresh_token\"],\"code_challenge_methods_supported\":[\"S256\"]}",
    );
    proof {
        assert(out@ =~= discovery_json_of(issuer@));
    }
    out
}

/// The discovery endpoint of a realm: verify the realm exists, then
/// project the constant document for its issuer URL.
pub fn openid_configuration(store: &Store, issuer_base_url: &str, realm: &str) -> (r: Result<
    String,
    AppError,
>)
    ensures
        r is Ok <==> has_realm_name(store.realms@, realm@),
        r matches Err(e) ==> (e matches AppError::NotFound(m) && m@ == realm_not_found_of(realm@)),
        r matches Ok(doc) ==> doc@ == discovery_json_of(issuer_of(issuer_base_url@, realm@)),
{
    match store.get_realm_by_name(realm) {
        Some(_) => {},
        None => {
            return Err(AppError::NotFound(realm_not_found_msg(realm)));
        },
    }
    let issuer = build_issuer(issuer_base_url, realm);
    Ok(discovery_document(issuer.as_str()))
}

} // verus!
