//! The JWKS endpoint: every active key of the realm, published so
//! verifiers can validate tokens signed during a rollover window.

use vstd::prelude::*;

#[allow(unused_imports)]
use vstd::string::StringExecFns;

use crate::crypto::keys::{ed25519_pub_pem_ok, jwk_json_of, public_key_to_jwk};
use crate::models::SigningKeyRecord;
use crate::server::error::AppError;
use crate::server::{realm_not_found_msg, realm_not_found_of};
use crate::store::{
    has_realm_name, keys_ok, lemma_realm_named_unique, newest_active_keys_of, realm_named, Store,
};

verus! {

/// The comma-separated JWK list for a key sequence, in order.
pub open spec fn jwks_list_of(keys: Seq<SigningKeyRecord>) -> Seq<char>
    decreases keys.len(),
{
    if keys.len() == 0 {
        Seq::empty()
    } else {
        let item = jwk_json_of(keys.last().public_key_pem@, keys.last().kid@);
        if keys.len() == 1 {
            item
        } else {
            jwks_list_of(keys.drop_last()) + ","@ + item
        }
    }
}

/// The JWKS document for a key sequence.
pub open spec fn jwks_json_of(keys: Seq<SigningKeyRecord>) -> Seq<char> {
    "{\"keys\":["@ + jwks_list_of(keys) + "]}"@
}

/// Render the JWKS document of a realm: the JWK of every active key, most
/// recently created first (so the head is a key new tokens are signed
/// with). Fails as not-found for an unknown realm, and as an internal
/// fault only if a stored public key PEM cannot be decoded — so it owes
/// success whenever every active key of the realm carries a decodable
/// public PEM, which `create_realm` guarantees of the keys it stores.
pub fn jwks(store: &Store, realm: &str) -> (r: Result<String, AppError>)
    requires
        store.wf(),
    ensures
        !has_realm_name(store.realms@, realm@) ==> (r matches Err(e) && (e matches
        AppError::NotFound(m) && m@ == realm_not_found_of(realm@))),
        r matches Err(e) ==> e is NotFound || e is Internal,
        r matches Ok(doc) ==> has_realm_name(store.realms@, realm@) && doc@ == jwks_json_of(
            newest_active_keys_of(store.signing_keys@, realm_named(store.realms@, realm@).id@),
        ),
        has_realm_name(store.realms@, realm@) && (forall|i: int|
            0 <= i < store.signing_keys@.len() && (#[trigger] store.signing_keys@[i]).active
                && store.signing_keys@[i].realm_id@ == realm_named(store.realms@, realm@).id@
                ==> ed25519_pub_pem_ok(store.signing_keys@[i].public_key_pem@)) ==> r is Ok,
{
    let realm_id = match store.get_realm_by_name(realm) {
        Some(rec) => {
            proof {
                let i = choose|i: int|
                    0 <= i < store.realms@.len() && *rec == store.realms@[i]
                        && store.realms@[i].name@ == realm@;
                lemma_realm_named_unique(store.realms@, realm@, i);
            }
            rec.id.clone()
        },
        None => {
            return Err(AppError::NotFound(realm_not_found_msg(realm)));
        },
    };
    let keys = store.get_all_active_keys(realm_id.as_str());
    let mut list = String::new();
    let mut i: usize = 0;
    while i < keys.len()
        invariant
            i <= keys@.len(),
            has_realm_name(store.realms@, realm@),
            realm_id@ == realm_named(store.realms@, realm@).id@,
            keys_ok(keys@, realm_id@),
            forall|j: int|
                0 <= j < keys@.len() ==> exists|w: int|
                    0 <= w < store.signing_keys@.len() && #[trigger] keys@[j]
                        == store.signing_keys@[w],
            list@ == jwks_list_of(keys@.take(i as int)),
        decreases keys@.len() - i,
    {
        let jwk = match public_key_to_jwk(keys[i].public_key_pem.as_str(), keys[i].kid.as_str()) {
            Ok(j) => j,
            Err(_) => {
                proof {
                    let w = choose|w: int|
                        0 <= w < store.signing_keys@.len() && keys@[i as int]
                            == store.signing_keys@[w];
                    assert(store.signing_keys@[w].active && store.signing_keys@[w].realm_id@
                        == realm_id@);
                    assert(!ed25519_pub_pem_ok(store.signing_keys@[w].public_key_pem@));
                }
                return Err(AppError::Internal(String::from_str("invalid stored public key")));
            },
        };
        if i > 0 {
            list.append(",");
        }
        list.append(jwk.as_str());
        proof {
            assert(keys@.take(i + 1 as int).drop_last() =~= keys@.take(i as int));
            assert(keys@.take(i + 1 as int).last() == keys@[i as int]);
            assert(list@ =~= jwks_list_of(keys@.take(i + 1 as int)));
        }
        i = i + 1;
    }
    let mut out = String::from_str("{\"keys\":[");
    out.append(list.as_str());
    out.append("]}");
    proof {
        assert(keys@.take(keys@.len() as int) =~= keys@);
        assert(out@ =~= jwks_json_of(keys@));
    }
    Ok(out)
}

} // verus!
