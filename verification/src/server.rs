//! The protocol surface: the authorize state machine, the token exchange
//! engine, bearer-authenticated password change, and the read-only
//! discovery and JWKS projections. Each handler here is a pure engine from
//! (store, request values, current time) to an outcome value; the HTTP
//! plumbing around it lives outside the library.

pub mod authorize;
pub mod discovery;
pub mod error;
pub mod jwks;
pub mod password;
pub mod token;

use vstd::prelude::*;

#[allow(unused_imports)]
use vstd::string::StringExecFns;

verus! {

/// The issuer URL of a realm: the base URL followed by the realm path.
pub open spec fn issuer_of(base: Seq<char>, realm: Seq<char>) -> Seq<char> {
    base + "/realms/"@ + realm
}

/// Build the issuer URL of a realm.
pub fn build_issuer(base: &str, realm: &str) -> (r: String)
    ensures
        r@ == issuer_of(base@, realm@),
{
    let mut out = String::from_str(base);
    out.append("/realms/");
    out.append(realm);
    proof {
        assert(out@ =~= issuer_of(base@, realm@));
    }
    out
}

/// The message reported when a realm name resolves to nothing.
pub open spec fn realm_not_found_of(realm: Seq<char>) -> Seq<char> {
    "realm '"@ + realm + "' not found"@
}

/// Build the realm-not-found message.
pub fn realm_not_found_msg(realm: &str) -> (r: String)
    ensures
        r@ == realm_not_found_of(realm@),
{
    let mut out = String::from_str("realm '");
    out.append(realm);
    out.append("' not found");
    proof {
        assert(out@ =~= realm_not_found_of(realm@));
    }
    out
}

} // verus!
