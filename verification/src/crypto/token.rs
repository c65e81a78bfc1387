//! ID and access token claims, and JWT encoding/decoding. The compact JWS
//! form (header.payload.signature, each base64url) and the payload JSON are
//! built in verified code; only the Ed25519 signature itself and the
//! decode-side validation are outside calls.

use vstd::prelude::*;

#[allow(unused_imports)]
use vstd::string::StringExecFns;
#[allow(unused_imports)]
use jsonwebtoken::{decode, Algorithm, DecodingKey, Validation};
#[allow(unused_imports)]
use serde_json::Value;

use crate::crypto::keys::{ed25519_priv_pem_ok, ed25519_sig_of, ed25519_sign};
use crate::encoding::b64url_of;
use crate::jsontext::{append_json_str, json_str};
use crate::strutil::{dec_digits, u64_to_dec};

verus! {

/// Claims carried by an ID token.
pub struct IdTokenClaims {
    pub iss: String,
    pub sub: String,
    pub aud: String,
    pub exp: i64,
    pub iat: i64,
    pub nonce: Option<String>,
    pub preferred_username: String,
    pub email: String,
}

/// Claims carried by an access token.
pub struct AccessTokenClaims {
    pub iss: String,
    pub sub: String,
    pub aud: String,
    pub exp: i64,
    pub iat: i64,
    pub scope: String,
    pub client_id: String,
}

/// Build the claims of an ID token: expiry is `now` plus the configured
/// lifetime.
pub fn build_id_token_claims(
    issuer: &str,
    sub: &str,
    aud: &str,
    lifetime_secs: u64,
    username: &str,
    email: &str,
    nonce: Option<String>,
    now: i64,
) -> (r: IdTokenClaims)
    requires
        0 <= now,
        now + lifetime_secs <= i64::MAX,
    ensures
        r.iss@ == issuer@,
        r.sub@ == sub@,
        r.aud@ == aud@,
        r.exp == now + lifetime_secs,
        r.iat == now,
        r.nonce == nonce,
        r.preferred_username@ == username@,
        r.email@ == email@,
{
    IdTokenClaims {
        iss: String::from_str(issuer),
        sub: String::from_str(sub),
        aud: String::from_str(aud),
        exp: now + lifetime_secs as i64,
        iat: now,
        nonce,
        preferred_username: String::from_str(username),
        email: String::from_str(email),
    }
}

/// Build the claims of an access token: audience is the issuer itself, and
/// expiry is `now` plus the configured lifetime.
pub fn build_access_token_claims(
    issuer: &str,
    sub: &str,
    aud: &str,
    lifetime_secs: u64,
    scope: &str,
    client_id: &str,
    now: i64,
) -> (r: AccessTokenClaims)
    requires
        0 <= now,
        now + lifetime_secs <= i64::MAX,
    ensures
        r.iss@ == issuer@,
        r.sub@ == sub@,
        r.aud@ == aud@,
        r.exp == now + lifetime_secs,
        r.iat == now,
        r.scope@ == scope@,
        r.client_id@ == client_id@,
{
    AccessTokenClaims {
        iss: String::from_str(issuer),
        sub: String::from_str(sub),
        aud: String::from_str(aud),
        exp: now + lifetime_secs as i64,
        iat: now,
        scope: String::from_str(scope),
        client_id: String::from_str(client_id),
    }
}

/// The payload JSON text of an ID token, from its claim values.
pub open spec fn id_payload_json(
    iss: Seq<char>,
    sub: Seq<char>,
    aud: Seq<char>,
    exp: int,
    iat: int,
    nonce: Option<Seq<char>>,
    preferred_username: Seq<char>,
    email: Seq<char>,
) -> Seq<char> {
    "{\"iss\":"@ + json_str(iss) + ",\"sub\":"@ + json_str(sub) + ",\"aud\":"@ + json_str(aud)
        + ",\"exp\":"@ + dec_digits(exp as nat) + ",\"iat\":"@ + dec_digits(iat as nat) + (
    match nonce {
        Some(n) => ",\"nonce\":"@ + json_str(n),
        None => Seq::<char>::empty(),
    }) + ",\"preferred_username\":"@ + json_str(preferred_username) + ",\"email\":"@ + json_str(
        email,
    ) + "}"@
}

/// The payload JSON text of an ID token.
pub open spec fn id_token_payload_of(c: IdTokenClaims) -> Seq<char> {
    id_payload_json(
        c.iss@,
        c.sub@,
        c.aud@,
        c.exp as int,
        c.iat as int,
        match c.nonce {
            Some(n) => Some(n@),
            None => None,
        },
        c.preferred_username@,
        c.email@,
    )
}

/// The payload JSON text of an access token, from its claim values.
pub open spec fn access_payload_json(
    iss: Seq<char>,
    sub: Seq<char>,
    aud: Seq<char>,
    exp: int,
    iat: int,
    scope: Seq<char>,
    client_id: Seq<char>,
) -> Seq<char> {
    "{\"iss\":"@ + json_str(iss) + ",\"sub\":"@ + json_str(sub) + ",\"aud\":"@ + json_str(aud)
        + ",\"exp\":"@ + dec_digits(exp as nat) + ",\"iat\":"@ + dec_digits(iat as nat)
        + ",\"scope\":"@ + json_str(scope) + ",\"client_id\":"@ + json_str(client_id) + "}"@
}

/// The payload JSON text of an access token.
pub open spec fn access_token_payload_of(c: AccessTokenClaims) -> Seq<char> {
    access_payload_json(c.iss@, c.sub@, c.aud@, c.exp as int, c.iat as int, c.scope@, c.client_id@)
}

/// Render the payload JSON of an ID token.
pub fn id_token_payload(c: &IdTokenClaims) -> (r: String)
    requires
        0 <= c.exp,
        0 <= c.iat,
    ensures
        r@ == id_token_payload_of(*c),
{
    let mut out = String::from_str("{\"iss\":");
    append_json_str(&mut out, c.iss.as_str());
    out.append(",\"sub\":");
    append_json_str(&mut out, c.sub.as_str());
    out.append(",\"aud\":");
    append_json_str(&mut out, c.aud.as_str());
    out.append(",\"exp\":");
    let exp_dec = u64_to_dec(c.exp as u64);
    out.append(exp_dec.as_str());
    out.append(",\"iat\":");
    let iat_dec = u64_to_dec(c.iat as u64);
    out.append(iat_dec.as_str());
    match &c.nonce {
        Some(n) => {
            out.append(",\"nonce\":");
            append_json_str(&mut out, n.as_str());
        },
        None => {},
    }
    out.append(",\"preferred_username\":");
    append_json_str(&mut out, c.preferred_username.as_str());
    out.append(",\"email\":");
    append_json_str(&mut out, c.email.as_str());
    out.append("}");
    proof {
        assert(out@ =~= id_token_payload_of(*c));
    }
    out
}

/// Render the payload JSON of an access token.
pub fn access_token_payload(c: &AccessTokenClaims) -> (r: String)
    requires
        0 <= c.exp,
        0 <= c.iat,
    ensures
        r@ == access_token_payload_of(*c),
{
    let mut out = String::from_str("{\"iss\":");
    append_json_str(&mut out, c.iss.as_str());
    out.append(",\"sub\":");
    append_json_str(&mut out, c.sub.as_str());
    out.append(",\"aud\":");
    append_json_str(&mut out, c.aud.as_str());
    out.append(",\"exp\":");
    let exp_dec = u64_to_dec(c.exp as u64);
    out.append(exp_dec.as_str());
    out.append(",\"iat\":");
    let iat_dec = u64_to_dec(c.iat as u64);
    out.append(iat_dec.as_str());
    out.append(",\"scope\":");
    append_json_str(&mut out, c.scope.as_str());
    out.append(",\"client_id\":");
    append_json_str(&mut out, c.client_id.as_str());
    out.append("}");
    proof {
        assert(out@ =~= access_token_payload_of(*c));
    }
    out
}

/// The protected-header JSON of a token signed under a kid.
pub open spec fn jwt_header_of(kid: Seq<char>) -> Seq<char> {
    "{\"alg\":\"EdDSA\",\"kid\":"@ + json_str(kid) + ",\"typ\":\"JWT\"}"@
}

/// The signing input of a JWT: base64url of the header and of the payload,
/// joined by a dot.
pub open spec fn signing_input_of(kid: Seq<char>, payload_json: Seq<char>) -> Seq<char> {
    b64url_of(vstd::utf8::encode_utf8(jwt_header_of(kid))) + "."@ + b64url_of(
        vstd::utf8::encode_utf8(payload_json),
    )
}

/// The complete compact JWT: signing input, a dot, and the base64url
/// Ed25519 signature of the signing input under the private key.
pub open spec fn jwt_of(kid: Seq<char>, payload_json: Seq<char>, private_key_pem: Seq<char>) -> Seq<
    char,
> {
    signing_input_of(kid, payload_json) + "."@ + b64url_of(
        ed25519_sig_of(private_key_pem, signing_input_of(kid, payload_json)),
    )
}

/// Sign a payload as a compact JWT with an EdDSA header carrying the kid.
/// It succeeds exactly when the private-key PEM parses.
pub fn encode_jwt(payload_json: &str, kid: &str, private_key_pem: &str) -> (r: Result<String, ()>)
    ensures
        r is Ok <==> ed25519_priv_pem_ok(private_key_pem@),
        r is Ok ==> r->Ok_0@ == jwt_of(kid@, payload_json@, private_key_pem@),
{
    let mut header = String::from_str("{\"alg\":\"EdDSA\",\"kid\":");
    append_json_str(&mut header, kid);
    header.append(",\"typ\":\"JWT\"}");
    proof {
        assert(header@ =~= jwt_header_of(kid@));
    }
    let mut signing_input = crate::encoding::b64url_encode(header.as_str().as_bytes());
    signing_input.append(".");
    let payload_b64 = crate::encoding::b64url_encode(payload_json.as_bytes());
    signing_input.append(payload_b64.as_str());
    proof {
        assert(signing_input@ =~= signing_input_of(kid@, payload_json@));
    }
    let sig = match ed25519_sign(private_key_pem, signing_input.as_str()) {
        Ok(s) => s,
        Err(_) => return Err(()),
    };
    let sig_b64 = crate::encoding::b64url_encode(sig.as_slice());
    let mut out = signing_input;
    out.append(".");
    out.append(sig_b64.as_str());
    proof {
        assert(out@ =~= jwt_of(kid@, payload_json@, private_key_pem@));
    }
    Ok(out)
}

/// The claim values carried by a token's payload text, as
/// (sub, aud, exp, iat, scope, client_id): parsing a token's payload is a
/// function of the token text alone, so whenever validation accepts the
/// token, the claims handed back are exactly these.
pub uninterp spec fn jwt_claims_of(token: Seq<char>) -> (
    Seq<char>,
    Seq<char>,
    i64,
    i64,
    Seq<char>,
    Seq<char>,
);

/// Relies on `jsonwebtoken::decode` with EdDSA: verifies the signature
/// against the public key, requires the `exp`, `iss` and `sub` claims,
/// rejects expired tokens, and rejects an `iss` claim different from the
/// expected issuer. On acceptance the result is
/// (iss, sub, aud, exp, iat, scope, client_id): the claims are read out of
/// the token's payload — a function of the token text alone
/// (`jwt_claims_of`) — and the `iss` claim equals the expected issuer,
/// which validation enforced. Any failure is a single undifferentiated
/// rejection.
#[verifier::external_body]
fn decode_jwt_claims(token: &str, public_key_pem: &str, issuer: &str) -> (r: Option<
    (String, String, String, i64, i64, String, String),
>)
    ensures
        r matches Some(c) ==> {
            let v = jwt_claims_of(token@);
            &&& c.0@ == issuer@
            &&& c.1@ == v.0
            &&& c.2@ == v.1
            &&& c.3 == v.2
            &&& c.4 == v.3
            &&& c.5@ == v.4
            &&& c.6@ == v.5
        },
{
    let k = DecodingKey::from_ed_pem(public_key_pem.as_bytes()).ok()?;
    let mut v = Validation::new(Algorithm::EdDSA);
    v.set_issuer(&[issuer]);
    v.set_required_spec_claims(&["exp", "iss", "sub"]);
    v.validate_aud = false;
    let c = decode::<Value>(token, &k, &v).ok()?.claims;
    let s = |x: &str| c.get(x).and_then(|y| y.as_str()).map(String::from);
    let n = |x: &str| c.get(x).and_then(|y| y.as_i64());
    Some((s("iss")?, s("sub")?, s("aud")?, n("exp")?, n("iat")?, s("scope")?, s("client_id")?))
}

/// Decode and validate an access token: EdDSA signature under the given
/// public key, expected issuer, and the `exp`, `iss` and `sub` claims
/// present and current. On acceptance the returned claims are exactly the
/// token's payload values and the issuer is the expected one; any failure
/// is the same undifferentiated rejection, so a caller learns nothing
/// about why a token was refused.
pub fn decode_access_token(token: &str, public_key_pem: &str, issuer: &str) -> (r: Result<
    AccessTokenClaims,
    (),
>)
    ensures
        r matches Ok(c) ==> {
            let v = jwt_claims_of(token@);
            &&& c.iss@ == issuer@
            &&& c.sub@ == v.0
            &&& c.aud@ == v.1
            &&& c.exp == v.2
            &&& c.iat == v.3
            &&& c.scope@ == v.4
            &&& c.client_id@ == v.5
        },
{
    match decode_jwt_claims(token, public_key_pem, issuer) {
        Some(c) => Ok(
            AccessTokenClaims {
                iss: c.0,
                sub: c.1,
                aud: c.2,
                exp: c.3,
                iat: c.4,
                scope: c.5,
                client_id: c.6,
            },
        ),
        None => Err(()),
    }
}

} // verus!
