//! The entities of the protocol store. Every entity is owned by its realm;
//! instants are unix timestamps in seconds. Secret bearer strings are never
//! held here: codes, refresh tokens and sessions carry only the hex-encoded
//! SHA-256 hash of the secret.

use vstd::prelude::*;

verus! {

/// A tenant boundary: users, clients, keys and tokens are scoped to
/// exactly one realm.
pub struct Realm {
    pub id: String,
    pub name: String,
    pub created_at: i64,
}

/// An end user of a realm; the password is held only as an Argon2id hash.
pub struct User {
    pub id: String,
    pub realm_id: String,
    pub username: String,
    pub email: String,
    pub password_hash: String,
    pub created_at: i64,
    pub updated_at: i64,
}

/// A registered application: a redirect URI used in a flow must be an
/// exact member of `redirect_uris`.
pub struct Client {
    pub id: String,
    pub realm_id: String,
    pub client_id: String,
    pub redirect_uris: Vec<String>,
    pub allowed_scopes: Vec<String>,
    pub created_at: i64,
}

/// A one-time authorization code, stored by hash; consuming sets `used`
/// exactly once.
pub struct AuthorizationCode {
    pub id: String,
    pub realm_id: String,
    pub client_id: String,
    pub user_id: String,
    pub code_hash: String,
    pub redirect_uri: String,
    pub scopes: String,
    pub code_challenge: String,
    pub expires_at: i64,
    pub used: bool,
}

/// A refresh token, stored by hash; consuming revokes it (rotation, never
/// reuse).
pub struct RefreshToken {
    pub id: String,
    pub realm_id: String,
    pub client_id: String,
    pub user_id: String,
    pub token_hash: String,
    pub scopes: String,
    pub expires_at: i64,
    pub revoked: bool,
}

/// An Ed25519 signing key of a realm; the most recently created active key
/// signs, all active keys are published for verification.
pub struct SigningKeyRecord {
    pub id: String,
    pub realm_id: String,
    pub private_key_pem: String,
    pub public_key_pem: String,
    pub kid: String,
    pub created_at: i64,
    pub active: bool,
}

/// A login session, stored by token hash; an unexpired session
/// short-circuits re-authentication.
pub struct Session {
    pub id: String,
    pub realm_id: String,
    pub user_id: String,
    pub session_token_hash: String,
    pub expires_at: i64,
    pub created_at: i64,
}

/// An exact copy of a list of strings.
pub fn dup_strings(v: &Vec<String>) -> (r: Vec<String>)
    ensures
        r@ == v@,
{
    let mut out: Vec<String> = Vec::new();
    let mut i: usize = 0;
    while i < v.len()
        invariant
            i <= v@.len(),
            out@ == v@.take(i as int),
        decreases v@.len() - i,
    {
        out.push(v[i].clone());
        proof {
            assert(v@.take(i + 1 as int) =~= v@.take(i as int).push(v@[i as int]));
        }
        i = i + 1;
    }
    proof {
        assert(v@.take(v@.len() as int) =~= v@);
    }
    out
}

impl Realm {
    /// An exact copy of this record.
    pub fn dup(&self) -> (r: Self)
        ensures
            r == *self,
    {
        Realm { id: self.id.clone(), name: self.name.clone(), created_at: self.created_at }
    }
}

impl User {
    /// An exact copy of this record.
    pub fn dup(&self) -> (r: Self)
        ensures
            r == *self,
    {
        User {
            id: self.id.clone(),
            realm_id: self.realm_id.clone(),
            username: self.username.clone(),
            email: self.email.clone(),
            password_hash: self.password_hash.clone(),
            created_at: self.created_at,
            updated_at: self.updated_at,
        }
    }
}

impl Client {
    /// An exact copy of this record (lists compared by contents).
    pub fn dup(&self) -> (r: Self)
        ensures
            r.id == self.id,
            r.realm_id == self.realm_id,
            r.client_id == self.client_id,
            r.redirect_uris@ == self.redirect_uris@,
            r.allowed_scopes@ == self.allowed_scopes@,
            r.created_at == self.created_at,
    {
        Client {
            id: self.id.clone(),
            realm_id: self.realm_id.clone(),
            client_id: self.client_id.clone(),
            redirect_uris: dup_strings(&self.redirect_uris),
            allowed_scopes: dup_strings(&self.allowed_scopes),
            created_at: self.created_at,
        }
    }
}

impl AuthorizationCode {
    /// An exact copy of this record.
    pub fn dup(&self) -> (r: Self)
        ensures
            r == *self,
    {
        AuthorizationCode {
            id: self.id.clone(),
            realm_id: self.realm_id.clone(),
            client_id: self.client_id.clone(),
            user_id: self.user_id.clone(),
            code_hash: self.code_hash.clone(),
            redirect_uri: self.redirect_uri.clone(),
            scopes: self.scopes.clone(),
            code_challenge: self.code_challenge.clone(),
            expires_at: self.expires_at,
            used: self.used,
        }
    }
}

impl RefreshToken {
    /// An exact copy of this record.
    pub fn dup(&self) -> (r: Self)
        ensures
            r == *self,
    {
        RefreshToken {
            id: self.id.clone(),
            realm_id: self.realm_id.clone(),
            client_id: self.client_id.clone(),
            user_id: self.user_id.clone(),
            token_hash: self.token_hash.clone(),
            scopes: self.scopes.clone(),
            expires_at: self.expires_at,
            revoked: self.revoked,
        }
    }
}

impl SigningKeyRecord {
    /// An exact copy of this record.
    pub fn dup(&self) -> (r: Self)
        ensures
            r == *self,
    {
        SigningKeyRecord {
            id: self.id.clone(),
            realm_id: self.realm_id.clone(),
            private_key_pem: self.private_key_pem.clone(),
            public_key_pem: self.public_key_pem.clone(),
            kid: self.kid.clone(),
            created_at: self.created_at,
            active: self.active,
        }
    }
}

impl Session {
    /// An exact copy of this record.
    pub fn dup(&self) -> (r: Self)
        ensures
            r == *self,
    {
        Session {
            id: self.id.clone(),
            realm_id: self.realm_id.clone(),
            user_id: self.user_id.clone(),
            session_token_hash: self.session_token_hash.clone(),
            expires_at: self.expires_at,
            created_at: self.created_at,
        }
    }
}

} // verus!
