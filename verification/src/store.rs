//! The protocol record store: realms, signing keys, users, clients, and the
//! three hashed-secret tables (authorization codes, refresh tokens,
//! sessions). All consume operations are atomic read-then-mark steps, which
//! is what makes "at most one redemption" an invariant rather than a race;
//! the process serializes access by holding the store behind one lock.

use vstd::prelude::*;

use crate::models::{
    AuthorizationCode, Client, Realm, RefreshToken, Session, SigningKeyRecord, User,
};
use crate::rng::new_uuid;
use vstd::multiset::Multiset;
use crate::strutil::{lex_le, str_eq, str_le};

verus! {

/// Why a store mutation was refused.
#[derive(PartialEq, Eq, Structural, Clone, Copy, Debug)]
pub enum StoreError {
    /// A uniqueness constraint would be violated.
    Conflict,
    /// An internal fault (key generation failed).
    Internal,
}

/// A live authorization code: right hash, never consumed, not yet expired.
pub open spec fn code_live(c: AuthorizationCode, h: Seq<char>, now: i64) -> bool {
    c.code_hash@ == h && !c.used && c.expires_at > now
}

/// Is any authorization code live for this hash at this instant?
pub open spec fn has_live_code(codes: Seq<AuthorizationCode>, h: Seq<char>, now: i64) -> bool {
    exists|i: int| 0 <= i < codes.len() && code_live(codes[i], h, now)
}

/// Does any authorization code (used or not, expired or not) hold this hash?
pub open spec fn has_code_hash(codes: Seq<AuthorizationCode>, h: Seq<char>) -> bool {
    exists|i: int| 0 <= i < codes.len() && codes[i].code_hash@ == h
}

/// A live refresh token: right hash, not revoked, not yet expired.
pub open spec fn token_live(t: RefreshToken, h: Seq<char>, now: i64) -> bool {
    t.token_hash@ == h && !t.revoked && t.expires_at > now
}

/// Is any refresh token live for this hash at this instant?
pub open spec fn has_live_token(tokens: Seq<RefreshToken>, h: Seq<char>, now: i64) -> bool {
    exists|i: int| 0 <= i < tokens.len() && token_live(tokens[i], h, now)
}

/// Does any refresh token (revoked or not) hold this hash?
pub open spec fn has_token_hash(tokens: Seq<RefreshToken>, h: Seq<char>) -> bool {
    exists|i: int| 0 <= i < tokens.len() && tokens[i].token_hash@ == h
}

/// A live session of a realm: right hash, right realm, not yet expired.
pub open spec fn session_live(s: Session, realm_id: Seq<char>, h: Seq<char>, now: i64) -> bool {
    s.realm_id@ == realm_id && s.session_token_hash@ == h && s.expires_at > now
}

/// Is any session of the realm live for this hash at this instant?
pub open spec fn has_live_session(
    sessions: Seq<Session>,
    realm_id: Seq<char>,
    h: Seq<char>,
    now: i64,
) -> bool {
    exists|i: int| 0 <= i < sessions.len() && session_live(sessions[i], realm_id, h, now)
}

/// Does any session (of any realm) hold this hash?
pub open spec fn has_session_hash(sessions: Seq<Session>, h: Seq<char>) -> bool {
    exists|i: int| 0 <= i < sessions.len() && sessions[i].session_token_hash@ == h
}

/// Does any realm carry this name?
pub open spec fn has_realm_name(realms: Seq<Realm>, name: Seq<char>) -> bool {
    exists|i: int| 0 <= i < realms.len() && realms[i].name@ == name
}

/// Does the realm already register this client_id?
pub open spec fn has_client_id(
    clients: Seq<Client>,
    realm_id: Seq<char>,
    client_id: Seq<char>,
) -> bool {
    exists|i: int|
        0 <= i < clients.len() && clients[i].realm_id@ == realm_id && clients[i].client_id@
            == client_id
}

/// Does the realm already hold this username?
pub open spec fn has_username(users: Seq<User>, realm_id: Seq<char>, username: Seq<char>) -> bool {
    exists|i: int|
        0 <= i < users.len() && users[i].realm_id@ == realm_id && users[i].username@ == username
}

/// Is any signing key of this realm active?
pub open spec fn has_active_key(keys: Seq<SigningKeyRecord>, realm_id: Seq<char>) -> bool {
    exists|i: int| 0 <= i < keys.len() && keys[i].active && keys[i].realm_id@ == realm_id
}

/// No two rows hold the same code hash.
pub open spec fn distinct_code_hashes(codes: Seq<AuthorizationCode>) -> bool {
    forall|i: int, j: int|
        0 <= i < j < codes.len() ==> codes[i].code_hash@ != codes[j].code_hash@
}

/// No two rows hold the same refresh-token hash.
pub open spec fn distinct_token_hashes(tokens: Seq<RefreshToken>) -> bool {
    forall|i: int, j: int|
        0 <= i < j < tokens.len() ==> tokens[i].token_hash@ != tokens[j].token_hash@
}

/// No two rows hold the same session-token hash.
pub open spec fn distinct_session_hashes(sessions: Seq<Session>) -> bool {
    forall|i: int, j: int|
        0 <= i < j < sessions.len() ==> sessions[i].session_token_hash@
            != sessions[j].session_token_hash@
}

/// No two realms share a name.
pub open spec fn distinct_realm_names(realms: Seq<Realm>) -> bool {
    forall|i: int, j: int| 0 <= i < j < realms.len() ==> realms[i].name@ != realms[j].name@
}

/// No realm registers the same client_id twice.
pub open spec fn distinct_client_ids(clients: Seq<Client>) -> bool {
    forall|i: int, j: int|
        0 <= i < j < clients.len() ==> !(clients[i].realm_id@ == clients[j].realm_id@
            && clients[i].client_id@ == clients[j].client_id@)
}

/// No realm holds the same username twice.
pub open spec fn distinct_usernames(users: Seq<User>) -> bool {
    forall|i: int, j: int|
        0 <= i < j < users.len() ==> !(users[i].realm_id@ == users[j].realm_id@
            && users[i].username@ == users[j].username@)
}

/// The realm carrying a name (meaningful when the name is present and
/// names are distinct).
pub open spec fn realm_named(realms: Seq<Realm>, name: Seq<char>) -> Realm {
    realms[choose|i: int| 0 <= i < realms.len() && realms[i].name@ == name]
}

/// With distinct names, any realm carrying the name is the one.
pub proof fn lemma_realm_named_unique(realms: Seq<Realm>, name: Seq<char>, i: int)
    requires
        distinct_realm_names(realms),
        0 <= i < realms.len(),
        realms[i].name@ == name,
    ensures
        realms[i] == realm_named(realms, name),
{
    let j = choose|j: int| 0 <= j < realms.len() && realms[j].name@ == name;
    if i < j {
        assert(realms[i].name@ != realms[j].name@);
    } else if j < i {
        assert(realms[j].name@ != realms[i].name@);
    }
}

/// The client a realm registers under a client_id (meaningful when present
/// and client ids are distinct).
pub open spec fn client_in(clients: Seq<Client>, realm_id: Seq<char>, client_id: Seq<char>) -> Client {
    clients[choose|i: int|
        0 <= i < clients.len() && clients[i].realm_id@ == realm_id && clients[i].client_id@
            == client_id]
}

/// With distinct client ids, any matching client is the one.
pub proof fn lemma_client_in_unique(
    clients: Seq<Client>,
    realm_id: Seq<char>,
    client_id: Seq<char>,
    i: int,
)
    requires
        distinct_client_ids(clients),
        0 <= i < clients.len(),
        clients[i].realm_id@ == realm_id,
        clients[i].client_id@ == client_id,
    ensures
        clients[i] == client_in(clients, realm_id, client_id),
{
    let j = choose|j: int|
        0 <= j < clients.len() && clients[j].realm_id@ == realm_id && clients[j].client_id@
            == client_id;
    if i < j {
        assert(!(clients[i].realm_id@ == clients[j].realm_id@ && clients[i].client_id@
            == clients[j].client_id@));
    } else if j < i {
        assert(!(clients[j].realm_id@ == clients[i].realm_id@ && clients[j].client_id@
            == clients[i].client_id@));
    }
}

/// The user a realm holds under a username (meaningful when present and
/// usernames are distinct).
pub open spec fn user_named(users: Seq<User>, realm_id: Seq<char>, username: Seq<char>) -> User {
    users[choose|i: int|
        0 <= i < users.len() && users[i].realm_id@ == realm_id && users[i].username@ == username]
}

/// With distinct usernames, any matching user is the one.
pub proof fn lemma_user_named_unique(
    users: Seq<User>,
    realm_id: Seq<char>,
    username: Seq<char>,
    i: int,
)
    requires
        distinct_usernames(users),
        0 <= i < users.len(),
        users[i].realm_id@ == realm_id,
        users[i].username@ == username,
    ensures
        users[i] == user_named(users, realm_id, username),
{
    let j = choose|j: int|
        0 <= j < users.len() && users[j].realm_id@ == realm_id && users[j].username@ == username;
    if i < j {
        assert(!(users[i].realm_id@ == users[j].realm_id@ && users[i].username@
            == users[j].username@));
    } else if j < i {
        assert(!(users[j].realm_id@ == users[i].realm_id@ && users[j].username@
            == users[i].username@));
    }
}

/// The first user row carrying an id (meaningful when one is present).
pub open spec fn first_user_with_id(users: Seq<User>, uid: Seq<char>) -> User {
    users[choose|i: int|
        0 <= i < users.len() && users[i].id@ == uid && (forall|j: int|
            0 <= j < i ==> users[j].id@ != uid)]
}

/// Any first match by id is the first user row with that id.
pub proof fn lemma_first_user_unique(users: Seq<User>, uid: Seq<char>, i: int)
    requires
        0 <= i < users.len(),
        users[i].id@ == uid,
        forall|j: int| 0 <= j < i ==> users[j].id@ != uid,
    ensures
        users[i] == first_user_with_id(users, uid),
{
    let k = choose|k: int|
        0 <= k < users.len() && users[k].id@ == uid && (forall|j: int|
            0 <= j < k ==> users[j].id@ != uid);
    if k < i {
        assert(users[k].id@ != uid);
    } else if i < k {
        assert(users[i].id@ != uid);
    }
}

/// The live authorization code for a hash (meaningful when one is live and
/// hashes are distinct).
pub open spec fn live_code_of(codes: Seq<AuthorizationCode>, h: Seq<char>, now: i64) -> AuthorizationCode {
    codes[choose|i: int| 0 <= i < codes.len() && code_live(codes[i], h, now)]
}

/// With distinct hashes, any live code for the hash is the one.
pub proof fn lemma_live_code_unique(codes: Seq<AuthorizationCode>, h: Seq<char>, now: i64, i: int)
    requires
        distinct_code_hashes(codes),
        0 <= i < codes.len(),
        code_live(codes[i], h, now),
    ensures
        codes[i] == live_code_of(codes, h, now),
{
    let j = choose|j: int| 0 <= j < codes.len() && code_live(codes[j], h, now);
    if i < j {
        assert(codes[i].code_hash@ != codes[j].code_hash@);
    } else if j < i {
        assert(codes[j].code_hash@ != codes[i].code_hash@);
    }
}

/// The live refresh token for a hash (meaningful when one is live and
/// hashes are distinct).
pub open spec fn live_token_of(tokens: Seq<RefreshToken>, h: Seq<char>, now: i64) -> RefreshToken {
    tokens[choose|i: int| 0 <= i < tokens.len() && token_live(tokens[i], h, now)]
}

/// With distinct hashes, any live refresh token for the hash is the one.
pub proof fn lemma_live_token_unique(tokens: Seq<RefreshToken>, h: Seq<char>, now: i64, i: int)
    requires
        distinct_token_hashes(tokens),
        0 <= i < tokens.len(),
        token_live(tokens[i], h, now),
    ensures
        tokens[i] == live_token_of(tokens, h, now),
{
    let j = choose|j: int| 0 <= j < tokens.len() && token_live(tokens[j], h, now);
    if i < j {
        assert(tokens[i].token_hash@ != tokens[j].token_hash@);
    } else if j < i {
        assert(tokens[j].token_hash@ != tokens[i].token_hash@);
    }
}

/// The live session of a realm for a hash (meaningful when one is live and
/// hashes are distinct).
pub open spec fn live_session_of(
    sessions: Seq<Session>,
    realm_id: Seq<char>,
    h: Seq<char>,
    now: i64,
) -> Session {
    sessions[choose|i: int|
        0 <= i < sessions.len() && session_live(sessions[i], realm_id, h, now)]
}

/// With distinct hashes, any live session for the hash is the one.
pub proof fn lemma_live_session_unique(
    sessions: Seq<Session>,
    realm_id: Seq<char>,
    h: Seq<char>,
    now: i64,
    i: int,
)
    requires
        distinct_session_hashes(sessions),
        0 <= i < sessions.len(),
        session_live(sessions[i], realm_id, h, now),
    ensures
        sessions[i] == live_session_of(sessions, realm_id, h, now),
{
    let j = choose|j: int| 0 <= j < sessions.len() && session_live(sessions[j], realm_id, h, now);
    if i < j {
        assert(sessions[i].session_token_hash@ != sessions[j].session_token_hash@);
    } else if j < i {
        assert(sessions[j].session_token_hash@ != sessions[i].session_token_hash@);
    }
}


/// The elements of a sequence satisfying a predicate, in order.
pub open spec fn keeping<T>(s: Seq<T>, pred: spec_fn(T) -> bool) -> Seq<T>
    decreases s.len(),
{
    if s.len() == 0 {
        Seq::empty()
    } else {
        let rest = keeping(s.drop_last(), pred);
        if pred(s.last()) {
            rest.push(s.last())
        } else {
            rest
        }
    }
}

/// Filtering keeps every element an element of the source, and keeps any
/// key distinctness the source had.
pub proof fn lemma_keeping_distinct<T, K>(s: Seq<T>, pred: spec_fn(T) -> bool, key: spec_fn(T) -> K)
    requires
        forall|i: int, j: int| 0 <= i < j < s.len() ==> key(s[i]) != key(s[j]),
    ensures
        keeping(s, pred).len() <= s.len(),
        forall|i: int|
            0 <= i < keeping(s, pred).len() ==> exists|k: int|
                0 <= k < s.len() && #[trigger] keeping(s, pred)[i] == s[k],
        forall|i: int, j: int|
            0 <= i < j < keeping(s, pred).len() ==> key(#[trigger] keeping(s, pred)[i]) != key(
                #[trigger] keeping(s, pred)[j],
            ),
    decreases s.len(),
{
    if s.len() > 0 {
        let dl = s.drop_last();
        assert forall|i: int, j: int| 0 <= i < j < dl.len() implies key(dl[i]) != key(dl[j]) by {
            assert(dl[i] == s[i]);
            assert(dl[j] == s[j]);
        }
        lemma_keeping_distinct(dl, pred, key);
        let sub = keeping(dl, pred);
        let whole = keeping(s, pred);
        assert forall|i: int|
            0 <= i < whole.len() implies exists|k: int|
            0 <= k < s.len() && #[trigger] whole[i] == s[k] by {
            if i < sub.len() {
                let k = choose|k: int| 0 <= k < dl.len() && sub[i] == dl[k];
                assert(whole[i] == s[k]);
            } else {
                assert(whole[i] == s[s.len() - 1]);
            }
        }
        assert forall|i: int, j: int|
            0 <= i < j < whole.len() implies key(#[trigger] whole[i]) != key(
            #[trigger] whole[j],
        ) by {
            if j < sub.len() {
                assert(key(sub[i]) != key(sub[j]));
            } else {
                assert(whole[j] == s[s.len() - 1]);
                let k = choose|k: int| 0 <= k < dl.len() && sub[i] == dl[k];
                assert(key(s[k]) != key(s[s.len() - 1]));
            }
        }
    }
}

/// The same authorization code, marked used.
pub open spec fn with_code_used(c: AuthorizationCode) -> AuthorizationCode {
    AuthorizationCode {
        id: c.id,
        realm_id: c.realm_id,
        client_id: c.client_id,
        user_id: c.user_id,
        code_hash: c.code_hash,
        redirect_uri: c.redirect_uri,
        scopes: c.scopes,
        code_challenge: c.code_challenge,
        expires_at: c.expires_at,
        used: true,
    }
}

/// The same refresh token, revoked.
pub open spec fn with_token_revoked(t: RefreshToken) -> RefreshToken {
    RefreshToken {
        id: t.id,
        realm_id: t.realm_id,
        client_id: t.client_id,
        user_id: t.user_id,
        token_hash: t.token_hash,
        scopes: t.scopes,
        expires_at: t.expires_at,
        revoked: true,
    }
}

/// The record store. Its well-formedness (`wf`) carries the uniqueness
/// constraints the schema enforces: secret hashes are globally unique per
/// table, realm names are unique, and client ids and usernames are unique
/// within their realm.
pub struct Store {
    pub realms: Vec<Realm>,
    pub signing_keys: Vec<SigningKeyRecord>,
    pub users: Vec<User>,
    pub clients: Vec<Client>,
    pub auth_codes: Vec<AuthorizationCode>,
    pub refresh_tokens: Vec<RefreshToken>,
    pub sessions: Vec<Session>,
}

impl Store {
    /// The uniqueness constraints of the schema.
    pub open spec fn wf(self) -> bool {
        &&& distinct_code_hashes(self.auth_codes@)
        &&& distinct_token_hashes(self.refresh_tokens@)
        &&& distinct_session_hashes(self.sessions@)
        &&& distinct_realm_names(self.realms@)
        &&& distinct_client_ids(self.clients@)
        &&& distinct_usernames(self.users@)
    }

    /// An empty store.
    pub fn new() -> (r: Store)
        ensures
            r.wf(),
            r.realms@.len() == 0,
            r.signing_keys@.len() == 0,
            r.users@.len() == 0,
            r.clients@.len() == 0,
            r.auth_codes@.len() == 0,
            r.refresh_tokens@.len() == 0,
            r.sessions@.len() == 0,
    {
        Store {
            realms: Vec::new(),
            signing_keys: Vec::new(),
            users: Vec::new(),
            clients: Vec::new(),
            auth_codes: Vec::new(),
            refresh_tokens: Vec::new(),
            sessions: Vec::new(),
        }
    }

    /// Insert a new authorization code row (storing the hash, never the raw
    /// code). Refused if any row already holds this hash. Returns the fresh
    /// row id.
    pub fn insert_auth_code(
        &mut self,
        realm_id: &str,
        client_id: &str,
        user_id: &str,
        code_hash: &str,
        redirect_uri: &str,
        scopes: &str,
        code_challenge: &str,
        expires_at: i64,
    ) -> (r: Result<String, StoreError>)
        requires
            old(self).wf(),
        ensures
            final(self).wf(),
            r is Ok <==> !has_code_hash(old(self).auth_codes@, code_hash@),
            r is Err ==> *final(self) == *old(self),
            r is Ok ==> {
                let c = final(self).auth_codes@.last();
                &&& final(self).auth_codes@ == old(self).auth_codes@.push(c)
                &&& c.realm_id@ == realm_id@
                &&& c.client_id@ == client_id@
                &&& c.user_id@ == user_id@
                &&& c.code_hash@ == code_hash@
                &&& c.redirect_uri@ == redirect_uri@
                &&& c.scopes@ == scopes@
                &&& c.code_challenge@ == code_challenge@
                &&& c.expires_at == expires_at
                &&& !c.used
                &&& c.id@ == r->Ok_0@
            },
            final(self).realms == old(self).realms,
            final(self).signing_keys == old(self).signing_keys,
            final(self).users == old(self).users,
            final(self).clients == old(self).clients,
            final(self).refresh_tokens == old(self).refresh_tokens,
            final(self).sessions == old(self).sessions,
    {
        let n = self.auth_codes.len();
        let mut i: usize = 0;
        while i < n
            invariant
                i <= n,
                *self == *old(self),
                old(self).wf(),
                n == self.auth_codes@.len(),
                forall|j: int| 0 <= j < i ==> self.auth_codes@[j].code_hash@ != code_hash@,
            decreases n - i,
        {
            if str_eq(self.auth_codes[i].code_hash.as_str(), code_hash) {
                return Err(StoreError::Conflict);
            }
            i = i + 1;
        }
        let id = new_uuid();
        let rec = AuthorizationCode {
            id: id.clone(),
            realm_id: String::from_str(realm_id),
            client_id: String::from_str(client_id),
            user_id: String::from_str(user_id),
            code_hash: String::from_str(code_hash),
            redirect_uri: String::from_str(redirect_uri),
            scopes: String::from_str(scopes),
            code_challenge: String::from_str(code_challenge),
            expires_at,
            used: false,
        };
        self.auth_codes.push(rec);
        Ok(id)
    }

    /// Consume an authorization code: look up a live row by hash, mark it
    /// used, and return it as found. Returns nothing if no row is live
    /// (absent, already used, or expired are indistinguishable); a consumed
    /// hash has no live row ever after.
    pub fn consume_auth_code(&mut self, code_hash: &str, now: i64) -> (r: Option<
        AuthorizationCode,
    >)
        requires
            old(self).wf(),
        ensures
            final(self).wf(),
            r is Some <==> has_live_code(old(self).auth_codes@, code_hash@, now),
            r is None ==> *final(self) == *old(self),
            r is Some ==> {
                let c = r->Some_0;
                exists|i: int|
                    0 <= i < old(self).auth_codes@.len() && code_live(
                        old(self).auth_codes@[i],
                        code_hash@,
                        now,
                    ) && c == old(self).auth_codes@[i] && final(self).auth_codes@ == old(
                        self,
                    ).auth_codes@.update(i, with_code_used(old(self).auth_codes@[i]))
            },
            r is Some ==> forall|t: i64| !has_live_code(final(self).auth_codes@, code_hash@, t),
            final(self).realms == old(self).realms,
            final(self).signing_keys == old(self).signing_keys,
            final(self).users == old(self).users,
            final(self).clients == old(self).clients,
            final(self).refresh_tokens == old(self).refresh_tokens,
            final(self).sessions == old(self).sessions,
    {
        let n = self.auth_codes.len();
        let mut i: usize = 0;
        while i < n
            invariant
                i <= n,
                *self == *old(self),
                old(self).wf(),
                n == self.auth_codes@.len(),
                forall|j: int| 0 <= j < i ==> !code_live(self.auth_codes@[j], code_hash@, now),
            decreases n - i,
        {
            let hit = str_eq(self.auth_codes[i].code_hash.as_str(), code_hash)
                && !self.auth_codes[i].used && self.auth_codes[i].expires_at > now;
            if hit {
                let rec = self.auth_codes[i].dup();
                self.auth_codes[i].used = true;
                proof {
                    let oc = old(self).auth_codes@;
                    assert(self.auth_codes@ =~= oc.update(i as int, with_code_used(oc[i as int])));
                    assert forall|t: i64, j: int|
                        0 <= j < self.auth_codes@.len() implies !code_live(
                        self.auth_codes@[j],
                        code_hash@,
                        t,
                    ) by {
                        if j < i as int {
                            assert(oc[j].code_hash@ != oc[i as int].code_hash@);
                        } else if j > i as int {
                            assert(oc[i as int].code_hash@ != oc[j].code_hash@);
                        }
                    }
                }
                return Some(rec);
            }
            i = i + 1;
        }
        None
    }

    /// Insert a new refresh token row (storing the hash, never the raw
    /// token). Refused if any row already holds this hash. Returns the
    /// fresh row id.
    pub fn insert_refresh_token(
        &mut self,
        realm_id: &str,
        client_id: &str,
        user_id: &str,
        token_hash: &str,
        scopes: &str,
        expires_at: i64,
    ) -> (r: Result<String, StoreError>)
        requires
            old(self).wf(),
        ensures
            final(self).wf(),
            r is Ok <==> !has_token_hash(old(self).refresh_tokens@, token_hash@),
            r is Err ==> *final(self) == *old(self),
            r is Ok ==> {
                let t = final(self).refresh_tokens@.last();
                &&& final(self).refresh_tokens@ == old(self).refresh_tokens@.push(t)
                &&& t.realm_id@ == realm_id@
                &&& t.client_id@ == client_id@
                &&& t.user_id@ == user_id@
                &&& t.token_hash@ == token_hash@
                &&& t.scopes@ == scopes@
                &&& t.expires_at == expires_at
                &&& !t.revoked
                &&& t.id@ == r->Ok_0@
            },
            final(self).realms == old(self).realms,
            final(self).signing_keys == old(self).signing_keys,
            final(self).users == old(self).users,
            final(self).clients == old(self).clients,
            final(self).auth_codes == old(self).auth_codes,
            final(self).sessions == old(self).sessions,
    {
        let n = self.refresh_tokens.len();
        let mut i: usize = 0;
        while i < n
            invariant
                i <= n,
                *self == *old(self),
                old(self).wf(),
                n == self.refresh_tokens@.len(),
                forall|j: int| 0 <= j < i ==> self.refresh_tokens@[j].token_hash@ != token_hash@,
            decreases n - i,
        {
            if str_eq(self.refresh_tokens[i].token_hash.as_str(), token_hash) {
                return Err(StoreError::Conflict);
            }
            i = i + 1;
        }
        let id = new_uuid();
        let rec = RefreshToken {
            id: id.clone(),
            realm_id: String::from_str(realm_id),
            client_id: String::from_str(client_id),
            user_id: String::from_str(user_id),
            token_hash: String::from_str(token_hash),
            scopes: String::from_str(scopes),
            expires_at,
            revoked: false,
        };
        self.refresh_tokens.push(rec);
        Ok(id)
    }

    /// Consume a refresh token: look up a live row by hash, revoke it
    /// (rotation: the presented token can never be redeemed twice), and
    /// return it as found. Absent, already revoked and expired rows are
    /// indistinguishable.
    pub fn consume_refresh_token(&mut self, token_hash: &str, now: i64) -> (r: Option<RefreshToken>)
        requires
            old(self).wf(),
        ensures
            final(self).wf(),
            r is Some <==> has_live_token(old(self).refresh_tokens@, token_hash@, now),
            r is None ==> *final(self) == *old(self),
            r is Some ==> {
                let t = r->Some_0;
                exists|i: int|
                    0 <= i < old(self).refresh_tokens@.len() && token_live(
                        old(self).refresh_tokens@[i],
                        token_hash@,
                        now,
                    ) && t == old(self).refresh_tokens@[i] && final(self).refresh_tokens@ == old(
                        self,
                    ).refresh_tokens@.update(i, with_token_revoked(old(self).refresh_tokens@[i]))
            },
            r is Some ==> forall|t: i64|
                !has_live_token(final(self).refresh_tokens@, token_hash@, t),
            r is Some ==> has_token_hash(final(self).refresh_tokens@, token_hash@),
            final(self).realms == old(self).realms,
            final(self).signing_keys == old(self).signing_keys,
            final(self).users == old(self).users,
            final(self).clients == old(self).clients,
            final(self).auth_codes == old(self).auth_codes,
            final(self).sessions == old(self).sessions,
    {
        let n = self.refresh_tokens.len();
        let mut i: usize = 0;
        while i < n
            invariant
                i <= n,
                *self == *old(self),
                old(self).wf(),
                n == self.refresh_tokens@.len(),
                forall|j: int| 0 <= j < i ==> !token_live(self.refresh_tokens@[j], token_hash@, now),
            decreases n - i,
        {
            let hit = str_eq(self.refresh_tokens[i].token_hash.as_str(), token_hash)
                && !self.refresh_tokens[i].revoked && self.refresh_tokens[i].expires_at > now;
            if hit {
                let rec = self.refresh_tokens[i].dup();
                self.refresh_tokens[i].revoked = true;
                proof {
                    let ot = old(self).refresh_tokens@;
                    assert(self.refresh_tokens@ =~= ot.update(
                        i as int,
                        with_token_revoked(ot[i as int]),
                    ));
                    assert forall|t: i64, j: int|
                        0 <= j < self.refresh_tokens@.len() implies !token_live(
                        self.refresh_tokens@[j],
                        token_hash@,
                        t,
                    ) by {
                        if j < i as int {
                            assert(ot[j].token_hash@ != ot[i as int].token_hash@);
                        } else if j > i as int {
                            assert(ot[i as int].token_hash@ != ot[j].token_hash@);
                        }
                    }
                }
                return Some(rec);
            }
            i = i + 1;
        }
        None
    }

    /// Create a session row for a user (storing the token hash, never the
    /// raw token). Refused if any session already holds this hash.
    pub fn create_session(
        &mut self,
        realm_id: &str,
        user_id: &str,
        session_token_hash: &str,
        expires_at: i64,
        now: i64,
    ) -> (r: Result<Session, StoreError>)
        requires
            old(self).wf(),
        ensures
            final(self).wf(),
            r is Ok <==> !has_session_hash(old(self).sessions@, session_token_hash@),
            r is Err ==> *final(self) == *old(self),
            r is Ok ==> {
                let s = final(self).sessions@.last();
                &&& final(self).sessions@ == old(self).sessions@.push(s)
                &&& s.realm_id@ == realm_id@
                &&& s.user_id@ == user_id@
                &&& s.session_token_hash@ == session_token_hash@
                &&& s.expires_at == expires_at
                &&& s.created_at == now
                &&& r->Ok_0 == s
            },
            final(self).realms == old(self).realms,
            final(self).signing_keys == old(self).signing_keys,
            final(self).users == old(self).users,
            final(self).clients == old(self).clients,
            final(self).auth_codes == old(self).auth_codes,
            final(self).refresh_tokens == old(self).refresh_tokens,
    {
        let n = self.sessions.len();
        let mut i: usize = 0;
        while i < n
            invariant
                i <= n,
                *self == *old(self),
                old(self).wf(),
                n == self.sessions@.len(),
                forall|j: int|
                    0 <= j < i ==> self.sessions@[j].session_token_hash@ != session_token_hash@,
            decreases n - i,
        {
            if str_eq(self.sessions[i].session_token_hash.as_str(), session_token_hash) {
                return Err(StoreError::Conflict);
            }
            i = i + 1;
        }
        let rec = Session {
            id: new_uuid(),
            realm_id: String::from_str(realm_id),
            user_id: String::from_str(user_id),
            session_token_hash: String::from_str(session_token_hash),
            expires_at,
            created_at: now,
        };
        let ret = rec.dup();
        self.sessions.push(rec);
        Ok(ret)
    }

    /// Look up a live (unexpired) session of a realm by token hash. An
    /// expired session is treated identically to an absent one.
    pub fn get_session_by_token_hash(&self, realm_id: &str, token_hash: &str, now: i64) -> (r:
        Option<&Session>)
        ensures
            r is Some <==> has_live_session(self.sessions@, realm_id@, token_hash@, now),
            r is Some ==> exists|i: int|
                0 <= i < self.sessions@.len() && *r->Some_0 == self.sessions@[i] && session_live(
                    self.sessions@[i],
                    realm_id@,
                    token_hash@,
                    now,
                ),
    {
        let n = self.sessions.len();
        let mut i: usize = 0;
        while i < n
            invariant
                i <= n,
                n == self.sessions@.len(),
                forall|j: int|
                    0 <= j < i ==> !session_live(self.sessions@[j], realm_id@, token_hash@, now),
            decreases n - i,
        {
            let hit = str_eq(self.sessions[i].realm_id.as_str(), realm_id) && str_eq(
                self.sessions[i].session_token_hash.as_str(),
                token_hash,
            ) && self.sessions[i].expires_at > now;
            if hit {
                return Some(&self.sessions[i]);
            }
            i = i + 1;
        }
        None
    }

    /// Look up a realm by its unique name.
    pub fn get_realm_by_name(&self, name: &str) -> (r: Option<&Realm>)
        ensures
            r is Some <==> has_realm_name(self.realms@, name@),
            r is Some ==> exists|i: int|
                0 <= i < self.realms@.len() && *r->Some_0 == self.realms@[i]
                    && self.realms@[i].name@ == name@,
    {
        let n = self.realms.len();
        let mut i: usize = 0;
        while i < n
            invariant
                i <= n,
                n == self.realms@.len(),
                forall|j: int| 0 <= j < i ==> self.realms@[j].name@ != name@,
            decreases n - i,
        {
            if str_eq(self.realms[i].name.as_str(), name) {
                return Some(&self.realms[i]);
            }
            i = i + 1;
        }
        None
    }

    /// Create a realm and auto-generate its first Ed25519 signing key
    /// (active from creation, so a realm always has a signing key).
    /// Refused if the name is taken; an internal fault if key generation
    /// fails.
    pub fn create_realm(&mut self, name: &str, now: i64) -> (r: Result<Realm, StoreError>)
        requires
            old(self).wf(),
        ensures
            final(self).wf(),
            r == Result::<Realm, StoreError>::Err(StoreError::Conflict) <==> has_realm_name(
                old(self).realms@,
                name@,
            ),
            r is Err ==> *final(self) == *old(self),
            r is Ok ==> {
                let realm = r->Ok_0;
                let key = final(self).signing_keys@.last();
                &&& realm.name@ == name@
                &&& realm.created_at == now
                &&& final(self).realms@ == old(self).realms@.push(realm)
                &&& final(self).signing_keys@ == old(self).signing_keys@.push(key)
                &&& key.realm_id@ == realm.id@
                &&& key.active
                &&& key.created_at == now
                &&& key.public_key_pem@ == crate::crypto::keys::ed25519_public_pem_of(
                    key.private_key_pem@,
                )
                &&& crate::crypto::keys::ed25519_priv_pem_ok(key.private_key_pem@)
                &&& crate::crypto::keys::ed25519_pub_pem_ok(key.public_key_pem@)
            },
            final(self).users == old(self).users,
            final(self).clients == old(self).clients,
            final(self).auth_codes == old(self).auth_codes,
            final(self).refresh_tokens == old(self).refresh_tokens,
            final(self).sessions == old(self).sessions,
    {
        let n = self.realms.len();
        let mut i: usize = 0;
        while i < n
            invariant
                i <= n,
                *self == *old(self),
                old(self).wf(),
                n == self.realms@.len(),
                forall|j: int| 0 <= j < i ==> self.realms@[j].name@ != name@,
            decreases n - i,
        {
            if str_eq(self.realms[i].name.as_str(), name) {
                return Err(StoreError::Conflict);
            }
            i = i + 1;
        }
        let keypair = match crate::crypto::keys::generate_ed25519_keypair() {
            Ok(kp) => kp,
            Err(_) => {
                return Err(StoreError::Internal);
            },
        };
        let id = new_uuid();
        let realm = Realm { id: id.clone(), name: String::from_str(name), created_at: now };
        let ret = realm.dup();
        self.realms.push(realm);
        let key = SigningKeyRecord {
            id: new_uuid(),
            realm_id: id,
            private_key_pem: keypair.0,
            public_key_pem: keypair.1,
            kid: keypair.2,
            created_at: now,
            active: true,
        };
        self.signing_keys.push(key);
        Ok(ret)
    }

    /// Register a client in a realm with its exact redirect URI set; the
    /// allowed scopes are openid, profile and email. Refused if the realm
    /// already registers this client_id.
    pub fn create_client(
        &mut self,
        realm_id: &str,
        client_id: &str,
        redirect_uris: &Vec<String>,
        now: i64,
    ) -> (r: Result<Client, StoreError>)
        requires
            old(self).wf(),
        ensures
            final(self).wf(),
            r is Ok <==> !has_client_id(old(self).clients@, realm_id@, client_id@),
            r is Err ==> *final(self) == *old(self),
            r is Ok ==> {
                let c = final(self).clients@.last();
                &&& final(self).clients@ == old(self).clients@.push(c)
                &&& c.realm_id@ == realm_id@
                &&& c.client_id@ == client_id@
                &&& c.redirect_uris@ == redirect_uris@
                &&& c.allowed_scopes@.len() == 3
                &&& c.allowed_scopes@[0]@ == "openid"@
                &&& c.allowed_scopes@[1]@ == "profile"@
                &&& c.allowed_scopes@[2]@ == "email"@
                &&& c.created_at == now
                &&& r->Ok_0.id == c.id
                &&& r->Ok_0.realm_id == c.realm_id
                &&& r->Ok_0.client_id == c.client_id
                &&& r->Ok_0.redirect_uris@ == c.redirect_uris@
                &&& r->Ok_0.allowed_scopes@ == c.allowed_scopes@
            },
            final(self).realms == old(self).realms,
            final(self).signing_keys == old(self).signing_keys,
            final(self).users == old(self).users,
            final(self).auth_codes == old(self).auth_codes,
            final(self).refresh_tokens == old(self).refresh_tokens,
            final(self).sessions == old(self).sessions,
    {
        let n = self.clients.len();
        let mut i: usize = 0;
        while i < n
            invariant
                i <= n,
                *self == *old(self),
                old(self).wf(),
                n == self.clients@.len(),
                forall|j: int|
                    0 <= j < i ==> !(self.clients@[j].realm_id@ == realm_id@
                        && self.clients@[j].client_id@ == client_id@),
            decreases n - i,
        {
            let same = str_eq(self.clients[i].realm_id.as_str(), realm_id) && str_eq(
                self.clients[i].client_id.as_str(),
                client_id,
            );
            if same {
                return Err(StoreError::Conflict);
            }
            i = i + 1;
        }
        let mut scopes: Vec<String> = Vec::new();
        scopes.push(String::from_str("openid"));
        scopes.push(String::from_str("profile"));
        scopes.push(String::from_str("email"));
        let rec = Client {
            id: new_uuid(),
            realm_id: String::from_str(realm_id),
            client_id: String::from_str(client_id),
            redirect_uris: crate::models::dup_strings(redirect_uris),
            allowed_scopes: scopes,
            created_at: now,
        };
        let ret = rec.dup();
        self.clients.push(rec);
        Ok(ret)
    }

    /// Look up a client by realm and client_id.
    pub fn get_client_by_client_id(&self, realm_id: &str, client_id: &str) -> (r: Option<&Client>)
        ensures
            r is Some <==> has_client_id(self.clients@, realm_id@, client_id@),
            r is Some ==> exists|i: int|
                0 <= i < self.clients@.len() && *r->Some_0 == self.clients@[i]
                    && self.clients@[i].realm_id@ == realm_id@ && self.clients@[i].client_id@
                    == client_id@,
    {
        let n = self.clients.len();
        let mut i: usize = 0;
        while i < n
            invariant
                i <= n,
                n == self.clients@.len(),
                forall|j: int|
                    0 <= j < i ==> !(self.clients@[j].realm_id@ == realm_id@
                        && self.clients@[j].client_id@ == client_id@),
            decreases n - i,
        {
            let same = str_eq(self.clients[i].realm_id.as_str(), realm_id) && str_eq(
                self.clients[i].client_id.as_str(),
                client_id,
            );
            if same {
                return Some(&self.clients[i]);
            }
            i = i + 1;
        }
        None
    }

    /// Create a user in a realm; the password arrives already hashed.
    /// Refused if the realm already holds this username.
    pub fn create_user(
        &mut self,
        realm_id: &str,
        username: &str,
        email: &str,
        password_hash: &str,
        now: i64,
    ) -> (r: Result<User, StoreError>)
        requires
            old(self).wf(),
        ensures
            final(self).wf(),
            r is Ok <==> !has_username(old(self).users@, realm_id@, username@),
            r is Err ==> *final(self) == *old(self),
            r is Ok ==> {
                let u = final(self).users@.last();
                &&& final(self).users@ == old(self).users@.push(u)
                &&& u.realm_id@ == realm_id@
                &&& u.username@ == username@
                &&& u.email@ == email@
                &&& u.password_hash@ == password_hash@
                &&& u.created_at == now
                &&& u.updated_at == now
                &&& r->Ok_0 == u
            },
            final(self).realms == old(self).realms,
            final(self).signing_keys == old(self).signing_keys,
            final(self).clients == old(self).clients,
            final(self).auth_codes == old(self).auth_codes,
            final(self).refresh_tokens == old(self).refresh_tokens,
            final(self).sessions == old(self).sessions,
    {
        let n = self.users.len();
        let mut i: usize = 0;
        while i < n
            invariant
                i <= n,
                *self == *old(self),
                old(self).wf(),
                n == self.users@.len(),
                forall|j: int|
                    0 <= j < i ==> !(self.users@[j].realm_id@ == realm_id@
                        && self.users@[j].username@ == username@),
            decreases n - i,
        {
            let same = str_eq(self.users[i].realm_id.as_str(), realm_id) && str_eq(
                self.users[i].username.as_str(),
                username,
            );
            if same {
                return Err(StoreError::Conflict);
            }
            i = i + 1;
        }
        let rec = User {
            id: new_uuid(),
            realm_id: String::from_str(realm_id),
            username: String::from_str(username),
            email: String::from_str(email),
            password_hash: String::from_str(password_hash),
            created_at: now,
            updated_at: now,
        };
        let ret = rec.dup();
        self.users.push(rec);
        Ok(ret)
    }

    /// Look up a user by realm and username.
    pub fn get_user_by_username(&self, realm_id: &str, username: &str) -> (r: Option<&User>)
        ensures
            r is Some <==> has_username(self.users@, realm_id@, username@),
            r is Some ==> exists|i: int|
                0 <= i < self.users@.len() && *r->Some_0 == self.users@[i]
                    && self.users@[i].realm_id@ == realm_id@ && self.users@[i].username@
                    == username@,
    {
        let n = self.users.len();
        let mut i: usize = 0;
        while i < n
            invariant
                i <= n,
                n == self.users@.len(),
                forall|j: int|
                    0 <= j < i ==> !(self.users@[j].realm_id@ == realm_id@
                        && self.users@[j].username@ == username@),
            decreases n - i,
        {
            let same = str_eq(self.users[i].realm_id.as_str(), realm_id) && str_eq(
                self.users[i].username.as_str(),
                username,
            );
            if same {
                return Some(&self.users[i]);
            }
            i = i + 1;
        }
        None
    }

    /// Look up a user by id (the first matching row).
    pub fn get_user_by_id(&self, user_id: &str) -> (r: Option<&User>)
        ensures
            r is Some <==> exists|i: int|
                0 <= i < self.users@.len() && self.users@[i].id@ == user_id@,
            r is Some ==> exists|i: int|
                #![trigger self.users@[i]]
                0 <= i < self.users@.len() && *r->Some_0 == self.users@[i] && self.users@[i].id@
                    == user_id@ && (forall|j: int| 0 <= j < i ==> self.users@[j].id@ != user_id@),
    {
        let n = self.users.len();
        let mut i: usize = 0;
        while i < n
            invariant
                i <= n,
                n == self.users@.len(),
                forall|j: int| 0 <= j < i ==> self.users@[j].id@ != user_id@,
            decreases n - i,
        {
            if str_eq(self.users[i].id.as_str(), user_id) {
                return Some(&self.users[i]);
            }
            i = i + 1;
        }
        None
    }

    /// Set a new password hash on every user row with this id.
    pub fn update_password(&mut self, user_id: &str, new_hash: &str, now: i64)
        requires
            old(self).wf(),
        ensures
            final(self).wf(),
            final(self).users@.len() == old(self).users@.len(),
            forall|i: int|
                0 <= i < old(self).users@.len() ==> {
                    let o = #[trigger] old(self).users@[i];
                    let u = final(self).users@[i];
                    &&& u.id == o.id
                    &&& u.realm_id == o.realm_id
                    &&& u.username == o.username
                    &&& u.email == o.email
                    &&& u.created_at == o.created_at
                    &&& (o.id@ == user_id@ ==> u.password_hash@ == new_hash@ && u.updated_at == now)
                    &&& (o.id@ != user_id@ ==> u == o)
                },
            final(self).realms == old(self).realms,
            final(self).signing_keys == old(self).signing_keys,
            final(self).clients == old(self).clients,
            final(self).auth_codes == old(self).auth_codes,
            final(self).refresh_tokens == old(self).refresh_tokens,
            final(self).sessions == old(self).sessions,
    {
        let n = self.users.len();
        let mut i: usize = 0;
        while i < n
            invariant
                i <= n,
                old(self).wf(),
                n == self.users@.len(),
                n == old(self).users@.len(),
                self.realms == old(self).realms,
                self.signing_keys == old(self).signing_keys,
                self.clients == old(self).clients,
                self.auth_codes == old(self).auth_codes,
                self.refresh_tokens == old(self).refresh_tokens,
                self.sessions == old(self).sessions,
                forall|j: int|
                    0 <= j < n ==> {
                        let o = #[trigger] old(self).users@[j];
                        let u = self.users@[j];
                        &&& u.id == o.id
                        &&& u.realm_id == o.realm_id
                        &&& u.username == o.username
                        &&& u.email == o.email
                        &&& u.created_at == o.created_at
                        &&& (j < i && o.id@ == user_id@ ==> u.password_hash@ == new_hash@
                            && u.updated_at == now)
                        &&& (j >= i || o.id@ != user_id@ ==> u == o)
                    },
            decreases n - i,
        {
            if str_eq(self.users[i].id.as_str(), user_id) {
                self.users[i].password_hash = String::from_str(new_hash);
                self.users[i].updated_at = now;
            }
            i = i + 1;
        }
        proof {
            assert forall|p: int, q: int| 0 <= p < q < self.users@.len() implies !(self.users@[p].realm_id@
                == self.users@[q].realm_id@ && self.users@[p].username@
                == self.users@[q].username@) by {
                assert(self.users@[p].username == old(self).users@[p].username);
                assert(self.users@[q].username == old(self).users@[q].username);
                assert(self.users@[p].realm_id == old(self).users@[p].realm_id);
                assert(self.users@[q].realm_id == old(self).users@[q].realm_id);
            }
        }
    }

    /// The signing key used for new tokens: the most recently created
    /// active key of the realm.
    pub fn get_active_signing_key(&self, realm_id: &str) -> (r: Option<&SigningKeyRecord>)
        ensures
            r is Some <==> has_active_key(self.signing_keys@, realm_id@),
            r is Some ==> {
                let k = *r->Some_0;
                &&& exists|i: int| 0 <= i < self.signing_keys@.len() && k == self.signing_keys@[i]
                &&& k.active
                &&& k.realm_id@ == realm_id@
                &&& forall|j: int|
                    0 <= j < self.signing_keys@.len() && self.signing_keys@[j].active
                        && self.signing_keys@[j].realm_id@ == realm_id@
                        ==> self.signing_keys@[j].created_at <= k.created_at
            },
    {
        let n = self.signing_keys.len();
        let mut best: Option<usize> = None;
        let mut i: usize = 0;
        while i < n
            invariant
                i <= n,
                n == self.signing_keys@.len(),
                best is None ==> forall|j: int|
                    0 <= j < i ==> !(self.signing_keys@[j].active
                        && self.signing_keys@[j].realm_id@ == realm_id@),
                best is Some ==> {
                    let b = best->Some_0 as int;
                    &&& 0 <= b < i
                    &&& self.signing_keys@[b].active
                    &&& self.signing_keys@[b].realm_id@ == realm_id@
                    &&& forall|j: int|
                        0 <= j < i && self.signing_keys@[j].active
                            && self.signing_keys@[j].realm_id@ == realm_id@
                            ==> self.signing_keys@[j].created_at
                            <= self.signing_keys@[b].created_at
                },
            decreases n - i,
        {
            let candidate = self.signing_keys[i].active && str_eq(
                self.signing_keys[i].realm_id.as_str(),
                realm_id,
            );
            if candidate {
                match best {
                    None => {
                        best = Some(i);
                    },
                    Some(b) => {
                        if self.signing_keys[i].created_at > self.signing_keys[b].created_at {
                            best = Some(i);
                        }
                    },
                }
            }
            i = i + 1;
        }
        match best {
            Some(b) => Some(&self.signing_keys[b]),
            None => None,
        }
    }
}

/// The active keys of a realm, in creation order.
pub open spec fn active_keys_of(
    keys: Seq<SigningKeyRecord>,
    realm_id: Seq<char>,
) -> Seq<SigningKeyRecord>
    decreases keys.len(),
{
    if keys.len() == 0 {
        Seq::empty()
    } else {
        let rest = active_keys_of(keys.drop_last(), realm_id);
        if keys.last().active && keys.last().realm_id@ == realm_id {
            rest.push(keys.last())
        } else {
            rest
        }
    }
}

/// A key sequence all of one realm, all active, ordered most recently
/// created first.
pub open spec fn keys_ok(s: Seq<SigningKeyRecord>, realm_id: Seq<char>) -> bool {
    &&& forall|j: int| 0 <= j < s.len() ==> (#[trigger] s[j]).active && s[j].realm_id@ == realm_id
    &&& forall|i: int, j: int| 0 <= i < j < s.len() ==> s[i].created_at >= s[j].created_at
}

/// Insert a key into a most-recent-first sequence: it goes before the
/// first strictly older key, after any key of the same instant.
pub open spec fn insert_by_created_desc(
    s: Seq<SigningKeyRecord>,
    k: SigningKeyRecord,
) -> Seq<SigningKeyRecord>
    decreases s.len(),
{
    if s.len() == 0 {
        seq![k]
    } else if k.created_at > s[0].created_at {
        seq![k] + s
    } else {
        seq![s[0]] + insert_by_created_desc(s.skip(1), k)
    }
}

/// The active keys of a realm, most recently created first (keys of one
/// instant in creation order).
pub open spec fn newest_active_keys_of(
    keys: Seq<SigningKeyRecord>,
    realm_id: Seq<char>,
) -> Seq<SigningKeyRecord>
    decreases keys.len(),
{
    if keys.len() == 0 {
        Seq::empty()
    } else {
        let rest = newest_active_keys_of(keys.drop_last(), realm_id);
        if keys.last().active && keys.last().realm_id@ == realm_id {
            insert_by_created_desc(rest, keys.last())
        } else {
            rest
        }
    }
}

/// Inserting a key of the realm into an ordered key sequence keeps it
/// ordered, adds exactly that key to its contents, and introduces no other
/// element.
pub proof fn lemma_insert_desc_ok(s: Seq<SigningKeyRecord>, k: SigningKeyRecord, realm_id: Seq<char>)
    requires
        keys_ok(s, realm_id),
        k.active,
        k.realm_id@ == realm_id,
    ensures
        keys_ok(insert_by_created_desc(s, k), realm_id),
        insert_by_created_desc(s, k).len() == s.len() + 1,
        insert_by_created_desc(s, k).to_multiset() == s.to_multiset().insert(k),
        forall|j: int|
            0 <= j < insert_by_created_desc(s, k).len() ==> (#[trigger] insert_by_created_desc(
                s,
                k,
            )[j]) == k || s.contains(insert_by_created_desc(s, k)[j]),
        insert_by_created_desc(s, k).contains(k),
        forall|x: SigningKeyRecord| s.contains(x) ==> #[trigger] insert_by_created_desc(
            s,
            k,
        ).contains(x),
    decreases s.len(),
{
    broadcast use vstd::seq_lib::group_to_multiset_ensures;
    broadcast use vstd::multiset::group_multiset_axioms;

    let ins = insert_by_created_desc(s, k);
    if s.len() == 0 {
        assert(ins =~= Seq::empty().push(k));
        assert(Seq::<SigningKeyRecord>::empty().to_multiset() =~= Multiset::empty());
        assert(ins.to_multiset() =~= s.to_multiset().insert(k));
        assert(ins.contains(k)) by {
            assert(ins[0] == k);
        }
    } else if k.created_at > s[0].created_at {
        assert(ins =~= seq![k] + s);
        assert(ins.remove(0) =~= s);
        assert(ins[0] == k);
        assert(s.to_multiset() =~= ins.to_multiset().remove(k));
        assert(ins.contains(k)) by {
            assert(ins[0] == k);
        }
        assert(ins.to_multiset().count(k) > 0);
        assert forall|a: SigningKeyRecord|
            ins.to_multiset().count(a) == s.to_multiset().insert(k).count(a) by {
            if a == k {
                assert(ins.to_multiset().remove(k).count(k) + 1 == ins.to_multiset().count(k));
            }
        }
        assert(ins.to_multiset() =~= s.to_multiset().insert(k));
        assert forall|j: int| 0 <= j < ins.len() implies (#[trigger] ins[j]) == k || s.contains(
            ins[j],
        ) by {
            if j > 0 {
                assert(ins[j] == s[j - 1]);
            }
        }
        assert forall|x: SigningKeyRecord| s.contains(x) implies #[trigger] ins.contains(x) by {
            let m = choose|m: int| 0 <= m < s.len() && s[m] == x;
            assert(ins[m + 1] == x);
        }
        assert forall|i: int, j: int| 0 <= i < j < ins.len() implies ins[i].created_at
            >= ins[j].created_at by {
            if i > 0 {
                assert(ins[i] == s[i - 1] && ins[j] == s[j - 1]);
            } else {
                assert(ins[j] == s[j - 1]);
                if j - 1 > 0 {
                    assert(s[0].created_at >= s[j - 1].created_at);
                }
            }
        }
    } else {
        let tail = s.skip(1);
        assert forall|i: int, j: int| 0 <= i < j < tail.len() implies tail[i].created_at
            >= tail[j].created_at by {
            assert(tail[i] == s[i + 1] && tail[j] == s[j + 1]);
        }
        assert forall|j: int| 0 <= j < tail.len() implies (#[trigger] tail[j]).active
            && tail[j].realm_id@ == realm_id by {
            assert(tail[j] == s[j + 1]);
        }
        lemma_insert_desc_ok(tail, k, realm_id);
        let sub = insert_by_created_desc(tail, k);
        assert(ins =~= seq![s[0]] + sub);
        assert(ins.remove(0) =~= sub);
        assert(ins[0] == s[0]);
        assert(s.remove(0) =~= tail);
        assert(tail.to_multiset() =~= s.to_multiset().remove(s[0]));
        assert(sub.to_multiset() =~= ins.to_multiset().remove(s[0]));
        assert(ins.contains(s[0])) by {
            assert(ins[0] == s[0]);
        }
        assert(s.contains(s[0])) by {
            assert(s[0] == s[0]);
        }
        assert forall|a: SigningKeyRecord|
            ins.to_multiset().count(a) == s.to_multiset().insert(k).count(a) by {
            assert(sub.to_multiset().count(a) == tail.to_multiset().insert(k).count(a));
            if a == s[0] {
                assert(ins.to_multiset().remove(s[0]).count(a) + 1 == ins.to_multiset().count(a));
                assert(s.to_multiset().remove(s[0]).count(a) + 1 == s.to_multiset().count(a));
            }
        }
        assert(ins.to_multiset() =~= s.to_multiset().insert(k));
        assert forall|j: int| 0 <= j < ins.len() implies (#[trigger] ins[j]) == k || s.contains(
            ins[j],
        ) by {
            if j > 0 {
                assert(ins[j] == sub[j - 1]);
                if sub[j - 1] != k {
                    assert(tail.contains(sub[j - 1]));
                    let m = choose|m: int| 0 <= m < tail.len() && tail[m] == sub[j - 1];
                    assert(s[m + 1] == sub[j - 1]);
                }
            }
        }
        assert forall|x: SigningKeyRecord| s.contains(x) implies #[trigger] ins.contains(x) by {
            let m = choose|m: int| 0 <= m < s.len() && s[m] == x;
            if m == 0 {
                assert(ins[0] == x);
            } else {
                assert(tail[m - 1] == x);
                assert(sub.contains(x));
                let p = choose|p: int| 0 <= p < sub.len() && sub[p] == x;
                assert(ins[p + 1] == x);
            }
        }
        assert forall|i: int, j: int| 0 <= i < j < ins.len() implies ins[i].created_at
            >= ins[j].created_at by {
            if i > 0 {
                assert(ins[i] == sub[i - 1] && ins[j] == sub[j - 1]);
            } else {
                assert(ins[j] == sub[j - 1]);
                if sub[j - 1] == k {
                    assert(s[0].created_at >= k.created_at);
                } else {
                    assert(tail.contains(sub[j - 1]));
                    let m = choose|m: int| 0 <= m < tail.len() && tail[m] == sub[j - 1];
                    assert(s[m + 1] == sub[j - 1]);
                    if m + 1 > 0 {
                        assert(s[0].created_at >= s[m + 1].created_at);
                    }
                }
            }
        }
    }
}

/// The most-recent-first view of a realm's active keys is ordered, holds
/// only active keys of the realm, and holds exactly the same rows as the
/// creation-order view.
pub proof fn lemma_newest_keys_ok(keys: Seq<SigningKeyRecord>, realm_id: Seq<char>)
    ensures
        keys_ok(newest_active_keys_of(keys, realm_id), realm_id),
        newest_active_keys_of(keys, realm_id).to_multiset() == active_keys_of(
            keys,
            realm_id,
        ).to_multiset(),
        forall|i: int|
            0 <= i < keys.len() && (#[trigger] keys[i]).active && keys[i].realm_id@ == realm_id
                ==> newest_active_keys_of(keys, realm_id).contains(keys[i]),
        forall|j: int|
            0 <= j < newest_active_keys_of(keys, realm_id).len() ==> exists|i: int|
                0 <= i < keys.len() && #[trigger] newest_active_keys_of(keys, realm_id)[j]
                    == keys[i],
    decreases keys.len(),
{
    broadcast use vstd::seq_lib::group_to_multiset_ensures;
    broadcast use vstd::multiset::group_multiset_axioms;

    if keys.len() > 0 {
        let dl = keys.drop_last();
        lemma_newest_keys_ok(dl, realm_id);
        let rest = newest_active_keys_of(dl, realm_id);
        let arest = active_keys_of(dl, realm_id);
        if keys.last().active && keys.last().realm_id@ == realm_id {
            lemma_insert_desc_ok(rest, keys.last(), realm_id);
            assert(active_keys_of(keys, realm_id) == arest.push(keys.last()));
            assert(arest.push(keys.last()).to_multiset() =~= arest.to_multiset().insert(
                keys.last(),
            ));
            assert(newest_active_keys_of(keys, realm_id).to_multiset() =~= active_keys_of(
                keys,
                realm_id,
            ).to_multiset());
        }
        assert forall|i: int|
            0 <= i < keys.len() && (#[trigger] keys[i]).active && keys[i].realm_id@ == realm_id
                implies newest_active_keys_of(keys, realm_id).contains(keys[i]) by {
            if i < keys.len() - 1 {
                assert(dl[i] == keys[i]);
                assert(rest.contains(keys[i]));
            } else {
                assert(keys[i] == keys.last());
            }
        }
        let whole = newest_active_keys_of(keys, realm_id);
        assert forall|j: int| 0 <= j < whole.len() implies exists|i: int|
            0 <= i < keys.len() && #[trigger] whole[j] == keys[i] by {
            if keys.last().active && keys.last().realm_id@ == realm_id {
                if whole[j] == keys.last() {
                    assert(whole[j] == keys[keys.len() - 1]);
                } else {
                    assert(rest.contains(whole[j]));
                    let m = choose|m: int| 0 <= m < rest.len() && rest[m] == whole[j];
                    let i0 = choose|i0: int| 0 <= i0 < dl.len() && rest[m] == dl[i0];
                    assert(whole[j] == keys[i0]);
                }
            } else {
                let i0 = choose|i0: int| 0 <= i0 < dl.len() && rest[j] == dl[i0];
                assert(whole[j] == keys[i0]);
            }
        }
    }
}

proof fn lemma_insert_desc_split(s: Seq<SigningKeyRecord>, k: SigningKeyRecord, idx: int)
    requires
        0 <= idx <= s.len(),
        forall|j: int| 0 <= j < idx ==> (#[trigger] s[j]).created_at >= k.created_at,
        idx < s.len() ==> s[idx].created_at < k.created_at,
    ensures
        insert_by_created_desc(s, k) == s.insert(idx, k),
    decreases idx,
{
    if idx == 0 {
        if s.len() == 0 {
            assert(insert_by_created_desc(s, k) =~= s.insert(0, k));
        } else {
            assert(k.created_at > s[0].created_at);
            assert(seq![k] + s =~= s.insert(0, k));
        }
    } else {
        assert(s[0].created_at >= k.created_at);
        let tail = s.skip(1);
        assert forall|j: int| 0 <= j < idx - 1 implies (#[trigger] tail[j]).created_at
            >= k.created_at by {
            assert(tail[j] == s[j + 1]);
        }
        assert(idx - 1 < tail.len() ==> tail[idx - 1].created_at < k.created_at);
        lemma_insert_desc_split(tail, k, idx - 1);
        assert(seq![s[0]] + tail.insert(idx - 1, k) =~= s.insert(idx, k));
    }
}

impl Store {
    /// Every currently active key of a realm (published at the JWKS
    /// endpoint so verifiers can validate tokens signed during rollover),
    /// most recently created first: the head, when there is one, is a key
    /// `get_active_signing_key` could sign with.
    pub fn get_all_active_keys(&self, realm_id: &str) -> (r: Vec<SigningKeyRecord>)
        ensures
            r@ == newest_active_keys_of(self.signing_keys@, realm_id@),
            r@.to_multiset() == active_keys_of(self.signing_keys@, realm_id@).to_multiset(),
            keys_ok(r@, realm_id@),
            forall|j: int|
                0 <= j < r@.len() ==> exists|i: int|
                    0 <= i < self.signing_keys@.len() && #[trigger] r@[j]
                        == self.signing_keys@[i],
            r@.len() > 0 ==> forall|i: int|
                0 <= i < self.signing_keys@.len() && (#[trigger] self.signing_keys@[i]).active
                    && self.signing_keys@[i].realm_id@ == realm_id@
                    ==> self.signing_keys@[i].created_at <= r@[0].created_at,
    {
        let n = self.signing_keys.len();
        let mut out: Vec<SigningKeyRecord> = Vec::new();
        let mut i: usize = 0;
        while i < n
            invariant
                i <= n,
                n == self.signing_keys@.len(),
                out@ == newest_active_keys_of(self.signing_keys@.take(i as int), realm_id@),
            decreases n - i,
        {
            proof {
                assert(self.signing_keys@.take(i + 1 as int).drop_last() =~= self.signing_keys@.take(
                    i as int,
                ));
                assert(self.signing_keys@.take(i + 1 as int).last() == self.signing_keys@[i as int]);
            }
            let candidate = self.signing_keys[i].active && str_eq(
                self.signing_keys[i].realm_id.as_str(),
                realm_id,
            );
            if candidate {
                let k = self.signing_keys[i].dup();
                let mut idx: usize = 0;
                while idx < out.len() && out[idx].created_at >= k.created_at
                    invariant
                        idx <= out@.len(),
                        k == self.signing_keys@[i as int],
                        forall|j: int| 0 <= j < idx ==> (#[trigger] out@[j]).created_at >= k.created_at,
                        out@ == newest_active_keys_of(self.signing_keys@.take(i as int), realm_id@),
                        i < n,
                        n == self.signing_keys@.len(),
                    decreases out@.len() - idx,
                {
                    idx = idx + 1;
                }
                proof {
                    lemma_insert_desc_split(out@, k, idx as int);
                }
                out.insert(idx, k);
                proof {
                    assert(out@ =~= insert_by_created_desc(
                        newest_active_keys_of(self.signing_keys@.take(i as int), realm_id@),
                        self.signing_keys@[i as int],
                    ));
                }
            }
            i = i + 1;
        }
        proof {
            assert(self.signing_keys@.take(n as int) =~= self.signing_keys@);
            lemma_newest_keys_ok(self.signing_keys@, realm_id@);
            if out@.len() > 0 {
                assert forall|j: int|
                    0 <= j < self.signing_keys@.len() && (#[trigger] self.signing_keys@[j]).active
                        && self.signing_keys@[j].realm_id@ == realm_id@
                        implies self.signing_keys@[j].created_at <= out@[0].created_at by {
                    assert(out@.contains(self.signing_keys@[j]));
                    let m = choose|m: int| 0 <= m < out@.len() && out@[m] == self.signing_keys@[j];
                    if m > 0 {
                        assert(out@[0].created_at >= out@[m].created_at);
                    }
                }
            }
        }
        out
    }
}

/// Insert an element into a sequence ordered by `le`: it goes before the
/// first element strictly above it, after any element it ties with.
pub open spec fn insert_le<T>(s: Seq<T>, x: T, le: spec_fn(T, T) -> bool) -> Seq<T>
    decreases s.len(),
{
    if s.len() == 0 {
        seq![x]
    } else if le(s[0], x) {
        seq![s[0]] + insert_le(s.skip(1), x, le)
    } else {
        seq![x] + s
    }
}

/// Where the ordered insertion lands: at the first index whose element is
/// not at most the new one.
pub proof fn lemma_insert_le_split<T>(s: Seq<T>, x: T, le: spec_fn(T, T) -> bool, idx: int)
    requires
        0 <= idx <= s.len(),
        forall|j: int| 0 <= j < idx ==> le(#[trigger] s[j], x),
        idx < s.len() ==> !le(s[idx], x),
    ensures
        insert_le(s, x, le) == s.insert(idx, x),
    decreases idx,
{
    if idx == 0 {
        if s.len() == 0 {
            assert(insert_le(s, x, le) =~= s.insert(0, x));
        } else {
            assert(!le(s[0], x));
            assert(seq![x] + s =~= s.insert(0, x));
        }
    } else {
        assert(le(s[0], x));
        let tail = s.skip(1);
        assert forall|j: int| 0 <= j < idx - 1 implies le(#[trigger] tail[j], x) by {
            assert(tail[j] == s[j + 1]);
        }
        lemma_insert_le_split(tail, x, le, idx - 1);
        assert(seq![s[0]] + tail.insert(idx - 1, x) =~= s.insert(idx, x));
    }
}

/// Realms ordered by name.
pub open spec fn realm_name_le() -> spec_fn(Realm, Realm) -> bool {
    |a: Realm, b: Realm| lex_le(a.name@, b.name@)
}

/// All realms, ordered by name (ties in creation order).
pub open spec fn realms_by_name(realms: Seq<Realm>) -> Seq<Realm>
    decreases realms.len(),
{
    if realms.len() == 0 {
        Seq::empty()
    } else {
        insert_le(realms_by_name(realms.drop_last()), realms.last(), realm_name_le())
    }
}

/// Users ordered by username.
pub open spec fn username_le() -> spec_fn(User, User) -> bool {
    |a: User, b: User| lex_le(a.username@, b.username@)
}

/// The users of a realm, ordered by username (ties in creation order).
pub open spec fn users_by_username(users: Seq<User>, realm_id: Seq<char>) -> Seq<User>
    decreases users.len(),
{
    if users.len() == 0 {
        Seq::empty()
    } else {
        let rest = users_by_username(users.drop_last(), realm_id);
        if users.last().realm_id@ == realm_id {
            insert_le(rest, users.last(), username_le())
        } else {
            rest
        }
    }
}

/// Clients ordered by client_id.
pub open spec fn client_id_le() -> spec_fn(Client, Client) -> bool {
    |a: Client, b: Client| lex_le(a.client_id@, b.client_id@)
}

/// The clients of a realm, ordered by client_id (ties in creation order).
pub open spec fn clients_by_client_id(clients: Seq<Client>, realm_id: Seq<char>) -> Seq<Client>
    decreases clients.len(),
{
    if clients.len() == 0 {
        Seq::empty()
    } else {
        let rest = clients_by_client_id(clients.drop_last(), realm_id);
        if clients.last().realm_id@ == realm_id {
            insert_le(rest, clients.last(), client_id_le())
        } else {
            rest
        }
    }
}

/// Field-wise equality of client records (lists compared by contents).
pub open spec fn client_eq(a: Client, b: Client) -> bool {
    &&& a.id == b.id
    &&& a.realm_id == b.realm_id
    &&& a.client_id == b.client_id
    &&& a.redirect_uris@ == b.redirect_uris@
    &&& a.allowed_scopes@ == b.allowed_scopes@
    &&& a.created_at == b.created_at
}

impl Store {
    /// Every realm, ordered by name.
    pub fn list_realms(&self) -> (r: Vec<Realm>)
        ensures
            r@ == realms_by_name(self.realms@),
    {
        let mut out: Vec<Realm> = Vec::new();
        let mut i: usize = 0;
        while i < self.realms.len()
            invariant
                i <= self.realms@.len(),
                out@ == realms_by_name(self.realms@.take(i as int)),
            decreases self.realms@.len() - i,
        {
            proof {
                assert(self.realms@.take(i + 1 as int).drop_last() =~= self.realms@.take(i as int));
                assert(self.realms@.take(i + 1 as int).last() == self.realms@[i as int]);
            }
            let k = self.realms[i].dup();
            let mut idx: usize = 0;
            while idx < out.len() && str_le(out[idx].name.as_str(), k.name.as_str())
                invariant
                    idx <= out@.len(),
                    k == self.realms@[i as int],
                    i < self.realms@.len(),
                    forall|j: int| 0 <= j < idx ==> lex_le((#[trigger] out@[j]).name@, k.name@),
                    out@ == realms_by_name(self.realms@.take(i as int)),
                decreases out@.len() - idx,
            {
                idx = idx + 1;
            }
            proof {
                lemma_insert_le_split(out@, k, realm_name_le(), idx as int);
            }
            out.insert(idx, k);
            proof {
                assert(out@ =~= realms_by_name(self.realms@.take(i + 1 as int)));
            }
            i = i + 1;
        }
        proof {
            assert(self.realms@.take(self.realms@.len() as int) =~= self.realms@);
        }
        out
    }

    /// Every user of a realm, ordered by username.
    pub fn list_users(&self, realm_id: &str) -> (r: Vec<User>)
        ensures
            r@ == users_by_username(self.users@, realm_id@),
    {
        let mut out: Vec<User> = Vec::new();
        let mut i: usize = 0;
        while i < self.users.len()
            invariant
                i <= self.users@.len(),
                out@ == users_by_username(self.users@.take(i as int), realm_id@),
            decreases self.users@.len() - i,
        {
            proof {
                assert(self.users@.take(i + 1 as int).drop_last() =~= self.users@.take(i as int));
                assert(self.users@.take(i + 1 as int).last() == self.users@[i as int]);
            }
            if str_eq(self.users[i].realm_id.as_str(), realm_id) {
                let k = self.users[i].dup();
                let mut idx: usize = 0;
                while idx < out.len() && str_le(out[idx].username.as_str(), k.username.as_str())
                    invariant
                        idx <= out@.len(),
                        k == self.users@[i as int],
                        i < self.users@.len(),
                        forall|j: int|
                            0 <= j < idx ==> lex_le((#[trigger] out@[j]).username@, k.username@),
                        out@ == users_by_username(self.users@.take(i as int), realm_id@),
                    decreases out@.len() - idx,
                {
                    idx = idx + 1;
                }
                proof {
                    lemma_insert_le_split(out@, k, username_le(), idx as int);
                }
                out.insert(idx, k);
                proof {
                    assert(out@ =~= users_by_username(self.users@.take(i + 1 as int), realm_id@));
                }
            }
            i = i + 1;
        }
        proof {
            assert(self.users@.take(self.users@.len() as int) =~= self.users@);
        }
        out
    }

    /// Every client of a realm, ordered by client_id (lists compared by
    /// contents).
    pub fn list_clients(&self, realm_id: &str) -> (r: Vec<Client>)
        ensures
            r@.len() == clients_by_client_id(self.clients@, realm_id@).len(),
            forall|i: int|
                0 <= i < r@.len() ==> client_eq(
                    #[trigger] r@[i],
                    clients_by_client_id(self.clients@, realm_id@)[i],
                ),
    {
        let mut out: Vec<Client> = Vec::new();
        let mut i: usize = 0;
        while i < self.clients.len()
            invariant
                i <= self.clients@.len(),
                out@.len() == clients_by_client_id(self.clients@.take(i as int), realm_id@).len(),
                forall|j: int|
                    0 <= j < out@.len() ==> client_eq(
                        #[trigger] out@[j],
                        clients_by_client_id(self.clients@.take(i as int), realm_id@)[j],
                    ),
            decreases self.clients@.len() - i,
        {
            proof {
                assert(self.clients@.take(i + 1 as int).drop_last() =~= self.clients@.take(
                    i as int,
                ));
                assert(self.clients@.take(i + 1 as int).last() == self.clients@[i as int]);
            }
            if str_eq(self.clients[i].realm_id.as_str(), realm_id) {
                let ghost spec_prev = clients_by_client_id(self.clients@.take(i as int), realm_id@);
                let ghost orig = self.clients@[i as int];
                let k = self.clients[i].dup();
                let mut idx: usize = 0;
                while idx < out.len() && str_le(out[idx].client_id.as_str(), k.client_id.as_str())
                    invariant
                        idx <= out@.len(),
                        client_eq(k, self.clients@[i as int]),
                        i < self.clients@.len(),
                        forall|j: int|
                            0 <= j < idx ==> lex_le((#[trigger] out@[j]).client_id@, k.client_id@),
                        out@.len() == clients_by_client_id(
                            self.clients@.take(i as int),
                            realm_id@,
                        ).len(),
                        forall|j: int|
                            0 <= j < out@.len() ==> client_eq(
                                #[trigger] out@[j],
                                clients_by_client_id(self.clients@.take(i as int), realm_id@)[j],
                            ),
                    decreases out@.len() - idx,
                {
                    idx = idx + 1;
                }
                proof {
                    assert forall|j: int| 0 <= j < idx implies client_id_le()(
                        #[trigger] spec_prev[j],
                        orig,
                    ) by {
                        assert(client_eq(out@[j], spec_prev[j]));
                        assert(out@[j].client_id@ == spec_prev[j].client_id@);
                    }
                    if (idx as int) < spec_prev.len() {
                        assert(client_eq(out@[idx as int], spec_prev[idx as int]));
                        assert(!client_id_le()(spec_prev[idx as int], orig));
                    }
                    lemma_insert_le_split(spec_prev, orig, client_id_le(), idx as int);
                }
                let ghost out_prev = out@;
                out.insert(idx, k);
                proof {
                    let spec_next = clients_by_client_id(
                        self.clients@.take(i + 1 as int),
                        realm_id@,
                    );
                    assert(spec_next == spec_prev.insert(idx as int, orig));
                    assert(out@.len() == spec_next.len());
                    assert forall|j: int| 0 <= j < out@.len() implies client_eq(
                        #[trigger] out@[j],
                        spec_next[j],
                    ) by {
                        if j < idx {
                            assert(out@[j] == out_prev[j]);
                            assert(spec_next[j] == spec_prev[j]);
                        } else if j == idx {
                            assert(out@[j] == k);
                            assert(spec_next[j] == orig);
                        } else {
                            assert(out@[j] == out_prev[j - 1]);
                            assert(spec_next[j] == spec_prev[j - 1]);
                        }
                    }
                }
            }
            i = i + 1;
        }
        proof {
            assert(self.clients@.take(self.clients@.len() as int) =~= self.clients@);
        }
        out
    }
}

/// Rows outside a realm, per table: the predicates the cascade keeps.
pub open spec fn user_not_in_realm(rid: Seq<char>) -> spec_fn(User) -> bool {
    |u: User| u.realm_id@ != rid
}

/// Clients outside a realm.
pub open spec fn client_not_in_realm(rid: Seq<char>) -> spec_fn(Client) -> bool {
    |c: Client| c.realm_id@ != rid
}

/// Signing keys outside a realm.
pub open spec fn key_not_in_realm(rid: Seq<char>) -> spec_fn(SigningKeyRecord) -> bool {
    |k: SigningKeyRecord| k.realm_id@ != rid
}

/// Authorization codes outside a realm.
pub open spec fn code_not_in_realm(rid: Seq<char>) -> spec_fn(AuthorizationCode) -> bool {
    |c: AuthorizationCode| c.realm_id@ != rid
}

/// Refresh tokens outside a realm.
pub open spec fn token_not_in_realm(rid: Seq<char>) -> spec_fn(RefreshToken) -> bool {
    |t: RefreshToken| t.realm_id@ != rid
}

/// Sessions outside a realm.
pub open spec fn session_not_in_realm(rid: Seq<char>) -> spec_fn(Session) -> bool {
    |s: Session| s.realm_id@ != rid
}

/// Realms not carrying a name.
pub open spec fn realm_not_named(name: Seq<char>) -> spec_fn(Realm) -> bool {
    |x: Realm| x.name@ != name
}

/// Users other than one of a realm.
pub open spec fn user_not_named(rid: Seq<char>, username: Seq<char>) -> spec_fn(User) -> bool {
    |u: User| !(u.realm_id@ == rid && u.username@ == username)
}

/// Clients other than one of a realm.
pub open spec fn client_not_keyed(rid: Seq<char>, client_id: Seq<char>) -> spec_fn(Client) -> bool {
    |c: Client| !(c.realm_id@ == rid && c.client_id@ == client_id)
}

/// Rebuild a vector of users, keeping only rows outside the given realm.
fn retain_users_not_realm(v: &mut Vec<User>, realm_id: &str)
    ensures
        final(v)@ == keeping(old(v)@, user_not_in_realm(realm_id@)),
{
    let mut out: Vec<User> = Vec::new();
    let mut i: usize = 0;
    while i < v.len()
        invariant
            i <= v@.len(),
            *v == *old(v),
            out@ == keeping(old(v)@.take(i as int), user_not_in_realm(realm_id@)),
        decreases v@.len() - i,
    {
        proof {
            assert(old(v)@.take(i + 1 as int).drop_last() =~= old(v)@.take(i as int));
            assert(old(v)@.take(i + 1 as int).last() == old(v)@[i as int]);
        }
        if !str_eq(v[i].realm_id.as_str(), realm_id) {
            out.push(v[i].dup());
        }
        i = i + 1;
    }
    proof {
        assert(old(v)@.take(old(v)@.len() as int) =~= old(v)@);
    }
    *v = out;
}

/// Rebuild a vector of clients, keeping only rows outside the given realm.
fn retain_clients_not_realm(v: &mut Vec<Client>, realm_id: &str)
    ensures
        final(v)@.len() == keeping(old(v)@, client_not_in_realm(realm_id@)).len(),
        forall|i: int|
            0 <= i < final(v)@.len() ==> client_eq(
                #[trigger] final(v)@[i],
                keeping(old(v)@, client_not_in_realm(realm_id@))[i],
            ),
{
    let mut out: Vec<Client> = Vec::new();
    let mut i: usize = 0;
    while i < v.len()
        invariant
            i <= v@.len(),
            *v == *old(v),
            out@.len() == keeping(old(v)@.take(i as int), client_not_in_realm(realm_id@)).len(),
            forall|j: int|
                0 <= j < out@.len() ==> client_eq(
                    #[trigger] out@[j],
                    keeping(old(v)@.take(i as int), client_not_in_realm(realm_id@))[j],
                ),
        decreases v@.len() - i,
    {
        proof {
            assert(old(v)@.take(i + 1 as int).drop_last() =~= old(v)@.take(i as int));
            assert(old(v)@.take(i + 1 as int).last() == old(v)@[i as int]);
        }
        if !str_eq(v[i].realm_id.as_str(), realm_id) {
            out.push(v[i].dup());
        }
        i = i + 1;
    }
    proof {
        assert(old(v)@.take(old(v)@.len() as int) =~= old(v)@);
    }
    *v = out;
}

/// Rebuild a vector of signing keys, keeping only rows outside the realm.
fn retain_keys_not_realm(v: &mut Vec<SigningKeyRecord>, realm_id: &str)
    ensures
        final(v)@ == keeping(old(v)@, key_not_in_realm(realm_id@)),
{
    let mut out: Vec<SigningKeyRecord> = Vec::new();
    let mut i: usize = 0;
    while i < v.len()
        invariant
            i <= v@.len(),
            *v == *old(v),
            out@ == keeping(old(v)@.take(i as int), key_not_in_realm(realm_id@)),
        decreases v@.len() - i,
    {
        proof {
            assert(old(v)@.take(i + 1 as int).drop_last() =~= old(v)@.take(i as int));
            assert(old(v)@.take(i + 1 as int).last() == old(v)@[i as int]);
        }
        if !str_eq(v[i].realm_id.as_str(), realm_id) {
            out.push(v[i].dup());
        }
        i = i + 1;
    }
    proof {
        assert(old(v)@.take(old(v)@.len() as int) =~= old(v)@);
    }
    *v = out;
}

/// Rebuild a vector of authorization codes, keeping rows outside the realm.
fn retain_codes_not_realm(v: &mut Vec<AuthorizationCode>, realm_id: &str)
    ensures
        final(v)@ == keeping(old(v)@, code_not_in_realm(realm_id@)),
{
    let mut out: Vec<AuthorizationCode> = Vec::new();
    let mut i: usize = 0;
    while i < v.len()
        invariant
            i <= v@.len(),
            *v == *old(v),
            out@ == keeping(old(v)@.take(i as int), code_not_in_realm(realm_id@)),
        decreases v@.len() - i,
    {
        proof {
            assert(old(v)@.take(i + 1 as int).drop_last() =~= old(v)@.take(i as int));
            assert(old(v)@.take(i + 1 as int).last() == old(v)@[i as int]);
        }
        if !str_eq(v[i].realm_id.as_str(), realm_id) {
            out.push(v[i].dup());
        }
        i = i + 1;
    }
    proof {
        assert(old(v)@.take(old(v)@.len() as int) =~= old(v)@);
    }
    *v = out;
}

/// Rebuild a vector of refresh tokens, keeping rows outside the realm.
fn retain_tokens_not_realm(v: &mut Vec<RefreshToken>, realm_id: &str)
    ensures
        final(v)@ == keeping(old(v)@, token_not_in_realm(realm_id@)),
{
    let mut out: Vec<RefreshToken> = Vec::new();
    let mut i: usize = 0;
    while i < v.len()
        invariant
            i <= v@.len(),
            *v == *old(v),
            out@ == keeping(old(v)@.take(i as int), token_not_in_realm(realm_id@)),
        decreases v@.len() - i,
    {
        proof {
            assert(old(v)@.take(i + 1 as int).drop_last() =~= old(v)@.take(i as int));
            assert(old(v)@.take(i + 1 as int).last() == old(v)@[i as int]);
        }
        if !str_eq(v[i].realm_id.as_str(), realm_id) {
            out.push(v[i].dup());
        }
        i = i + 1;
    }
    proof {
        assert(old(v)@.take(old(v)@.len() as int) =~= old(v)@);
    }
    *v = out;
}

/// Rebuild a vector of sessions, keeping rows outside the realm.
fn retain_sessions_not_realm(v: &mut Vec<Session>, realm_id: &str)
    ensures
        final(v)@ == keeping(old(v)@, session_not_in_realm(realm_id@)),
{
    let mut out: Vec<Session> = Vec::new();
    let mut i: usize = 0;
    while i < v.len()
        invariant
            i <= v@.len(),
            *v == *old(v),
            out@ == keeping(old(v)@.take(i as int), session_not_in_realm(realm_id@)),
        decreases v@.len() - i,
    {
        proof {
            assert(old(v)@.take(i + 1 as int).drop_last() =~= old(v)@.take(i as int));
            assert(old(v)@.take(i + 1 as int).last() == old(v)@[i as int]);
        }
        if !str_eq(v[i].realm_id.as_str(), realm_id) {
            out.push(v[i].dup());
        }
        i = i + 1;
    }
    proof {
        assert(old(v)@.take(old(v)@.len() as int) =~= old(v)@);
    }
    *v = out;
}

impl Store {
    /// Delete a user by realm and username; true when a row was removed.
    pub fn delete_user(&mut self, realm_id: &str, username: &str) -> (r: bool)
        requires
            old(self).wf(),
        ensures
            final(self).wf(),
            r == has_username(old(self).users@, realm_id@, username@),
            final(self).users@ == keeping(
                old(self).users@,
                user_not_named(realm_id@, username@),
            ),
            final(self).realms == old(self).realms,
            final(self).signing_keys == old(self).signing_keys,
            final(self).clients == old(self).clients,
            final(self).auth_codes == old(self).auth_codes,
            final(self).refresh_tokens == old(self).refresh_tokens,
            final(self).sessions == old(self).sessions,
    {
        let mut out: Vec<User> = Vec::new();
        let mut found = false;
        let mut i: usize = 0;
        while i < self.users.len()
            invariant
                i <= self.users@.len(),
                *self == *old(self),
                out@ == keeping(
                    self.users@.take(i as int),
                    user_not_named(realm_id@, username@),
                ),
                found == exists|j: int|
                    0 <= j < i && self.users@[j].realm_id@ == realm_id@
                        && self.users@[j].username@ == username@,
            decreases self.users@.len() - i,
        {
            proof {
                assert(self.users@.take(i + 1 as int).drop_last() =~= self.users@.take(i as int));
                assert(self.users@.take(i + 1 as int).last() == self.users@[i as int]);
            }
            let hit = str_eq(self.users[i].realm_id.as_str(), realm_id) && str_eq(
                self.users[i].username.as_str(),
                username,
            );
            if hit {
                found = true;
            } else {
                out.push(self.users[i].dup());
            }
            i = i + 1;
        }
        proof {
            assert(self.users@.take(self.users@.len() as int) =~= self.users@);
            lemma_keeping_distinct(
                old(self).users@,
                user_not_named(realm_id@, username@),
                (|u: User| (u.realm_id@, u.username@)),
            );
        }
        self.users = out;
        found
    }

    /// Delete a client by realm and client_id; true when a row was removed.
    pub fn delete_client(&mut self, realm_id: &str, client_id: &str) -> (r: bool)
        requires
            old(self).wf(),
        ensures
            final(self).wf(),
            r == has_client_id(old(self).clients@, realm_id@, client_id@),
            final(self).clients@.len() == keeping(
                old(self).clients@,
                client_not_keyed(realm_id@, client_id@),
            ).len(),
            forall|i: int|
                0 <= i < final(self).clients@.len() ==> client_eq(
                    #[trigger] final(self).clients@[i],
                    keeping(old(self).clients@, client_not_keyed(realm_id@, client_id@))[i],
                ),
            final(self).realms == old(self).realms,
            final(self).signing_keys == old(self).signing_keys,
            final(self).users == old(self).users,
            final(self).auth_codes == old(self).auth_codes,
            final(self).refresh_tokens == old(self).refresh_tokens,
            final(self).sessions == old(self).sessions,
    {
        let mut out: Vec<Client> = Vec::new();
        let mut found = false;
        let mut i: usize = 0;
        while i < self.clients.len()
            invariant
                i <= self.clients@.len(),
                *self == *old(self),
                out@.len() == keeping(
                    self.clients@.take(i as int),
                    client_not_keyed(realm_id@, client_id@),
                ).len(),
                forall|j: int|
                    0 <= j < out@.len() ==> client_eq(
                        #[trigger] out@[j],
                        keeping(
                            self.clients@.take(i as int),
                            client_not_keyed(realm_id@, client_id@),
                        )[j],
                    ),
                found == exists|j: int|
                    0 <= j < i && self.clients@[j].realm_id@ == realm_id@
                        && self.clients@[j].client_id@ == client_id@,
            decreases self.clients@.len() - i,
        {
            proof {
                assert(self.clients@.take(i + 1 as int).drop_last() =~= self.clients@.take(
                    i as int,
                ));
                assert(self.clients@.take(i + 1 as int).last() == self.clients@[i as int]);
            }
            let hit = str_eq(self.clients[i].realm_id.as_str(), realm_id) && str_eq(
                self.clients[i].client_id.as_str(),
                client_id,
            );
            if hit {
                found = true;
            } else {
                out.push(self.clients[i].dup());
            }
            i = i + 1;
        }
        proof {
            assert(self.clients@.take(self.clients@.len() as int) =~= self.clients@);
            lemma_keeping_distinct(
                old(self).clients@,
                client_not_keyed(realm_id@, client_id@),
                (|c: Client| (c.realm_id@, c.client_id@)),
            );
        }
        self.clients = out;
        proof {
            let kept = keeping(old(self).clients@, client_not_keyed(realm_id@, client_id@));
            assert forall|p: int, q: int|
                0 <= p < q < self.clients@.len() implies !(self.clients@[p].realm_id@
                == self.clients@[q].realm_id@ && self.clients@[p].client_id@
                == self.clients@[q].client_id@) by {
                assert(client_eq(self.clients@[p], kept[p]));
                assert(client_eq(self.clients@[q], kept[q]));
            }
        }
        found
    }

    /// Delete a realm by name, cascading to all of its keys, users,
    /// clients, codes, tokens and sessions; true when the realm existed.
    pub fn delete_realm(&mut self, name: &str) -> (r: bool)
        requires
            old(self).wf(),
        ensures
            final(self).wf(),
            r == has_realm_name(old(self).realms@, name@),
            !r ==> *final(self) == *old(self),
            r ==> {
                let rid = realm_named(old(self).realms@, name@).id@;
                &&& final(self).realms@ == keeping(old(self).realms@, realm_not_named(name@))
                &&& final(self).signing_keys@ == keeping(
                    old(self).signing_keys@,
                    key_not_in_realm(rid),
                )
                &&& final(self).users@ == keeping(old(self).users@, user_not_in_realm(rid))
                &&& final(self).clients@.len() == keeping(
                    old(self).clients@,
                    client_not_in_realm(rid),
                ).len()
                &&& forall|i: int|
                    0 <= i < final(self).clients@.len() ==> client_eq(
                        #[trigger] final(self).clients@[i],
                        keeping(old(self).clients@, client_not_in_realm(rid))[i],
                    )
                &&& final(self).auth_codes@ == keeping(
                    old(self).auth_codes@,
                    code_not_in_realm(rid),
                )
                &&& final(self).refresh_tokens@ == keeping(
                    old(self).refresh_tokens@,
                    token_not_in_realm(rid),
                )
                &&& final(self).sessions@ == keeping(
                    old(self).sessions@,
                    session_not_in_realm(rid),
                )
            },
    {
        let realm_id = match self.get_realm_by_name(name) {
            Some(rec) => {
                proof {
                    let i = choose|i: int|
                        0 <= i < self.realms@.len() && *rec == self.realms@[i]
                            && self.realms@[i].name@ == name@;
                    lemma_realm_named_unique(self.realms@, name@, i);
                }
                rec.id.clone()
            },
            None => {
                return false;
            },
        };
        let mut out: Vec<Realm> = Vec::new();
        let mut i: usize = 0;
        while i < self.realms.len()
            invariant
                i <= self.realms@.len(),
                *self == *old(self),
                out@ == keeping(self.realms@.take(i as int), realm_not_named(name@)),
            decreases self.realms@.len() - i,
        {
            proof {
                assert(self.realms@.take(i + 1 as int).drop_last() =~= self.realms@.take(i as int));
                assert(self.realms@.take(i + 1 as int).last() == self.realms@[i as int]);
            }
            if !str_eq(self.realms[i].name.as_str(), name) {
                out.push(self.realms[i].dup());
            }
            i = i + 1;
        }
        proof {
            assert(self.realms@.take(self.realms@.len() as int) =~= self.realms@);
            lemma_keeping_distinct(
                old(self).realms@,
                realm_not_named(name@),
                (|x: Realm| x.name@),
            );
            lemma_keeping_distinct(
                old(self).users@,
                user_not_in_realm(realm_id@),
                (|u: User| (u.realm_id@, u.username@)),
            );
            lemma_keeping_distinct(
                old(self).auth_codes@,
                code_not_in_realm(realm_id@),
                (|c: AuthorizationCode| c.code_hash@),
            );
            lemma_keeping_distinct(
                old(self).refresh_tokens@,
                token_not_in_realm(realm_id@),
                (|t: RefreshToken| t.token_hash@),
            );
            lemma_keeping_distinct(
                old(self).sessions@,
                session_not_in_realm(realm_id@),
                (|s: Session| s.session_token_hash@),
            );
            lemma_keeping_distinct(
                old(self).clients@,
                client_not_in_realm(realm_id@),
                (|c: Client| (c.realm_id@, c.client_id@)),
            );
        }
        self.realms = out;
        retain_keys_not_realm(&mut self.signing_keys, realm_id.as_str());
        retain_users_not_realm(&mut self.users, realm_id.as_str());
        retain_clients_not_realm(&mut self.clients, realm_id.as_str());
        retain_codes_not_realm(&mut self.auth_codes, realm_id.as_str());
        retain_tokens_not_realm(&mut self.refresh_tokens, realm_id.as_str());
        retain_sessions_not_realm(&mut self.sessions, realm_id.as_str());
        proof {
            let kept = keeping(old(self).clients@, client_not_in_realm(realm_id@));
            assert forall|p: int, q: int|
                0 <= p < q < self.clients@.len() implies !(self.clients@[p].realm_id@
                == self.clients@[q].realm_id@ && self.clients@[p].client_id@
                == self.clients@[q].client_id@) by {
                assert(client_eq(self.clients@[p], kept[p]));
                assert(client_eq(self.clients@[q], kept[q]));
            }
        }
        true
    }
}

/// Do all rows pass the pairwise code-hash distinctness check?
fn check_distinct_code_hashes(v: &Vec<AuthorizationCode>) -> (r: bool)
    ensures
        r == distinct_code_hashes(v@),
{
    let n = v.len();
    let mut i: usize = 0;
    while i < n
        invariant
            i <= n,
            n == v@.len(),
            forall|p: int, q: int| 0 <= p < q < v@.len() && p < i ==> v@[p].code_hash@ != v@[q].code_hash@,
        decreases n - i,
    {
        let mut j: usize = i + 1;
        while j < n
            invariant
                i < j <= n,
                n == v@.len(),
                forall|q: int| i < q < j ==> v@[i as int].code_hash@ != v@[q].code_hash@,
            decreases n - j,
        {
            if str_eq(v[i].code_hash.as_str(), v[j].code_hash.as_str()) {
                return false;
            }
            j = j + 1;
        }
        i = i + 1;
    }
    true
}

/// Do all rows pass the pairwise refresh-token-hash distinctness check?
fn check_distinct_token_hashes(v: &Vec<RefreshToken>) -> (r: bool)
    ensures
        r == distinct_token_hashes(v@),
{
    let n = v.len();
    let mut i: usize = 0;
    while i < n
        invariant
            i <= n,
            n == v@.len(),
            forall|p: int, q: int| 0 <= p < q < v@.len() && p < i ==> v@[p].token_hash@ != v@[q].token_hash@,
        decreases n - i,
    {
        let mut j: usize = i + 1;
        while j < n
            invariant
                i < j <= n,
                n == v@.len(),
                forall|q: int| i < q < j ==> v@[i as int].token_hash@ != v@[q].token_hash@,
            decreases n - j,
        {
            if str_eq(v[i].token_hash.as_str(), v[j].token_hash.as_str()) {
                return false;
            }
            j = j + 1;
        }
        i = i + 1;
    }
    true
}

/// Do all rows pass the pairwise session-hash distinctness check?
fn check_distinct_session_hashes(v: &Vec<Session>) -> (r: bool)
    ensures
        r == distinct_session_hashes(v@),
{
    let n = v.len();
    let mut i: usize = 0;
    while i < n
        invariant
            i <= n,
            n == v@.len(),
            forall|p: int, q: int|
                0 <= p < q < v@.len() && p < i ==> v@[p].session_token_hash@ != v@[q].session_token_hash@,
        decreases n - i,
    {
        let mut j: usize = i + 1;
        while j < n
            invariant
                i < j <= n,
                n == v@.len(),
                forall|q: int|
                    i < q < j ==> v@[i as int].session_token_hash@ != v@[q].session_token_hash@,
            decreases n - j,
        {
            if str_eq(v[i].session_token_hash.as_str(), v[j].session_token_hash.as_str()) {
                return false;
            }
            j = j + 1;
        }
        i = i + 1;
    }
    true
}

/// Do all realms carry distinct names?
fn check_distinct_realm_names(v: &Vec<Realm>) -> (r: bool)
    ensures
        r == distinct_realm_names(v@),
{
    let n = v.len();
    let mut i: usize = 0;
    while i < n
        invariant
            i <= n,
            n == v@.len(),
            forall|p: int, q: int| 0 <= p < q < v@.len() && p < i ==> v@[p].name@ != v@[q].name@,
        decreases n - i,
    {
        let mut j: usize = i + 1;
        while j < n
            invariant
                i < j <= n,
                n == v@.len(),
                forall|q: int| i < q < j ==> v@[i as int].name@ != v@[q].name@,
            decreases n - j,
        {
            if str_eq(v[i].name.as_str(), v[j].name.as_str()) {
                return false;
            }
            j = j + 1;
        }
        i = i + 1;
    }
    true
}

/// Does no realm register the same client_id twice?
fn check_distinct_client_ids(v: &Vec<Client>) -> (r: bool)
    ensures
        r == distinct_client_ids(v@),
{
    let n = v.len();
    let mut i: usize = 0;
    while i < n
        invariant
            i <= n,
            n == v@.len(),
            forall|p: int, q: int|
                0 <= p < q < v@.len() && p < i ==> !(v@[p].realm_id@ == v@[q].realm_id@
                    && v@[p].client_id@ == v@[q].client_id@),
        decreases n - i,
    {
        let mut j: usize = i + 1;
        while j < n
            invariant
                i < j <= n,
                n == v@.len(),
                forall|q: int|
                    i < q < j ==> !(v@[i as int].realm_id@ == v@[q].realm_id@
                        && v@[i as int].client_id@ == v@[q].client_id@),
            decreases n - j,
        {
            let same = str_eq(v[i].realm_id.as_str(), v[j].realm_id.as_str()) && str_eq(
                v[i].client_id.as_str(),
                v[j].client_id.as_str(),
            );
            if same {
                return false;
            }
            j = j + 1;
        }
        i = i + 1;
    }
    true
}

/// Does no realm hold the same username twice?
fn check_distinct_usernames(v: &Vec<User>) -> (r: bool)
    ensures
        r == distinct_usernames(v@),
{
    let n = v.len();
    let mut i: usize = 0;
    while i < n
        invariant
            i <= n,
            n == v@.len(),
            forall|p: int, q: int|
                0 <= p < q < v@.len() && p < i ==> !(v@[p].realm_id@ == v@[q].realm_id@
                    && v@[p].username@ == v@[q].username@),
        decreases n - i,
    {
        let mut j: usize = i + 1;
        while j < n
            invariant
                i < j <= n,
                n == v@.len(),
                forall|q: int|
                    i < q < j ==> !(v@[i as int].realm_id@ == v@[q].realm_id@
                        && v@[i as int].username@ == v@[q].username@),
            decreases n - j,
        {
            let same = str_eq(v[i].realm_id.as_str(), v[j].realm_id.as_str()) && str_eq(
                v[i].username.as_str(),
                v[j].username.as_str(),
            );
            if same {
                return false;
            }
            j = j + 1;
        }
        i = i + 1;
    }
    true
}

impl Store {
    /// Decide the schema invariants at run time: true exactly when the
    /// store is well-formed. A caller that rebuilds a store from outside
    /// data (a persisted image) can establish `wf()` through this check
    /// before handing the store to the engines.
    pub fn check_wf(&self) -> (r: bool)
        ensures
            r == self.wf(),
    {
        let r = check_distinct_code_hashes(&self.auth_codes) && check_distinct_token_hashes(
            &self.refresh_tokens,
        ) && check_distinct_session_hashes(&self.sessions) && check_distinct_realm_names(
            &self.realms,
        ) && check_distinct_client_ids(&self.clients) && check_distinct_usernames(&self.users);
        r
    }
}

} // verus!
