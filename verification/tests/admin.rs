//! Administrative store operations: creation conflicts, listing, deletion
//! and the realm delete cascade.

use anz::crypto::password::hash_password;
use anz::models::SigningKeyRecord;
use anz::store::{Store, StoreError};

const NOW: i64 = 1_700_000_000;

fn seeded() -> (Store, String) {
    let mut store = Store::new();
    let realm = store.create_realm("acme", NOW).expect("realm");
    let uris = vec!["https://app1/cb".to_string()];
    store.create_client(&realm.id, "app1", &uris, NOW).expect("client");
    let hash = hash_password("secret").expect("hash");
    store.create_user(&realm.id, "alice", "alice@example.com", &hash, NOW).expect("user");
    (store, realm.id)
}

#[test]
fn creation_enforces_uniqueness() {
    let (mut store, realm_id) = seeded();
    assert!(matches!(store.create_realm("acme", NOW), Err(StoreError::Conflict)));
    let uris = vec!["https://other/cb".to_string()];
    assert!(matches!(
        store.create_client(&realm_id, "app1", &uris, NOW),
        Err(StoreError::Conflict)
    ));
    assert!(matches!(
        store.create_user(&realm_id, "alice", "a2@example.com", "h", NOW),
        Err(StoreError::Conflict)
    ));
    // The same names are free in another realm.
    let other = store.create_realm("beta", NOW).expect("second realm");
    assert!(store.create_client(&other.id, "app1", &uris, NOW).is_ok());
    assert!(store.create_user(&other.id, "alice", "a3@example.com", "h", NOW).is_ok());
}

#[test]
fn listing_scopes_to_the_realm() {
    let (mut store, realm_id) = seeded();
    let other = store.create_realm("beta", NOW).expect("realm");
    store.create_user(&other.id, "bob", "bob@example.com", "h", NOW).expect("user");
    let realms = store.list_realms();
    assert_eq!(realms.len(), 2);
    assert_eq!(realms[0].name, "acme");
    assert_eq!(realms[1].name, "beta");
    let users = store.list_users(&realm_id);
    assert_eq!(users.len(), 1);
    assert_eq!(users[0].username, "alice");
    let clients = store.list_clients(&realm_id);
    assert_eq!(clients.len(), 1);
    assert_eq!(clients[0].client_id, "app1");
    assert_eq!(clients[0].redirect_uris, vec!["https://app1/cb".to_string()]);
    assert_eq!(
        clients[0].allowed_scopes,
        vec!["openid".to_string(), "profile".to_string(), "email".to_string()]
    );
    assert!(store.list_clients(&other.id).is_empty());
}

#[test]
fn created_client_carries_the_default_scopes() {
    let (store, realm_id) = seeded();
    let client = store.get_client_by_client_id(&realm_id, "app1").expect("client");
    assert_eq!(
        client.allowed_scopes,
        vec!["openid".to_string(), "profile".to_string(), "email".to_string()]
    );
}

#[test]
fn active_keys_come_back_newest_first() {
    let (mut store, realm_id) = seeded();
    let first = store.get_active_signing_key(&realm_id).expect("key").dup();
    // A rollover adds a newer active key alongside the original one.
    let newer = SigningKeyRecord {
        id: "key-2".to_string(),
        realm_id: realm_id.clone(),
        private_key_pem: "newer-private".to_string(),
        public_key_pem: "newer-public".to_string(),
        kid: "kid-2".to_string(),
        created_at: first.created_at + 10,
        active: true,
    };
    store.signing_keys.push(newer);
    let inactive = SigningKeyRecord {
        id: "key-3".to_string(),
        realm_id: realm_id.clone(),
        private_key_pem: "retired-private".to_string(),
        public_key_pem: "retired-public".to_string(),
        kid: "kid-3".to_string(),
        created_at: first.created_at + 20,
        active: false,
    };
    store.signing_keys.push(inactive);

    let keys = store.get_all_active_keys(&realm_id);
    assert_eq!(keys.len(), 2);
    assert_eq!(keys[0].kid, "kid-2");
    assert_eq!(keys[1].kid, first.kid);
    // The head is the key used for signing.
    let signing = store.get_active_signing_key(&realm_id).expect("key");
    assert_eq!(signing.kid, keys[0].kid);
}

#[test]
fn delete_user_and_client_remove_one_row() {
    let (mut store, realm_id) = seeded();
    assert!(store.delete_user(&realm_id, "alice"));
    assert!(!store.delete_user(&realm_id, "alice"));
    assert!(store.get_user_by_username(&realm_id, "alice").is_none());
    assert!(store.delete_client(&realm_id, "app1"));
    assert!(!store.delete_client(&realm_id, "app1"));
    assert!(store.get_client_by_client_id(&realm_id, "app1").is_none());
}

#[test]
fn delete_realm_cascades_to_all_dependents() {
    let (mut store, realm_id) = seeded();
    // Put rows in every dependent table.
    store
        .insert_auth_code(&realm_id, "app1", "u", "code-hash", "https://app1/cb", "openid", "c", NOW + 300)
        .expect("code");
    store
        .insert_refresh_token(&realm_id, "app1", "u", "token-hash", "openid", NOW + 600)
        .expect("token");
    store.create_session(&realm_id, "u", "session-hash", NOW + 600, NOW).expect("session");
    let keep = store.create_realm("beta", NOW).expect("other realm");
    store.create_user(&keep.id, "bob", "bob@example.com", "h", NOW).expect("user");

    assert!(store.delete_realm("acme"));
    assert!(!store.delete_realm("acme"));
    assert!(store.get_realm_by_name("acme").is_none());
    assert!(store.get_user_by_username(&realm_id, "alice").is_none());
    assert!(store.get_client_by_client_id(&realm_id, "app1").is_none());
    assert!(store.get_active_signing_key(&realm_id).is_none());
    assert!(store.consume_auth_code("code-hash", NOW).is_none());
    assert!(store.consume_refresh_token("token-hash", NOW).is_none());
    assert!(store.get_session_by_token_hash(&realm_id, "session-hash", NOW).is_none());
    // The other realm is untouched.
    assert!(store.get_realm_by_name("beta").is_some());
    assert!(store.get_user_by_username(&keep.id, "bob").is_some());
    assert!(store.get_active_signing_key(&keep.id).is_some());
}

#[test]
fn check_wf_accepts_real_stores_and_rejects_duplicates() {
    let (mut store, realm_id) = seeded();
    assert!(store.check_wf());
    // A duplicated code hash violates the schema and is detected.
    store
        .insert_auth_code(&realm_id, "app1", "u", "dup-hash", "https://app1/cb", "openid", "c", NOW + 300)
        .expect("code");
    let copy = store.auth_codes[0].dup();
    store.auth_codes.push(copy);
    assert!(!store.check_wf());
}

#[test]
fn merged_config_prefers_given_values_over_defaults() {
    let c = anz::config::merged_config(
        Some("0.0.0.0:9000".to_string()),
        None,
        None,
        Some(60),
        None,
        None,
        None,
        None,
    );
    assert_eq!(c.bind_address, "0.0.0.0:9000");
    assert_eq!(c.issuer_base_url, "http://localhost:8080");
    assert_eq!(c.database_path, "anz.db");
    assert_eq!(c.access_token_lifetime_secs, 60);
    assert_eq!(c.session_lifetime_secs, 86_400);
}

#[test]
fn listings_come_back_sorted() {
    let mut store = Store::new();
    let zeta = store.create_realm("zeta", NOW).expect("realm");
    store.create_realm("alpha", NOW).expect("realm");
    let realms = store.list_realms();
    assert_eq!(realms[0].name, "alpha");
    assert_eq!(realms[1].name, "zeta");
    store.create_user(&zeta.id, "zoe", "z@example.com", "h", NOW).expect("user");
    store.create_user(&zeta.id, "amy", "a@example.com", "h", NOW).expect("user");
    let users = store.list_users(&zeta.id);
    assert_eq!(users[0].username, "amy");
    assert_eq!(users[1].username, "zoe");
    let uris = vec!["https://cb".to_string()];
    store.create_client(&zeta.id, "web", &uris, NOW).expect("client");
    store.create_client(&zeta.id, "api", &uris, NOW).expect("client");
    let clients = store.list_clients(&zeta.id);
    assert_eq!(clients[0].client_id, "api");
    assert_eq!(clients[1].client_id, "web");
}
