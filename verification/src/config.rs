//! Server configuration: issuer base URL and per-token-kind lifetimes (in
//! seconds). Loading the file from disk is the caller's concern; the
//! defaults live here.

use vstd::prelude::*;

#[allow(unused_imports)]
use vstd::string::StringExecFns;

verus! {

/// Configuration values gating the engine's behavior.
pub struct Config {
    pub bind_address: String,
    pub issuer_base_url: String,
    pub database_path: String,
    pub access_token_lifetime_secs: u64,
    pub id_token_lifetime_secs: u64,
    pub refresh_token_lifetime_secs: u64,
    pub auth_code_lifetime_secs: u64,
    pub session_lifetime_secs: u64,
}

/// The default bind address.
pub fn default_bind_address() -> (r: String)
    ensures
        r@ == "127.0.0.1:8080"@,
{
    String::from_str("127.0.0.1:8080")
}

/// The default issuer base URL.
pub fn default_issuer_base_url() -> (r: String)
    ensures
        r@ == "http://localhost:8080"@,
{
    String::from_str("http://localhost:8080")
}

/// The default database path.
pub fn default_database_path() -> (r: String)
    ensures
        r@ == "anz.db"@,
{
    String::from_str("anz.db")
}

/// The default access-token lifetime: one hour.
pub fn default_access_token_lifetime() -> (r: u64)
    ensures
        r == 3600,
{
    3600
}

/// The default ID-token lifetime: one hour.
pub fn default_id_token_lifetime() -> (r: u64)
    ensures
        r == 3600,
{
    3600
}

/// The default refresh-token lifetime: thirty days.
pub fn default_refresh_token_lifetime() -> (r: u64)
    ensures
        r == 2592000,
{
    2592000
}

/// The default authorization-code lifetime: five minutes.
pub fn default_auth_code_lifetime() -> (r: u64)
    ensures
        r == 300,
{
    300
}

/// The default session lifetime: one day.
pub fn default_session_lifetime() -> (r: u64)
    ensures
        r == 86400,
{
    86400
}

impl Config {
    /// All lifetimes small enough that `now + lifetime` cannot overflow at
    /// any instant up to `now`.
    pub open spec fn lifetimes_fit(self, now: i64) -> bool {
        &&& now + self.access_token_lifetime_secs <= i64::MAX
        &&& now + self.id_token_lifetime_secs <= i64::MAX
        &&& now + self.refresh_token_lifetime_secs <= i64::MAX
        &&& now + self.auth_code_lifetime_secs <= i64::MAX
        &&& now + self.session_lifetime_secs <= i64::MAX
    }
}

/// Assemble a configuration from optional on-disk values, each missing
/// field falling back to its default.
pub fn merged_config(
    bind_address: Option<String>,
    issuer_base_url: Option<String>,
    database_path: Option<String>,
    access_token_lifetime_secs: Option<u64>,
    id_token_lifetime_secs: Option<u64>,
    refresh_token_lifetime_secs: Option<u64>,
    auth_code_lifetime_secs: Option<u64>,
    session_lifetime_secs: Option<u64>,
) -> (r: Config)
    ensures
        r.bind_address@ == match bind_address {
            Some(s) => s@,
            None => "127.0.0.1:8080"@,
        },
        r.issuer_base_url@ == match issuer_base_url {
            Some(s) => s@,
            None => "http://localhost:8080"@,
        },
        r.database_path@ == match database_path {
            Some(s) => s@,
            None => "anz.db"@,
        },
        r.access_token_lifetime_secs == match access_token_lifetime_secs {
            Some(n) => n,
            None => 3600,
        },
        r.id_token_lifetime_secs == match id_token_lifetime_secs {
            Some(n) => n,
            None => 3600,
        },
        r.refresh_token_lifetime_secs == match refresh_token_lifetime_secs {
            Some(n) => n,
            None => 2592000,
        },
        r.auth_code_lifetime_secs == match auth_code_lifetime_secs {
            Some(n) => n,
            None => 300,
        },
        r.session_lifetime_secs == match session_lifetime_secs {
            Some(n) => n,
            None => 86400,
        },
{
    Config {
        bind_address: match bind_address {
            Some(s) => s,
            None => default_bind_address(),
        },
        issuer_base_url: match issuer_base_url {
            Some(s) => s,
            None => default_issuer_base_url(),
        },
        database_path: match database_path {
            Some(s) => s,
            None => default_database_path(),
        },
        access_token_lifetime_secs: match access_token_lifetime_secs {
            Some(n) => n,
            None => default_access_token_lifetime(),
        },
        id_token_lifetime_secs: match id_token_lifetime_secs {
            Some(n) => n,
            None => default_id_token_lifetime(),
        },
        refresh_token_lifetime_secs: match refresh_token_lifetime_secs {
            Some(n) => n,
            None => default_refresh_token_lifetime(),
        },
        auth_code_lifetime_secs: match auth_code_lifetime_secs {
            Some(n) => n,
            None => default_auth_code_lifetime(),
        },
        session_lifetime_secs: match session_lifetime_secs {
            Some(n) => n,
            None => default_session_lifetime(),
        },
    }
}

impl Default for Config {
    /// The built-in defaults, used when no configuration file is present.
    fn default() -> (r: Self)
        ensures
            r.bind_address@ == "127.0.0.1:8080"@,
            r.issuer_base_url@ == "http://localhost:8080"@,
            r.database_path@ == "anz.db"@,
            r.access_token_lifetime_secs == 3600,
            r.id_token_lifetime_secs == 3600,
            r.refresh_token_lifetime_secs == 2592000,
            r.auth_code_lifetime_secs == 300,
            r.session_lifetime_secs == 86400,
    {
        Config {
            bind_address: default_bind_address(),
            issuer_base_url: default_issuer_base_url(),
            database_path: default_database_path(),
            access_token_lifetime_secs: default_access_token_lifetime(),
            id_token_lifetime_secs: default_id_token_lifetime(),
            refresh_token_lifetime_secs: default_refresh_token_lifetime(),
            auth_code_lifetime_secs: default_auth_code_lifetime(),
            session_lifetime_secs: default_session_lifetime(),
        }
    }
}

} // verus!
