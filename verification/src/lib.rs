//! Core engine of a realm-isolated OIDC identity provider: the authorize
//! state machine, the token exchange engine (authorization-code redemption
//! with PKCE and refresh-token rotation), the record store they consume, and
//! the security primitives gating every trust-sensitive decision.

pub mod config;
pub mod crypto;
pub mod encoding;
pub mod hex;
pub mod jsontext;
pub mod laws;
pub mod models;
pub mod rng;
pub mod server;
pub mod store;
pub mod strutil;
