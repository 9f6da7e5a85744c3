//! Wallet-identity access control: one-time challenge nonces, signature
//! checks, admin sessions and token-gate evaluation.

pub mod amount;
pub mod auth;
pub mod gate;
pub mod nonce;
pub mod profile;
pub mod registry;
pub mod session;
pub mod signature;
pub mod sources;
pub mod text;
