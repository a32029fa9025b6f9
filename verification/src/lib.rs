//! Account and session-token store for a small credential service.
//!
//! Accounts are registered once under a unique identity; secrets are kept
//! only as salted SHA-256 hashes ([`codec`]); account records travel as a
//! fixed JSON text whose rendering and parsing invert each other
//! ([`json`]); everything lives in a key-value store with atomic
//! insert-if-absent and per-key expiry ([`kv`], [`repo`]). Successful
//! authentication issues a short-lived opaque token ([`token`]); the
//! service entry points and the laws tying them together are in [`auth`],
//! and the decoders for a networked store's raw replies in [`wire`].

pub mod auth;
pub mod codec;
pub mod json;
pub mod kv;
pub mod repo;
pub mod settings;
pub mod token;
pub mod wire;
