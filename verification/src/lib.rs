//! A minimal proof-of-work ledger: SHA-256 digests, blocks mined against a
//! fixed byte pattern, an append-only chain, and a P-256 wallet whose detached
//! signatures the chain can check.

pub mod crypto;
pub mod encoding;
pub mod utils;
pub mod block;
pub mod blockchain;
pub mod keys;
