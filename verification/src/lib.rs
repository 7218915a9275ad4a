//! Deposit-tracking core for a mining client: an append-only Merkle-indexed
//! deposit ledger, deterministic per-nonce key and salt derivation, bounded
//! receipt polling, and withdrawal-witness assembly.

pub mod b256;
pub mod deposit;
pub mod errors;
pub mod hashing;
pub mod ingest;
pub mod keys;
pub mod lifecycle;
pub mod session;
pub mod tree;
pub mod witness;
