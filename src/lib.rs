//! Construction of Priority-By-Humanity transactions: external nullifiers,
//! signal binding, nonce-slot allocation and call-data encoding.
pub mod bytes;
pub mod error;
pub mod field;
pub mod hashing;
pub mod nonce;
pub mod nullifier;
pub mod payload;
pub mod signal;
pub mod transaction;
pub mod world_id;
