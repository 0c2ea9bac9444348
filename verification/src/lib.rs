//! Integrity and key lifecycle of a decentralized identity document:
//! a registry of verification methods, Merkle key collections, embedded
//! signature envelopes, signed incremental updates and the call discipline
//! of a secret vault.

pub mod bytes;
pub mod codec;
pub mod diff;
pub mod document;
pub mod collection;
pub mod ed25519;
pub mod error;
pub mod gate;
pub mod inclusion;
pub mod merkle;
pub mod method;
pub mod patch;
pub mod procedure;
pub mod registry;
pub mod signature;
pub mod vault;
