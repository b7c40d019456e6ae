//! A single-user secrets vault.
//!
//! Credentials are kept per service as a username and a password that is
//! sealed at rest under a key stretched from one master secret. The crate
//! holds the cryptographic core (hashing and checking the master password,
//! deriving per-entry keys, sealing and opening entry secrets) and the
//! in-memory vault with its operations. Reading input, printing and
//! persistence are left to the caller.

pub mod error;
pub mod encryption;
pub mod laws;
pub mod manager;
pub mod primitives;
