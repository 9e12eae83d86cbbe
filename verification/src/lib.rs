//! A local secrets vault: password hashing and verification, key derivation,
//! authenticated encryption of vault contents, brute-force throttling, and an
//! append-only audit log, with machine-checked contracts on every operation.
//!
//! The interactive presentation layer (terminal prompts, file reading and
//! writing) lives outside this crate; the crate itself holds the credential
//! and vault engine, verified end to end.

pub mod auth;
pub mod crypto;
pub mod errors;
pub mod security;
pub mod text;
pub mod vault;
