//! A local credential store ("wallet") for pre-genesis key material.
//!
//! The crate keeps aliased cryptographic keys and addresses, resolves a
//! usable secret key for a requested public key across several fallback
//! paths, enforces a password policy for encrypted-at-rest key material,
//! provisions validator key bundles, and runs a selective co-signing pass
//! over a bundle of unsigned genesis transactions.

pub mod util;
pub mod keys;
pub mod password;
pub mod codec;
pub mod confirm;
pub mod store;
pub mod resolve;
pub mod provision;
pub mod signer;
