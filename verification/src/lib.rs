//! A verified core for a command-line secret store: a vault of resources
//! encrypted at rest for a set of named recipients, with the guarantee that
//! the set of keys a resource is encrypted for never drifts from the vault's
//! recipient ledger.
//!
//! Cryptography and I/O are performed by an external key-management backend
//! and by the surrounding binary; this library owns the policy: which keys
//! are authoritative recipients, when a recipient change must re-encrypt
//! every resource, and how the decrypt-edit-re-encrypt workflow may proceed.

pub mod commands;
pub mod edit;
pub mod error;
pub mod keys;
pub mod ledger;
pub mod trust;
pub mod types;
pub mod util;
pub mod vault;
