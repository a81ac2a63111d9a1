//! Every way a vault operation can fail, with the data an operator needs to
//! act on the failure. Nothing here is fatal-and-silent: each failure either
//! rolls an operation back or reports explicit partial progress.

use vstd::prelude::*;
use crate::vault::SweepOutcome;

verus! {

/// The failure taxonomy of the vault core.
#[derive(Debug, Clone, PartialEq, Eq)]
pub enum VaultError {
    /// No selectors were given and no usable key exists at all.
    NoUsableKey,
    /// Selectors were given but none of them matched a key.
    NoMatchingKey,
    /// No selectors were given and more than one key matched; the operator
    /// must disambiguate. Carries one display line per candidate key.
    AmbiguousKeySelection { candidates: Vec<String> },
    /// The backend reported that the key listing was cut short; a partial
    /// set must not be acted upon.
    TruncatedKeyList,
    /// A resolved key has no retrievable fingerprint and so cannot enter
    /// the ledger.
    FingerprintUnavailable,
    /// Exporting a public key into the vault's key mirror failed.
    KeyExportFailed { fingerprint: String },
    /// The destination already holds content and the write mode refuses to
    /// replace it.
    WouldOverwrite { path: String },
    /// The named resource does not exist in the vault.
    ResourceNotFound { path: String },
    /// The backend could not decrypt the named resource for the caller.
    DecryptionFailed { path: String },
    /// The backend could not encrypt content for the current recipients.
    EncryptionFailed { path: String },
    /// The external editor could not be started.
    EditorSpawnFailed,
    /// The external editor exited with a non-zero status; the edit is
    /// discarded.
    EditorFailed,
    /// A re-encryption sweep did not reach every resource; the ledger was
    /// left unchanged. Carries the per-resource outcome of the attempt.
    SweepIncomplete { report: Vec<SweepOutcome> },
}

} // verus!
