//! The closed set of operator intents and the policy values they carry.
//!
//! Paths are carried as plain strings; the surrounding binary resolves them
//! against the file system.

use vstd::prelude::*;

verus! {

/// Trust policy attached to a vault: whether encryption honours the key
/// backend's own trust graph or bypasses it.
#[derive(Debug, Clone, Copy, PartialEq, Eq)]
pub enum TrustModel {
    /// Bypass the backend's trust graph: recipients are enrolled by explicit
    /// fingerprint, so encryption must succeed even for unvalidated keys.
    Always,
    /// Defer to the backend's own validation, which may refuse to encrypt
    /// for a key the local trust graph has not validated.
    GpgWebOfTrust,
}

/// What to do with a destination path when a resource is extracted.
#[derive(Debug, Clone, Copy, PartialEq, Eq)]
pub enum Destination {
    ReolveAndAppendGpg,
    Unchanged,
}

/// Whether pre-existing content at a destination may be replaced.
#[derive(Debug, Clone, Copy, PartialEq, Eq)]
pub enum WriteMode {
    AllowOverwrite,
    RefuseOverwrite,
}

impl WriteMode {
    /// True exactly when writing over existing content must be refused.
    pub fn refuse_overwrite(self) -> (r: bool)
        ensures
            r == (self is RefuseOverwrite),
    {
        match self {
            WriteMode::AllowOverwrite => false,
            WriteMode::RefuseOverwrite => true,
        }
    }
}

/// Whether an exported key is accompanied by a signature.
#[derive(Debug, Clone, Copy, PartialEq, Eq)]
pub enum SigningMode {
    NoSign,
    Public,
}

/// Whether an edit of a missing resource may create it.
#[derive(Debug, Clone, Copy, PartialEq, Eq)]
pub enum CreateMode {
    Create,
    NoCreate,
}

/// A mapping between a plaintext identity outside the vault and a named
/// ciphertext resource inside it.
#[derive(Debug, Clone, PartialEq, Eq)]
pub struct VaultSpec {
    /// Where plaintext comes from (a path; empty means the standard input).
    pub src: String,
    /// The resource name inside the vault's secrets directory.
    pub dst: String,
}

/// The closed set of operations the command line may request of the vault.
/// Each variant carries exactly the data needed to execute it.
#[derive(Debug, Clone, PartialEq, Eq)]
pub enum VaultCommand {
    ResourceEdit { editor: String, spec: String, mode: CreateMode },
    ResourceShow { spec: String },
    ResourceAdd { specs: Vec<VaultSpec> },
    ResourceRemove { specs: Vec<VaultSpec> },
    Init {
        gpg_key_ids: Vec<String>,
        gpg_keys_dir: String,
        secrets: String,
        recipients_file: String,
    },
    RecipientsList,
    RecipientsInit { gpg_key_ids: Vec<String> },
    RecipientsAdd {
        gpg_key_ids: Vec<String>,
        signing_key_id: Option<String>,
        sign: SigningMode,
    },
    List,
}

/// A vault command together with the vault it addresses.
#[derive(Debug, Clone, PartialEq, Eq)]
pub struct VaultContext {
    pub vault_path: String,
    pub vault_id: String,
    pub command: VaultCommand,
}

/// The single argument of an extraction run: where the vault description
/// file lives.
#[derive(Debug, Clone, PartialEq, Eq)]
pub struct ExtractionContext {
    pub file_path: String,
}

} // verus!
