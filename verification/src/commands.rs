//! The command layer: the one entry point through which the shell drives
//! the vault. Each operator intent is dispatched, exhaustively, onto the
//! operations of the core; whatever the command, a successful run keeps the
//! ledger and the ciphertexts consistent, and a failed run never commits
//! the ledger.

use vstd::prelude::*;
use crate::edit::EditOutcome;
use crate::error::VaultError;
use crate::keys::{KeyInfo, extract_at_least_one_secret_key, fingerprint_seq};
use crate::types::{VaultCommand, WriteMode};
use crate::vault::{
    SweepOutcome, Vault, consistent, has_resource, ledger_set, recipient_set, resource_index, wf,
};

verus! {

/// What the backend and the operator supplied for one command: the keys
/// matched for its selectors, the outcome of every backend call the command
/// may need, and the bytes it works on. The shell fills in the parts the
/// command uses; the rest are ignored.
pub struct CommandEnv {
    /// The keys the backend matched for the command's selectors.
    pub resolved_keys: Vec<KeyInfo>,
    /// Whether the backend reported the key listing as cut short.
    pub truncated: bool,
    /// Per resolved key: whether exporting it into the mirror succeeded.
    pub export_ok: Vec<bool>,
    /// Per resource: whether its re-encryption under a staged set succeeded.
    pub sweep_results: Vec<bool>,
    /// Per spec of a `ResourceAdd`: the plaintext read from its source.
    pub plaintexts: Vec<Vec<u8>>,
    /// Whether the backend could encrypt new content (`ResourceAdd`).
    pub encrypt_ok: bool,
    /// The fingerprint under which the operator decrypts (`ResourceShow`).
    pub requester_fpr: String,
    /// How the edit workflow ended (`ResourceEdit`).
    pub edit_outcome: EditOutcome,
    /// The edited content, where the workflow saved (`ResourceEdit`).
    pub edited_plaintext: Vec<u8>,
}

/// Whether the environment carries what the command needs of it: matching
/// lengths for the per-key and per-resource outcome lists, and an edit
/// outcome that is honest about a missing resource.
pub open spec fn env_fits(cmd: VaultCommand, env: CommandEnv, v: Vault) -> bool {
    match cmd {
        VaultCommand::Init { .. } => env.export_ok@.len() == env.resolved_keys@.len(),
        VaultCommand::RecipientsInit { .. } => env.export_ok@.len() == env.resolved_keys@.len()
            && env.sweep_results@.len() == v.resources@.len(),
        VaultCommand::RecipientsAdd { .. } => env.export_ok@.len() == env.resolved_keys@.len()
            && env.sweep_results@.len() == v.resources@.len(),
        VaultCommand::ResourceAdd { specs } => env.plaintexts@.len() == specs@.len(),
        VaultCommand::ResourceEdit { spec, mode, .. } => env.edit_outcome is NotFound
            ==> !has_resource(v, spec@) && mode is NoCreate,
        _ => true,
    }
}

/// What a command hands back on success.
#[derive(Debug, PartialEq, Eq)]
pub enum CommandOutput {
    /// The command's effect is on the vault alone.
    Done,
    /// The decrypted content of a shown resource.
    Shown(Vec<u8>),
    /// The resource names of a listing.
    Names(Vec<String>),
    /// The ledger's fingerprints.
    Recipients(Vec<String>),
    /// The per-resource report of a committed sweep.
    SweepReport(Vec<SweepOutcome>),
}

impl Vault {
    /// Runs one operator command against the vault. This is the whole
    /// command surface: every way the shell may drive the core goes through
    /// here, and whatever the command,
    /// a successful run takes a consistent vault to a consistent vault, and
    /// a failed run leaves the ledger exactly as it was.
    pub fn execute(&mut self, cmd: &VaultCommand, env: CommandEnv) -> (r: Result<
        CommandOutput,
        VaultError,
    >)
        requires
            wf(*old(self)),
            env_fits(*cmd, env, *old(self)),
        ensures
            wf(*final(self)),
            consistent(*old(self)) && r is Ok ==> consistent(*final(self)),
            r is Err ==> final(self).ledger == old(self).ledger,
            cmd is List ==> r is Ok && *final(self) == *old(self) && (r->Ok_0 matches
                CommandOutput::Names(n) && n@.len() == old(self).resources@.len() && forall|i: int|
                0 <= i < n@.len() ==> n@[i]@ == (#[trigger] old(self).resources@[i]).name@),
            cmd is RecipientsList ==> r is Ok && *final(self) == *old(self) && (r->Ok_0 matches
                CommandOutput::Recipients(l) && l@ == old(self).ledger@),
            cmd matches VaultCommand::ResourceShow { spec } ==> *final(self) == *old(self) && {
                &&& !has_resource(*old(self), spec@) ==> r is Err
                &&& has_resource(*old(self), spec@) && recipient_set(
                    old(self).resources@[resource_index(*old(self), spec@)],
                ).contains(env.requester_fpr@) ==> (r matches Ok(CommandOutput::Shown(p)) && p@
                    == old(self).resources@[resource_index(*old(self), spec@)].plaintext@)
                &&& has_resource(*old(self), spec@) && !recipient_set(
                    old(self).resources@[resource_index(*old(self), spec@)],
                ).contains(env.requester_fpr@) ==> r is Err
            },
            cmd matches VaultCommand::ResourceEdit { spec, .. } ==> {
                &&& r is Ok <==> env.edit_outcome is Saved
                &&& !(env.edit_outcome is Saved) ==> *final(self) == *old(self)
                &&& r is Ok ==> has_resource(*final(self), spec@)
            },
            cmd matches VaultCommand::ResourceAdd { specs } ==> (r is Ok ==> forall|k: int|
                0 <= k < specs@.len() ==> has_resource(*final(self), (#[trigger] specs@[k]).dst@)),
            cmd matches VaultCommand::ResourceRemove { specs } ==> (r is Ok ==> forall|k: int|
                0 <= k < specs@.len() ==> !has_resource(
                    *final(self),
                    (#[trigger] specs@[k]).dst@,
                )),
            (cmd is RecipientsAdd || cmd is RecipientsInit) && r is Ok ==> ledger_set(
                *final(self),
            ) == ledger_set(*old(self)).union(fingerprint_seq(env.resolved_keys@).to_set()),
            (cmd is RecipientsAdd || cmd is RecipientsInit || cmd is Init) && env.truncated ==> r
                == Err::<CommandOutput, VaultError>(VaultError::TruncatedKeyList),
    {
        match cmd {
            VaultCommand::List => Ok(CommandOutput::Names(self.list())),
            VaultCommand::RecipientsList => Ok(CommandOutput::Recipients(self.recipients_list())),
            VaultCommand::ResourceShow { spec } => {
                match self.resource_show(spec, &env.requester_fpr) {
                    Ok(p) => Ok(CommandOutput::Shown(p)),
                    Err(e) => Err(e),
                }
            },
            VaultCommand::ResourceEdit { spec, mode, .. } => {
                match self.resource_edit(spec, *mode, env.edit_outcome, env.edited_plaintext) {
                    Ok(()) => Ok(CommandOutput::Done),
                    Err(e) => Err(e),
                }
            },
            VaultCommand::ResourceAdd { specs } => {
                let mut k: usize = 0;
                while k < specs.len()
                    invariant
                        cmd is ResourceAdd,
                        k <= specs@.len(),
                        env.plaintexts@.len() == specs@.len(),
                        wf(*self),
                        consistent(*old(self)) ==> consistent(*self),
                        self.ledger == old(self).ledger,
                        forall|j: int|
                            0 <= j < k ==> has_resource(*self, (#[trigger] specs@[j]).dst@),
                    decreases specs@.len() - k,
                {
                    let ghost prev = *self;
                    let plain = crate::vault::clone_bytes(&env.plaintexts[k]);
                    match self.resource_add(
                        &specs[k],
                        plain,
                        WriteMode::RefuseOverwrite,
                        env.encrypt_ok,
                    ) {
                        Ok(()) => {},
                        Err(e) => {
                            return Err(e);
                        },
                    }
                    proof {
                        assert forall|j: int|
                            0 <= j <= k implies has_resource(
                            *self,
                            (#[trigger] specs@[j]).dst@,
                        ) by {
                            if j < k {
                                let w = choose|w: int|
                                    0 <= w < prev.resources@.len() && (
                                    #[trigger] prev.resources@[w]).name@ == specs@[j].dst@;
                                if prev.resources@[w].name@ == specs@[k as int].dst@ {
                                    assert(has_resource(*self, specs@[k as int].dst@));
                                } else {
                                    assert(self.resources@[w] == prev.resources@[w]);
                                }
                            }
                        }
                    }
                    k += 1;
                }
                Ok(CommandOutput::Done)
            },
            VaultCommand::ResourceRemove { specs } => {
                let mut k: usize = 0;
                while k < specs.len()
                    invariant
                        cmd is ResourceRemove,
                        k <= specs@.len(),
                        wf(*self),
                        consistent(*old(self)) ==> consistent(*self),
                        self.ledger == old(self).ledger,
                        forall|j: int|
                            0 <= j < k ==> !has_resource(*self, (#[trigger] specs@[j]).dst@),
                    decreases specs@.len() - k,
                {
                    let ghost prev = *self;
                    match self.resource_remove(&specs[k]) {
                        Ok(()) => {},
                        Err(e) => {
                            return Err(e);
                        },
                    }
                    proof {
                        let idx = resource_index(prev, specs@[k as int].dst@);
                        assert forall|j: int|
                            0 <= j <= k implies !has_resource(
                            *self,
                            (#[trigger] specs@[j]).dst@,
                        ) by {
                            if has_resource(*self, specs@[j].dst@) {
                                let w = choose|w: int|
                                    0 <= w < self.resources@.len() && (
                                    #[trigger] self.resources@[w]).name@ == specs@[j].dst@;
                                if w < idx {
                                    assert(self.resources@[w] == prev.resources@[w]);
                                } else {
                                    assert(self.resources@[w] == prev.resources@[w + 1]);
                                }
                            }
                        }
                    }
                    k += 1;
                }
                Ok(CommandOutput::Done)
            },
            VaultCommand::Init { gpg_key_ids, gpg_keys_dir, secrets, recipients_file } => {
                let selected = match extract_at_least_one_secret_key(
                    env.resolved_keys,
                    gpg_key_ids,
                    env.truncated,
                ) {
                    Ok(s) => s,
                    Err(e) => {
                        return Err(e);
                    },
                };
                let v = match Vault::init(
                    self.vault_id.clone(),
                    secrets.clone(),
                    gpg_keys_dir.clone(),
                    recipients_file.clone(),
                    &selected,
                    &env.export_ok,
                ) {
                    Ok(v) => v,
                    Err(e) => {
                        return Err(e);
                    },
                };
                *self = v;
                Ok(CommandOutput::Done)
            },
            VaultCommand::RecipientsInit { gpg_key_ids } => {
                let selected = match extract_at_least_one_secret_key(
                    env.resolved_keys,
                    gpg_key_ids,
                    env.truncated,
                ) {
                    Ok(s) => s,
                    Err(e) => {
                        return Err(e);
                    },
                };
                match self.recipients_add(&selected, &env.export_ok, &env.sweep_results) {
                    Ok(report) => Ok(CommandOutput::SweepReport(report)),
                    Err(e) => Err(e),
                }
            },
            VaultCommand::RecipientsAdd { gpg_key_ids, .. } => {
                let selected = match extract_at_least_one_secret_key(
                    env.resolved_keys,
                    gpg_key_ids,
                    env.truncated,
                ) {
                    Ok(s) => s,
                    Err(e) => {
                        return Err(e);
                    },
                };
                match self.recipients_add(&selected, &env.export_ok, &env.sweep_results) {
                    Ok(report) => Ok(CommandOutput::SweepReport(report)),
                    Err(e) => Err(e),
                }
            },
        }
    }
}

} // verus!
