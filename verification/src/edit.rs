//! The decrypt-edit-re-encrypt workflow.
//!
//! The workflow decrypts a resource into an ephemeral private file, lets an
//! external editor run on it, and re-encrypts the result only if the editor
//! accepted it — and it guarantees that the temporary plaintext file is gone
//! on every exit path, successful or not.
//!
//! The surrounding binary owns the files and processes; it runs the loop:
//! ask [`EditWorkflow::next_action`] what to do, do it, report what happened
//! through [`EditWorkflow::step`]. The machine decides every transition, and
//! its invariant ties the temporary file's existence to the phase, so a run
//! can only finish once the file is removed. The effect on the vault itself
//! is applied through [`Vault::resource_edit`].

use vstd::prelude::*;
use crate::error::VaultError;
use crate::types::{CreateMode, VaultSpec, WriteMode};
use crate::vault::{Vault, consistent, has_resource, wf};

verus! {

/// How an edit run ended.
#[derive(Debug, Clone, Copy, PartialEq, Eq)]
pub enum EditOutcome {
    /// The editor accepted the edit and the result was re-encrypted.
    Saved,
    /// The resource does not exist and the mode forbids creating it.
    NotFound,
    /// The resource could not be decrypted for the operator.
    DecryptFailed,
    /// The editor could not be started.
    EditorSpawnFailed,
    /// The editor exited with a non-zero status; the edit is discarded.
    EditorFailed,
    /// Re-encrypting the edited content failed; the original ciphertext
    /// stands.
    ReencryptFailed,
}

/// Where an edit run stands.
#[derive(Debug, Clone, Copy, PartialEq, Eq)]
pub enum EditPhase {
    /// Nothing has happened yet.
    Start,
    /// The plaintext sits in the temporary file; the editor may run.
    Decrypted,
    /// The editor accepted the edit; the content must be re-encrypted.
    EditorAccepted,
    /// The run is decided; the temporary file must still be removed.
    Cleanup { outcome: EditOutcome },
    /// The run is over and the temporary file is gone.
    Finished { outcome: EditOutcome },
}

/// What the runner must do next in a given phase.
#[derive(Debug, Clone, Copy, PartialEq, Eq)]
pub enum EditAction {
    /// Decrypt the resource into a fresh private temporary file; a missing
    /// resource under `CreateMode::Create` yields empty content.
    DecryptToTemp,
    /// Spawn the editor on the temporary file and wait for its exit.
    RunEditor,
    /// Encrypt the temporary file's content back over the resource.
    Reencrypt,
    /// Delete the temporary file.
    RemoveTemp,
}

/// What the runner reports back after performing an action.
#[derive(Debug, Clone, Copy, PartialEq, Eq)]
pub enum EditEvent {
    /// The resource is missing and the mode forbids creating it; reported
    /// from `Start`, before any file is written.
    MissingNoCreate,
    /// The temporary file was created; `decrypt_ok` says whether its
    /// content (the plaintext, or fresh empty content) was obtained.
    TempWritten { decrypt_ok: bool },
    /// The editor could not be spawned.
    SpawnFailed,
    /// The editor exited; `success` says whether with status zero.
    EditorExited { success: bool },
    /// Re-encryption over the original resource finished.
    Reencrypted { success: bool },
    /// The temporary file is gone.
    TempRemoved,
}

/// An edit run: its phase, and whether the temporary plaintext file the
/// run owns exists right now (as last reported by the runner).
#[derive(Debug, Clone, Copy, PartialEq, Eq)]
pub struct EditWorkflow {
    pub phase: EditPhase,
    pub temp_exists: bool,
}

/// The workflow's invariant: the temporary plaintext file exists in exactly
/// the phases between its creation and its removal — never before the run
/// starts, never once it has finished.
pub open spec fn edit_inv(w: EditWorkflow) -> bool {
    match w.phase {
        EditPhase::Start => !w.temp_exists,
        EditPhase::Decrypted => w.temp_exists,
        EditPhase::EditorAccepted => w.temp_exists,
        EditPhase::Cleanup { .. } => w.temp_exists,
        EditPhase::Finished { .. } => !w.temp_exists,
    }
}

/// Which events the runner may report in which phase.
pub open spec fn valid_event(p: EditPhase, e: EditEvent) -> bool {
    match p {
        EditPhase::Start => e is MissingNoCreate || e is TempWritten,
        EditPhase::Decrypted => e is SpawnFailed || e is EditorExited,
        EditPhase::EditorAccepted => e is Reencrypted,
        EditPhase::Cleanup { .. } => e is TempRemoved,
        EditPhase::Finished { .. } => false,
    }
}

/// The transition table of the workflow.
pub open spec fn spec_step(p: EditPhase, e: EditEvent) -> EditPhase {
    match (p, e) {
        (EditPhase::Start, EditEvent::MissingNoCreate) => EditPhase::Finished {
            outcome: EditOutcome::NotFound,
        },
        (EditPhase::Start, EditEvent::TempWritten { decrypt_ok }) => if decrypt_ok {
            EditPhase::Decrypted
        } else {
            EditPhase::Cleanup { outcome: EditOutcome::DecryptFailed }
        },
        (EditPhase::Decrypted, EditEvent::SpawnFailed) => EditPhase::Cleanup {
            outcome: EditOutcome::EditorSpawnFailed,
        },
        (EditPhase::Decrypted, EditEvent::EditorExited { success }) => if success {
            EditPhase::EditorAccepted
        } else {
            EditPhase::Cleanup { outcome: EditOutcome::EditorFailed }
        },
        (EditPhase::EditorAccepted, EditEvent::Reencrypted { success }) => EditPhase::Cleanup {
            outcome: if success {
                EditOutcome::Saved
            } else {
                EditOutcome::ReencryptFailed
            },
        },
        (EditPhase::Cleanup { outcome }, EditEvent::TempRemoved) => EditPhase::Finished { outcome },
        (_, _) => p,
    }
}

impl EditWorkflow {
    /// A fresh run: nothing decrypted, no temporary file.
    pub fn start() -> (w: EditWorkflow)
        ensures
            w.phase == EditPhase::Start,
            !w.temp_exists,
            edit_inv(w),
    {
        EditWorkflow { phase: EditPhase::Start, temp_exists: false }
    }

    /// What the runner must do next; nothing once the run has finished.
    pub fn next_action(&self) -> (a: Option<EditAction>)
        ensures
            a == match self.phase {
                EditPhase::Start => Some(EditAction::DecryptToTemp),
                EditPhase::Decrypted => Some(EditAction::RunEditor),
                EditPhase::EditorAccepted => Some(EditAction::Reencrypt),
                EditPhase::Cleanup { .. } => Some(EditAction::RemoveTemp),
                EditPhase::Finished { .. } => None::<EditAction>,
            },
    {
        match self.phase {
            EditPhase::Start => Some(EditAction::DecryptToTemp),
            EditPhase::Decrypted => Some(EditAction::RunEditor),
            EditPhase::EditorAccepted => Some(EditAction::Reencrypt),
            EditPhase::Cleanup { .. } => Some(EditAction::RemoveTemp),
            EditPhase::Finished { .. } => None,
        }
    }

    /// One transition of the run. The temporary file's existence follows
    /// the reported event, the phase follows the transition table, and the
    /// invariant is kept — in particular, a run can reach `Finished` only
    /// with the temporary file gone, and re-encryption is reachable only
    /// through the editor's zero exit status.
    pub fn step(&mut self, event: EditEvent)
        requires
            edit_inv(*old(self)),
            valid_event(old(self).phase, event),
        ensures
            final(self).phase == spec_step(old(self).phase, event),
            final(self).temp_exists == match event {
                EditEvent::TempWritten { .. } => true,
                EditEvent::TempRemoved => false,
                _ => old(self).temp_exists,
            },
            edit_inv(*final(self)),
            final(self).phase is Finished ==> !final(self).temp_exists,
            final(self).phase is EditorAccepted ==> old(self).phase is Decrypted && event == (
            EditEvent::EditorExited { success: true }),
    {
        match event {
            EditEvent::TempWritten { .. } => {
                self.temp_exists = true;
            },
            EditEvent::TempRemoved => {
                self.temp_exists = false;
            },
            _ => {},
        }
        let next = match (self.phase, event) {
            (EditPhase::Start, EditEvent::MissingNoCreate) => EditPhase::Finished {
                outcome: EditOutcome::NotFound,
            },
            (EditPhase::Start, EditEvent::TempWritten { decrypt_ok }) => if decrypt_ok {
                EditPhase::Decrypted
            } else {
                EditPhase::Cleanup { outcome: EditOutcome::DecryptFailed }
            },
            (EditPhase::Decrypted, EditEvent::SpawnFailed) => EditPhase::Cleanup {
                outcome: EditOutcome::EditorSpawnFailed,
            },
            (EditPhase::Decrypted, EditEvent::EditorExited { success }) => if success {
                EditPhase::EditorAccepted
            } else {
                EditPhase::Cleanup { outcome: EditOutcome::EditorFailed }
            },
            (EditPhase::EditorAccepted, EditEvent::Reencrypted { success }) => EditPhase::Cleanup {
                outcome: if success {
                    EditOutcome::Saved
                } else {
                    EditOutcome::ReencryptFailed
                },
            },
            (EditPhase::Cleanup { outcome }, EditEvent::TempRemoved) => EditPhase::Finished {
                outcome,
            },
            (p, _) => p,
        };
        self.phase = next;
    }
}

/// Law: no plaintext residue — once an edit run has finished, whatever its
/// outcome, the temporary plaintext file it created no longer exists.
pub proof fn lemma_no_plaintext_residue(w: EditWorkflow)
    requires
        edit_inv(w),
        w.phase is Finished,
    ensures
        !w.temp_exists,
{
}

impl Vault {
    /// Applies a finished edit run to the vault. A run that ended in
    /// anything but `Saved` surfaces its failure and leaves the vault
    /// exactly as it was — in particular a non-zero editor exit never
    /// touches the original ciphertext. A saved run stores the edited
    /// content encrypted for the full current recipient set, creating the
    /// resource if the mode allows it.
    ///
    /// The runner reports `NotFound` only for a resource the vault does not
    /// hold, under `CreateMode::NoCreate`.
    pub fn resource_edit(
        &mut self,
        name: &String,
        mode: CreateMode,
        outcome: EditOutcome,
        new_plaintext: Vec<u8>,
    ) -> (r: Result<(), VaultError>)
        requires
            wf(*old(self)),
            outcome is NotFound ==> !has_resource(*old(self), name@) && mode is NoCreate,
        ensures
            wf(*final(self)),
            r is Ok <==> outcome is Saved,
            !(outcome is Saved) ==> *final(self) == *old(self),
            outcome is NotFound ==> (r matches Err(VaultError::ResourceNotFound { path }) && path@
                == name@),
            outcome is DecryptFailed ==> (r matches Err(VaultError::DecryptionFailed { path })
                && path@ == name@),
            outcome is EditorSpawnFailed ==> r == Err::<(), VaultError>(
                VaultError::EditorSpawnFailed,
            ),
            outcome is EditorFailed ==> r == Err::<(), VaultError>(VaultError::EditorFailed),
            outcome is ReencryptFailed ==> (r matches Err(VaultError::EncryptionFailed { path })
                && path@ == name@),
            outcome is Saved ==> {
                &&& final(self).ledger == old(self).ledger
                &&& final(self).key_mirror == old(self).key_mirror
                &&& final(self).vault_id == old(self).vault_id
                &&& final(self).secrets_dir == old(self).secrets_dir
                &&& final(self).gpg_keys_dir == old(self).gpg_keys_dir
                &&& final(self).recipients_file == old(self).recipients_file
                &&& has_resource(*final(self), name@)
                &&& final(self).resources@.len() == old(self).resources@.len() + (
                if has_resource(*old(self), name@) {
                    0int
                } else {
                    1int
                })
                &&& forall|i: int|
                    0 <= i < old(self).resources@.len()
                        && (#[trigger] old(self).resources@[i]).name@ != name@
                        ==> final(self).resources@[i] == old(self).resources@[i]
                &&& forall|i: int|
                    0 <= i < final(self).resources@.len()
                        && (#[trigger] final(self).resources@[i]).name@ == name@
                        ==> final(self).resources@[i].recipients@ == old(self).ledger@
                        && final(self).resources@[i].plaintext == new_plaintext
            },
            consistent(*old(self)) && r is Ok ==> consistent(*final(self)),
    {
        match outcome {
            EditOutcome::Saved => {
                let spec_pair = VaultSpec { src: name.clone(), dst: name.clone() };
                let res = self.resource_add(
                    &spec_pair,
                    new_plaintext,
                    WriteMode::AllowOverwrite,
                    true,
                );
                proof {
                    assert(res is Ok);
                }
                res
            },
            EditOutcome::NotFound => Err(VaultError::ResourceNotFound { path: name.clone() }),
            EditOutcome::DecryptFailed => Err(VaultError::DecryptionFailed { path: name.clone() }),
            EditOutcome::EditorSpawnFailed => Err(VaultError::EditorSpawnFailed),
            EditOutcome::EditorFailed => Err(VaultError::EditorFailed),
            EditOutcome::ReencryptFailed => Err(VaultError::EncryptionFailed {
                path: name.clone(),
            }),
        }
    }
}

} // verus!
