//! The vault model and its operations: the recipients ledger, the resources
//! encrypted under it, and the transactional re-encryption sweep that keeps
//! the two from drifting apart.
//!
//! A ciphertext file is opaque to this library; a [`Resource`] models it by
//! the two things the vault's policy reads of it: the set of recipient
//! fingerprints it is encrypted for, and the plaintext it decrypts to. The
//! surrounding binary performs the actual encryption and decryption and
//! reports each outcome; every operation here takes those outcomes as
//! arguments and is verified for every value of them.

use vstd::prelude::*;
use crate::error::VaultError;
use crate::keys::{KeyInfo, all_have_fingerprints, fingerprint_seq, fingerprints_of_keys};
use crate::types::{VaultSpec, WriteMode};

verus! {

/// One entry of a sweep report: a resource and whether it now sits under
/// the staged recipient set.
#[derive(Debug, Clone, PartialEq, Eq)]
pub struct SweepOutcome {
    pub name: String,
    pub success: bool,
}

/// A named ciphertext resource, modelled by what the vault's policy reads
/// of it: the fingerprints it is encrypted for and the plaintext behind it.
#[derive(Debug, PartialEq, Eq)]
pub struct Resource {
    pub name: String,
    pub recipients: Vec<String>,
    pub plaintext: Vec<u8>,
}

/// A vault: its identity, the directories it owns, the recipients ledger
/// (the single source of truth for who may read it), the key mirror (which
/// fingerprints have an exported public-key file), and its resources.
#[derive(Debug, PartialEq, Eq)]
pub struct Vault {
    pub vault_id: String,
    pub secrets_dir: String,
    pub gpg_keys_dir: String,
    pub recipients_file: String,
    pub ledger: Vec<String>,
    pub key_mirror: Vec<String>,
    pub resources: Vec<Resource>,
}

/// The set of fingerprints a resource's ciphertext is encrypted for.
pub open spec fn recipient_set(r: Resource) -> Set<Seq<char>> {
    r.recipients.deep_view().to_set()
}

/// The set of fingerprints the ledger currently trusts.
pub open spec fn ledger_set(v: Vault) -> Set<Seq<char>> {
    v.ledger.deep_view().to_set()
}

/// The central consistency invariant: every resource is encrypted for
/// exactly the ledger's fingerprints.
pub open spec fn consistent(v: Vault) -> bool {
    forall|i: int|
        0 <= i < v.resources@.len() ==> recipient_set(#[trigger] v.resources@[i]) == ledger_set(v)
}

/// Whether the vault holds a resource under the given name.
pub open spec fn has_resource(v: Vault, name: Seq<char>) -> bool {
    exists|i: int| 0 <= i < v.resources@.len() && (#[trigger] v.resources@[i]).name@ == name
}

/// The index of the resource under the given name; meaningful where
/// `has_resource` holds and, names being unique in a well-formed vault,
/// unambiguous there.
pub open spec fn resource_index(v: Vault, name: Seq<char>) -> int {
    choose|i: int| 0 <= i < v.resources@.len() && (#[trigger] v.resources@[i]).name@ == name
}

/// Well-formedness: resource names are unique, and every ledger fingerprint
/// has an exported key file in the mirror, so the vault is self-contained.
pub open spec fn wf(v: Vault) -> bool {
    &&& forall|i: int, j: int|
        0 <= i < j < v.resources@.len() ==> (#[trigger] v.resources@[i]).name@ != (
        #[trigger] v.resources@[j]).name@
    &&& forall|i: int|
        0 <= i < v.ledger@.len() ==> v.key_mirror.deep_view().contains(
            (#[trigger] v.ledger@[i])@,
        )
}

/// Whether the sweep reached and re-encrypted resource `i`: it did exactly
/// when every attempt up to and including `i` succeeded, since the sweep
/// stops at the first failure.
pub open spec fn swept_through(results: Seq<bool>, i: int) -> bool {
    forall|j: int| 0 <= j <= i ==> results[j]
}

/// Law: in a consistent vault, a fingerprint can decrypt a resource exactly
/// when it stands in the ledger — every resource is readable by every
/// enrolled recipient and by no one else.
pub proof fn lemma_ledger_ciphertext_consistency(v: Vault, i: int, fpr: Seq<char>)
    requires
        consistent(v),
        0 <= i < v.resources@.len(),
    ensures
        recipient_set(v.resources@[i]).contains(fpr) <==> ledger_set(v).contains(fpr),
{
}

/// Pushing an element onto a list makes its membership exactly the old
/// membership plus that element.
proof fn lemma_contains_after_push(s: Seq<Seq<char>>, e: Seq<char>, x: Seq<char>)
    ensures
        s.push(e).contains(x) <==> (s.contains(x) || x == e),
{
    if s.contains(x) {
        let w = choose|w: int| 0 <= w < s.len() && s[w] == x;
        assert(s.push(e)[w] == x);
    }
    assert(s.push(e)[s.len() as int] == e);
    if s.push(e).contains(x) {
        let w = choose|w: int| 0 <= w < s.push(e).len() && s.push(e)[w] == x;
        if w < s.len() {
            assert(s[w] == x);
        }
    }
}

/// An exact copy of a list of fingerprints.
fn clone_strings(v: &Vec<String>) -> (r: Vec<String>)
    ensures
        r@ == v@,
{
    let mut out: Vec<String> = Vec::new();
    let mut i: usize = 0;
    while i < v.len()
        invariant
            i <= v@.len(),
            out@.len() == i,
            forall|j: int| 0 <= j < i ==> out@[j] == v@[j],
        decreases v@.len() - i,
    {
        out.push(v[i].clone());
        i += 1;
    }
    proof {
        assert(out@ =~= v@);
    }
    out
}

/// An exact copy of a byte buffer.
pub(crate) fn clone_bytes(v: &Vec<u8>) -> (r: Vec<u8>)
    ensures
        r@ == v@,
{
    let mut out: Vec<u8> = Vec::new();
    let mut i: usize = 0;
    while i < v.len()
        invariant
            i <= v@.len(),
            out@.len() == i,
            forall|j: int| 0 <= j < i ==> out@[j] == v@[j],
        decreases v@.len() - i,
    {
        out.push(v[i]);
        i += 1;
    }
    proof {
        assert(out@ =~= v@);
    }
    out
}

/// Whether the list holds the given string.
pub fn contains_string(hay: &Vec<String>, needle: &String) -> (r: bool)
    ensures
        r == hay.deep_view().contains(needle@),
{
    let mut i: usize = 0;
    while i < hay.len()
        invariant
            i <= hay@.len(),
            forall|j: int| 0 <= j < i ==> hay.deep_view()[j] != needle@,
        decreases hay@.len() - i,
    {
        if hay[i] == *needle {
            assert(hay.deep_view()[i as int] == needle@);
            return true;
        }
        i += 1;
    }
    false
}

impl Vault {
    /// The index of the resource under the given name, if any. In a
    /// well-formed vault the returned index is `resource_index`.
    pub fn find_resource(&self, name: &String) -> (r: Option<usize>)
        ensures
            match r {
                Some(i) => 0 <= i < self.resources@.len() && self.resources@[i as int].name@
                    == name@,
                None => !has_resource(*self, name@),
            },
    {
        let mut i: usize = 0;
        while i < self.resources.len()
            invariant
                i <= self.resources@.len(),
                forall|j: int| 0 <= j < i ==> (#[trigger] self.resources@[j]).name@ != name@,
            decreases self.resources@.len() - i,
        {
            if self.resources[i].name == *name {
                return Some(i);
            }
            i += 1;
        }
        None
    }

    /// The current recipient fingerprints, in ledger order.
    pub fn recipients_list(&self) -> (r: Vec<String>)
        ensures
            r@ == self.ledger@,
    {
        clone_strings(&self.ledger)
    }

    /// The names of the vault's resources, in order.
    pub fn list(&self) -> (r: Vec<String>)
        ensures
            r@.len() == self.resources@.len(),
            forall|i: int|
                0 <= i < r@.len() ==> r@[i]@ == (#[trigger] self.resources@[i]).name@,
    {
        let mut out: Vec<String> = Vec::new();
        let mut i: usize = 0;
        while i < self.resources.len()
            invariant
                i <= self.resources@.len(),
                out@.len() == i,
                forall|j: int|
                    0 <= j < i ==> out@[j]@ == (#[trigger] self.resources@[j]).name@,
            decreases self.resources@.len() - i,
        {
            out.push(self.resources[i].name.clone());
            i += 1;
        }
        out
    }

    /// Decrypts the named resource for the holder of the given secret-key
    /// fingerprint and hands the plaintext back without persisting it.
    /// Succeeds exactly when the resource exists and the caller's
    /// fingerprint is among its recipients; a decryption failure never
    /// emits partial plaintext.
    pub fn resource_show(&self, name: &String, requester_fpr: &String) -> (r: Result<
        Vec<u8>,
        VaultError,
    >)
        ensures
            !has_resource(*self, name@) ==> (r matches Err(VaultError::ResourceNotFound {
                path,
            }) && path@ == name@),
            has_resource(*self, name@) && !recipient_set(
                self.resources@[resource_index(*self, name@)],
            ).contains(requester_fpr@) && wf(*self) ==> (r matches Err(
                VaultError::DecryptionFailed { path },
            ) && path@ == name@),
            has_resource(*self, name@) && recipient_set(
                self.resources@[resource_index(*self, name@)],
            ).contains(requester_fpr@) && wf(*self) ==> (r matches Ok(p) && p@
                == self.resources@[resource_index(*self, name@)].plaintext@),
    {
        match self.find_resource(name) {
            None => Err(VaultError::ResourceNotFound { path: name.clone() }),
            Some(i) => {
                proof {
                    assert(has_resource(*self, name@));
                }
                let res = &self.resources[i];
                if contains_string(&res.recipients, requester_fpr) {
                    proof {
                        if wf(*self) {
                            let k = resource_index(*self, name@);
                            assert(self.resources@[k].name@ == name@);
                            assert(k == i as int);
                        }
                    }
                    Ok(clone_bytes(&res.plaintext))
                } else {
                    proof {
                        let k = resource_index(*self, name@);
                        if k != i as int {
                            assert(self.resources@[k].name@ == name@);
                        }
                    }
                    Err(VaultError::DecryptionFailed { path: name.clone() })
                }
            },
        }
    }

    /// Encrypts plaintext for the full current recipient set and stores it
    /// under the destination name of the spec, replacing existing content
    /// only when the write mode allows it. `encrypt_ok` is the backend's
    /// report of whether encryption succeeded; on any failure the vault is
    /// exactly as it was.
    pub fn resource_add(
        &mut self,
        spec: &VaultSpec,
        plaintext: Vec<u8>,
        mode: WriteMode,
        encrypt_ok: bool,
    ) -> (r: Result<(), VaultError>)
        requires
            wf(*old(self)),
        ensures
            wf(*final(self)),
            r is Err ==> *final(self) == *old(self),
            has_resource(*old(self), spec.dst@) && mode is RefuseOverwrite ==> (r matches Err(
                VaultError::WouldOverwrite { path },
            ) && path@ == spec.dst@),
            !(has_resource(*old(self), spec.dst@) && mode is RefuseOverwrite) && !encrypt_ok ==> (
            r matches Err(VaultError::EncryptionFailed { path }) && path@ == spec.dst@),
            r is Ok <==> !(has_resource(*old(self), spec.dst@) && mode is RefuseOverwrite)
                && encrypt_ok,
            r is Ok ==> {
                &&& final(self).vault_id == old(self).vault_id
                &&& final(self).secrets_dir == old(self).secrets_dir
                &&& final(self).gpg_keys_dir == old(self).gpg_keys_dir
                &&& final(self).recipients_file == old(self).recipients_file
                &&& final(self).ledger == old(self).ledger
                &&& final(self).key_mirror == old(self).key_mirror
                &&& has_resource(*final(self), spec.dst@)
                &&& final(self).resources@.len() == old(self).resources@.len() + (
                if has_resource(*old(self), spec.dst@) {
                    0int
                } else {
                    1int
                })
                &&& forall|i: int|
                    0 <= i < old(self).resources@.len()
                        && (#[trigger] old(self).resources@[i]).name@ != spec.dst@
                        ==> final(self).resources@[i] == old(self).resources@[i]
                &&& forall|i: int|
                    0 <= i < final(self).resources@.len()
                        && (#[trigger] final(self).resources@[i]).name@ == spec.dst@
                        ==> final(self).resources@[i].recipients@ == old(self).ledger@
                        && final(self).resources@[i].plaintext == plaintext
            },
            consistent(*old(self)) && r is Ok ==> consistent(*final(self)),
    {
        let refuse = mode.refuse_overwrite();
        match self.find_resource(&spec.dst) {
            Some(i) => {
                proof {
                    assert(has_resource(*self, spec.dst@));
                }
                if refuse {
                    return Err(VaultError::WouldOverwrite { path: spec.dst.clone() });
                }
                if !encrypt_ok {
                    return Err(VaultError::EncryptionFailed { path: spec.dst.clone() });
                }
                let new_r = Resource {
                    name: spec.dst.clone(),
                    recipients: clone_strings(&self.ledger),
                    plaintext,
                };
                self.resources[i] = new_r;
                proof {
                    if consistent(*old(self)) {
                        assert forall|k: int|
                            0 <= k < self.resources@.len() implies recipient_set(
                            #[trigger] self.resources@[k],
                        ) == ledger_set(*self) by {
                            if k == i as int {
                                assert(self.resources@[k].recipients.deep_view()
                                    =~= self.ledger.deep_view());
                            } else {
                                assert(self.resources@[k] == old(self).resources@[k]);
                            }
                        }
                    }
                    assert(self.resources@[i as int].recipients.deep_view()
                        =~= self.ledger.deep_view());
                }
                Ok(())
            },
            None => {
                if !encrypt_ok {
                    return Err(VaultError::EncryptionFailed { path: spec.dst.clone() });
                }
                let new_r = Resource {
                    name: spec.dst.clone(),
                    recipients: clone_strings(&self.ledger),
                    plaintext,
                };
                self.resources.push(new_r);
                proof {
                    let n = old(self).resources@.len() as int;
                    assert(self.resources@[n].name@ == spec.dst@);
                    if consistent(*old(self)) {
                        assert forall|k: int|
                            0 <= k < self.resources@.len() implies recipient_set(
                            #[trigger] self.resources@[k],
                        ) == ledger_set(*self) by {
                            if k == n {
                                assert(self.resources@[k].recipients.deep_view()
                                    =~= self.ledger.deep_view());
                            } else {
                                assert(self.resources@[k] == old(self).resources@[k]);
                            }
                        }
                    }
                    assert(self.resources@[n].recipients.deep_view() =~= self.ledger.deep_view());
                }
                Ok(())
            },
        }
    }

    /// Deletes the named resource's ciphertext. No re-encryption is needed:
    /// no content remains.
    pub fn resource_remove(&mut self, spec: &VaultSpec) -> (r: Result<(), VaultError>)
        requires
            wf(*old(self)),
        ensures
            wf(*final(self)),
            r is Err ==> *final(self) == *old(self),
            !has_resource(*old(self), spec.dst@) ==> (r matches Err(VaultError::ResourceNotFound {
                path,
            }) && path@ == spec.dst@),
            has_resource(*old(self), spec.dst@) ==> r is Ok && final(self).resources@ == old(self).resources@.remove(resource_index(*old(self), spec.dst@)),
            r is Ok ==> final(self).ledger == old(self).ledger && final(self).key_mirror == old(self).key_mirror && final(self).vault_id == old(self).vault_id && final(self).secrets_dir
                == old(self).secrets_dir && final(self).gpg_keys_dir == old(self).gpg_keys_dir
                && final(self).recipients_file == old(self).recipients_file,
            consistent(*old(self)) && r is Ok ==> consistent(*final(self)),
    {
        match self.find_resource(&spec.dst) {
            None => Err(VaultError::ResourceNotFound { path: spec.dst.clone() }),
            Some(i) => {
                proof {
                    assert(has_resource(*self, spec.dst@));
                    let k = resource_index(*self, spec.dst@);
                    assert(self.resources@[k].name@ == spec.dst@);
                    assert(k == i as int);
                }
                self.resources.remove(i);
                proof {
                    if consistent(*old(self)) {
                        assert forall|k: int|
                            0 <= k < self.resources@.len() implies recipient_set(
                            #[trigger] self.resources@[k],
                        ) == ledger_set(*self) by {
                            if k < i as int {
                                assert(self.resources@[k] == old(self).resources@[k]);
                            } else {
                                assert(self.resources@[k] == old(self).resources@[k + 1]);
                            }
                        }
                    }
                }
                Ok(())
            },
        }
    }

    /// Exports one recipient key into the vault's key mirror, named by its
    /// fingerprint, overwriting any earlier export. `export_ok` is the
    /// backend's report of whether exporting and writing the key file
    /// succeeded. Returns the fingerprint and the mirrored path; on any
    /// failure the vault is exactly as it was, and the recipient must not
    /// be added to the ledger.
    pub fn export_key(&mut self, key: &KeyInfo, export_ok: bool) -> (r: Result<
        (String, String),
        VaultError,
    >)
        ensures
            r is Err ==> *final(self) == *old(self),
            key.fingerprint is None ==> r == Err::<(String, String), VaultError>(
                VaultError::FingerprintUnavailable,
            ),
            key.fingerprint is Some && !export_ok ==> (r matches Err(VaultError::KeyExportFailed {
                fingerprint,
            }) && fingerprint@ == key.fingerprint->0@),
            r is Ok <==> key.fingerprint is Some && export_ok,
            r is Ok ==> {
                &&& r->Ok_0.0@ == key.fingerprint->0@
                &&& r->Ok_0.1@ == old(self).gpg_keys_dir@ + "/"@ + key.fingerprint->0@
                &&& final(self).key_mirror.deep_view().contains(key.fingerprint->0@)
                &&& forall|x: Seq<char>|
                    final(self).key_mirror.deep_view().contains(x) <==> (old(self).key_mirror.deep_view().contains(x) || x == key.fingerprint->0@)
                &&& final(self).ledger == old(self).ledger
                &&& final(self).resources == old(self).resources
                &&& final(self).vault_id == old(self).vault_id
                &&& final(self).secrets_dir == old(self).secrets_dir
                &&& final(self).gpg_keys_dir == old(self).gpg_keys_dir
                &&& final(self).recipients_file == old(self).recipients_file
            },
            wf(*old(self)) ==> wf(*final(self)),
    {
        let fpr = match &key.fingerprint {
            Some(f) => f.clone(),
            None => {
                return Err(VaultError::FingerprintUnavailable);
            },
        };
        if !export_ok {
            return Err(VaultError::KeyExportFailed { fingerprint: fpr });
        }
        let mut path = self.gpg_keys_dir.clone();
        path.append("/");
        path.append(fpr.as_str());
        if !contains_string(&self.key_mirror, &fpr) {
            self.key_mirror.push(fpr.clone());
        }
        proof {
            assert forall|x: Seq<char>|
                self.key_mirror.deep_view().contains(x) <==> (old(self).key_mirror.deep_view().contains(x) || x == key.fingerprint->0@) by {
                let fv = key.fingerprint->0@;
                let omd = old(self).key_mirror.deep_view();
                let nmd = self.key_mirror.deep_view();
                if omd.contains(fv) {
                    assert(nmd == omd);
                } else {
                    assert(nmd =~= omd.push(fv));
                    assert(nmd[nmd.len() - 1] == fv);
                    assert(nmd.contains(fv));
                    if nmd.contains(x) && x != fv {
                        let w = choose|w: int| 0 <= w < nmd.len() && nmd[w] == x;
                        assert(omd[w] == x);
                        assert(omd.contains(x));
                    }
                    if omd.contains(x) {
                        let w = choose|w: int| 0 <= w < omd.len() && omd[w] == x;
                        assert(nmd[w] == x);
                        assert(nmd.contains(x));
                    }
                }
            }
            if wf(*old(self)) {
                assert forall|i: int|
                    0 <= i < self.ledger@.len() implies self.key_mirror.deep_view().contains(
                    (#[trigger] self.ledger@[i])@,
                ) by {
                    assert(old(self).key_mirror.deep_view().contains(old(self).ledger@[i]@));
                }
            }
        }
        Ok((fpr, path))
    }

    /// The transactional core of a recipient-set change (steps 4 and 5 of
    /// the recipient state machine): re-encrypts every resource under the
    /// staged recipient set, resource by resource and atomically per
    /// resource, and commits the ledger only if every resource succeeded.
    /// `results[i]` is the backend's outcome for re-encrypting resource
    /// `i`; the sweep stops at the first failure, so a resource is under
    /// the staged set exactly when every attempt up to it succeeded, and
    /// under its old ciphertext otherwise — never a mix.
    ///
    /// Returns whether the ledger was committed, and the per-resource
    /// report.
    pub fn reencrypt_all(&mut self, staged: &Vec<String>, results: &Vec<bool>) -> (r: (
        bool,
        Vec<SweepOutcome>,
    ))
        requires
            results@.len() == old(self).resources@.len(),
        ensures
            final(self).vault_id == old(self).vault_id,
            final(self).secrets_dir == old(self).secrets_dir,
            final(self).gpg_keys_dir == old(self).gpg_keys_dir,
            final(self).recipients_file == old(self).recipients_file,
            final(self).key_mirror == old(self).key_mirror,
            final(self).resources@.len() == old(self).resources@.len(),
            forall|i: int|
                0 <= i < final(self).resources@.len() ==> (#[trigger] final(self).resources@[i]).name@ == old(self).resources@[i].name@ && final(self).resources@[i].plaintext@ == old(self).resources@[i].plaintext@,
            forall|i: int|
                0 <= i < final(self).resources@.len() && swept_through(results@, i) ==> (
                #[trigger] final(self).resources@[i]).recipients@ == staged@,
            forall|i: int|
                0 <= i < final(self).resources@.len() && !swept_through(results@, i) ==> (
                #[trigger] final(self).resources@[i]) == old(self).resources@[i],
            r.0 <==> (forall|j: int| 0 <= j < results@.len() ==> results@[j]),
            r.0 ==> final(self).ledger@ == staged@,
            !r.0 ==> final(self).ledger == old(self).ledger,
            r.1@.len() == old(self).resources@.len(),
            forall|i: int|
                0 <= i < r.1@.len() ==> (#[trigger] r.1@[i]).name@ == old(self).resources@[i].name@ && (r.1@[i].success <==> swept_through(results@, i)),
            r.0 ==> consistent(*final(self)),
            wf(*old(self)) && (forall|i: int|
                0 <= i < staged@.len() ==> old(self).key_mirror.deep_view().contains(
                    (#[trigger] staged@[i])@,
                )) ==> wf(*final(self)),
    {
        let n = self.resources.len();
        let mut report: Vec<SweepOutcome> = Vec::new();
        let mut ok_so_far: bool = true;
        let mut i: usize = 0;
        while i < n
            invariant
                n == self.resources@.len(),
                n == old(self).resources@.len(),
                results@.len() == n,
                i <= n,
                ok_so_far <==> (forall|j: int| 0 <= j < i ==> results@[j]),
                self.ledger == old(self).ledger,
                self.key_mirror == old(self).key_mirror,
                self.vault_id == old(self).vault_id,
                self.secrets_dir == old(self).secrets_dir,
                self.gpg_keys_dir == old(self).gpg_keys_dir,
                self.recipients_file == old(self).recipients_file,
                forall|j: int| i <= j < n ==> self.resources@[j] == old(self).resources@[j],
                forall|j: int|
                    0 <= j < n ==> (#[trigger] self.resources@[j]).name@ == old(self).resources@[j].name@ && self.resources@[j].plaintext@ == old(self).resources@[j].plaintext@,
                forall|j: int|
                    0 <= j < i && swept_through(results@, j) ==> (#[trigger] self.resources@[j]).recipients@
                        == staged@,
                forall|j: int|
                    0 <= j < i && !swept_through(results@, j) ==> (#[trigger] self.resources@[j])
                        == old(self).resources@[j],
                report@.len() == i,
                forall|j: int|
                    0 <= j < i ==> (#[trigger] report@[j]).name@ == old(self).resources@[j].name@
                        && (report@[j].success <==> swept_through(results@, j)),
            decreases n - i,
        {
            let succ = ok_so_far && results[i];
            let name_for_report = self.resources[i].name.clone();
            if succ {
                let new_r = Resource {
                    name: self.resources[i].name.clone(),
                    recipients: clone_strings(staged),
                    plaintext: clone_bytes(&self.resources[i].plaintext),
                };
                self.resources[i] = new_r;
            }
            report.push(SweepOutcome { name: name_for_report, success: succ });
            ok_so_far = succ;
            i += 1;
        }
        if ok_so_far {
            self.ledger = clone_strings(staged);
            proof {
                assert forall|k: int|
                    0 <= k < self.resources@.len() implies recipient_set(
                    #[trigger] self.resources@[k],
                ) == ledger_set(*self) by {
                    assert(swept_through(results@, k));
                    assert(self.resources@[k].recipients.deep_view() =~= self.ledger.deep_view());
                }
            }
        }
        (ok_so_far, report)
    }

    /// A recipient-set change, run as the full state machine: take the
    /// fingerprint of every new key, mirror each key into the vault,
    /// stage the enlarged ledger, sweep every resource onto it, and commit
    /// the ledger only if the whole sweep succeeded.
    ///
    /// `export_ok[k]` is the backend's outcome for exporting key `k`;
    /// `sweep_results[i]` its outcome for re-encrypting resource `i`. On
    /// any failure before the sweep the vault's resources and ledger are
    /// exactly as they were; on a sweep failure the ledger is withheld and
    /// the per-resource report says which resources already sit under the
    /// new set.
    pub fn recipients_add(
        &mut self,
        new_keys: &Vec<KeyInfo>,
        export_ok: &Vec<bool>,
        sweep_results: &Vec<bool>,
    ) -> (r: Result<Vec<SweepOutcome>, VaultError>)
        requires
            wf(*old(self)),
            export_ok@.len() == new_keys@.len(),
            sweep_results@.len() == old(self).resources@.len(),
        ensures
            wf(*final(self)),
            final(self).vault_id == old(self).vault_id,
            final(self).secrets_dir == old(self).secrets_dir,
            final(self).gpg_keys_dir == old(self).gpg_keys_dir,
            final(self).recipients_file == old(self).recipients_file,
            r is Err ==> final(self).ledger == old(self).ledger,
            !all_have_fingerprints(new_keys@) ==> r == Err::<Vec<SweepOutcome>, VaultError>(
                VaultError::FingerprintUnavailable,
            ) && *final(self) == *old(self),
            all_have_fingerprints(new_keys@) && !(forall|k: int|
                0 <= k < export_ok@.len() ==> export_ok@[k]) ==> (r matches Err(
                VaultError::KeyExportFailed { fingerprint },
            ) && fingerprint_seq(new_keys@).contains(fingerprint@)) && final(self).resources == old(self).resources,
            r is Ok <==> all_have_fingerprints(new_keys@) && (forall|k: int|
                0 <= k < export_ok@.len() ==> export_ok@[k]) && (forall|j: int|
                0 <= j < sweep_results@.len() ==> sweep_results@[j]),
            r is Ok ==> {
                &&& ledger_set(*final(self)) == ledger_set(*old(self)).union(
                    fingerprint_seq(new_keys@).to_set(),
                )
                &&& consistent(*final(self))
                &&& final(self).resources@.len() == old(self).resources@.len()
                &&& forall|i: int|
                    0 <= i < final(self).resources@.len() ==> (#[trigger] final(self).resources@[i]).name@ == old(self).resources@[i].name@ && final(self).resources@[i].plaintext@ == old(self).resources@[i].plaintext@
                &&& r->Ok_0@.len() == old(self).resources@.len()
            },
            r matches Err(VaultError::SweepIncomplete { report }) ==> {
                &&& report@.len() == old(self).resources@.len()
                &&& forall|i: int|
                    0 <= i < report@.len() ==> (#[trigger] report@[i]).name@ == old(self).resources@[i].name@ && (report@[i].success <==> swept_through(
                        sweep_results@,
                        i,
                    ))
                &&& final(self).resources@.len() == old(self).resources@.len()
                &&& forall|i: int|
                    0 <= i < final(self).resources@.len() ==> (#[trigger] final(self).resources@[i]) == old(self).resources@[i] || recipient_set(
                        final(self).resources@[i],
                    ) == ledger_set(*old(self)).union(fingerprint_seq(new_keys@).to_set())
            },
    {
        let fprs = match fingerprints_of_keys(new_keys) {
            Ok(f) => f,
            Err(e) => {
                return Err(e);
            },
        };
        let ghost fseq = fingerprint_seq(new_keys@);
        let mut k: usize = 0;
        while k < new_keys.len()
            invariant
                k <= new_keys@.len(),
                export_ok@.len() == new_keys@.len(),
                all_have_fingerprints(new_keys@),
                fseq == fingerprint_seq(new_keys@),
                wf(*self),
                forall|j: int| 0 <= j < k ==> export_ok@[j],
                self.ledger == old(self).ledger,
                self.resources == old(self).resources,
                self.vault_id == old(self).vault_id,
                self.secrets_dir == old(self).secrets_dir,
                self.gpg_keys_dir == old(self).gpg_keys_dir,
                self.recipients_file == old(self).recipients_file,
                forall|x: Seq<char>|
                    old(self).key_mirror.deep_view().contains(x)
                        ==> self.key_mirror.deep_view().contains(x),
                forall|j: int| 0 <= j < k ==> self.key_mirror.deep_view().contains(#[trigger] fseq[j]),
            decreases new_keys@.len() - k,
        {
            match self.export_key(&new_keys[k], export_ok[k]) {
                Ok(_) => {},
                Err(e) => {
                    proof {
                        assert(fseq[k as int] == new_keys@[k as int].fingerprint->0@);
                        assert(fseq.contains(fseq[k as int]));
                    }
                    return Err(e);
                },
            }
            k += 1;
        }
        let mut staged = clone_strings(&self.ledger);
        let mut m: usize = 0;
        while m < fprs.len()
            invariant
                m <= fprs@.len(),
                fprs.deep_view() == fseq,
                fseq == fingerprint_seq(new_keys@),
                forall|x: Seq<char>|
                    staged.deep_view().contains(x) <==> (old(self).ledger.deep_view().contains(x) || fseq.take(m as int).contains(x)),
            decreases fprs@.len() - m,
        {
            let already = contains_string(&staged, &fprs[m]);
            proof {
                assert(fprs.deep_view()[m as int] == fseq[m as int]);
                assert(fseq.take(m + 1 as int) =~= fseq.take(m as int).push(fseq[m as int]));
            }
            if !already {
                let ghost before = staged.deep_view();
                staged.push(fprs[m].clone());
                proof {
                    assert(staged.deep_view() =~= before.push(fseq[m as int]));
                    assert forall|x: Seq<char>|
                        staged.deep_view().contains(x) <==> (old(self).ledger.deep_view().contains(x) || fseq.take(m + 1 as int).contains(
                            x,
                        )) by {
                        lemma_contains_after_push(before, fseq[m as int], x);
                        lemma_contains_after_push(fseq.take(m as int), fseq[m as int], x);
                    }
                }
            } else {
                proof {
                    assert forall|x: Seq<char>|
                        staged.deep_view().contains(x) <==> (old(self).ledger.deep_view().contains(x) || fseq.take(m + 1 as int).contains(
                            x,
                        )) by {
                        lemma_contains_after_push(fseq.take(m as int), fseq[m as int], x);
                    }
                }
            }
            m += 1;
        }
        proof {
            assert(fseq.take(fseq.len() as int) =~= fseq);
            assert forall|i: int|
                0 <= i < staged@.len() implies self.key_mirror.deep_view().contains(
                (#[trigger] staged@[i])@,
            ) by {
                assert(staged.deep_view()[i] == staged@[i]@);
                assert(staged.deep_view().contains(staged@[i]@));
                if old(self).ledger.deep_view().contains(staged@[i]@) {
                    let w = choose|w: int|
                        0 <= w < old(self).ledger.deep_view().len() && old(self).ledger.deep_view()[w] == staged@[i]@;
                    assert(old(self).key_mirror.deep_view().contains(old(self).ledger@[w]@));
                } else {
                    let w = choose|w: int| 0 <= w < fseq.len() && fseq[w] == staged@[i]@;
                    assert(self.key_mirror.deep_view().contains(fseq[w]));
                }
            }
        }
        let (committed, report) = self.reencrypt_all(&staged, sweep_results);
        proof {
            assert forall|x: Seq<char>|
                staged.deep_view().to_set().contains(x) <==> ledger_set(*old(self)).union(
                    fseq.to_set(),
                ).contains(x) by {}
            assert(staged.deep_view().to_set() =~= ledger_set(*old(self)).union(fseq.to_set()));
        }
        if committed {
            proof {
                assert(self.ledger.deep_view() =~= staged.deep_view());
                assert(ledger_set(*self) =~= ledger_set(*old(self)).union(fseq.to_set()));
            }
            Ok(report)
        } else {
            proof {
                assert forall|i: int|
                    0 <= i < self.resources@.len() implies (#[trigger] self.resources@[i]) == old(self).resources@[i] || recipient_set(self.resources@[i]) == ledger_set(
                    *old(self),
                ).union(fseq.to_set()) by {
                    if swept_through(sweep_results@, i) {
                        assert(self.resources@[i].recipients@ == staged@);
                        assert(self.resources@[i].recipients.deep_view() =~= staged.deep_view());
                    }
                }
            }
            Err(VaultError::SweepIncomplete { report })
        }
    }

    /// Creates a vault: fresh directories, no resources, the given keys
    /// mirrored and their fingerprints written as the initial ledger.
    /// `export_ok[k]` is the backend's outcome for exporting key `k`.
    pub fn init(
        vault_id: String,
        secrets_dir: String,
        gpg_keys_dir: String,
        recipients_file: String,
        keys: &Vec<KeyInfo>,
        export_ok: &Vec<bool>,
    ) -> (r: Result<Vault, VaultError>)
        requires
            export_ok@.len() == keys@.len(),
        ensures
            !all_have_fingerprints(keys@) ==> r == Err::<Vault, VaultError>(
                VaultError::FingerprintUnavailable,
            ),
            all_have_fingerprints(keys@) && !(forall|k: int|
                0 <= k < export_ok@.len() ==> export_ok@[k]) ==> (r matches Err(
                VaultError::KeyExportFailed { fingerprint },
            ) && fingerprint_seq(keys@).contains(fingerprint@)),
            r is Ok <==> all_have_fingerprints(keys@) && (forall|k: int|
                0 <= k < export_ok@.len() ==> export_ok@[k]),
            r is Ok ==> {
                &&& wf(r->Ok_0)
                &&& consistent(r->Ok_0)
                &&& r->Ok_0.resources@.len() == 0
                &&& ledger_set(r->Ok_0) == fingerprint_seq(keys@).to_set()
                &&& r->Ok_0.vault_id == vault_id
                &&& r->Ok_0.secrets_dir == secrets_dir
                &&& r->Ok_0.gpg_keys_dir == gpg_keys_dir
                &&& r->Ok_0.recipients_file == recipients_file
            },
    {
        let mut v = Vault {
            vault_id,
            secrets_dir,
            gpg_keys_dir,
            recipients_file,
            ledger: Vec::new(),
            key_mirror: Vec::new(),
            resources: Vec::new(),
        };
        let results: Vec<bool> = Vec::new();
        match v.recipients_add(keys, export_ok, &results) {
            Ok(_) => {
                proof {
                    assert(ledger_set(v) =~= fingerprint_seq(keys@).to_set());
                }
                Ok(v)
            },
            Err(e) => Err(e),
        }
    }
}

} // verus!
