//! The mapping from a vault's trust model to the flags handed to the key
//! backend at encryption time. A pure, side-effect-free policy.

use vstd::prelude::*;
use crate::types::TrustModel;

verus! {

/// The encryption-time flags the vault passes to the key backend. This
/// library's own value; the surrounding binary translates it into whatever
/// flag word the concrete backend expects.
#[derive(Debug, Clone, Copy, PartialEq, Eq)]
pub struct EncryptFlags {
    /// When set, the backend must encrypt for every named recipient even if
    /// its local trust graph has not validated the recipient's key.
    pub always_trust: bool,
}

/// Computes the encryption flags a trust model demands: `Always` bypasses
/// the backend's trust graph, `GpgWebOfTrust` defers to it.
pub fn flags_for_model(model: &TrustModel) -> (flags: EncryptFlags)
    ensures
        flags.always_trust == (*model is Always),
{
    match *model {
        TrustModel::Always => EncryptFlags { always_trust: true },
        TrustModel::GpgWebOfTrust => EncryptFlags { always_trust: false },
    }
}

} // verus!
