//! The key resolver: the vault's view of the keys the backend knows, the
//! policy that picks usable keys from selector matches, and the display
//! lines under which keys are reported to the operator.
//!
//! The backend itself (listing keys, reading their attributes) is an
//! external collaborator; the surrounding binary hands its findings to this
//! module as plain values.

use vstd::prelude::*;
use crate::error::VaultError;

verus! {

/// What the vault reads of a key the backend resolved: its stable
/// fingerprint, if the backend could retrieve one, and its user identities
/// as rendered display strings.
#[derive(Debug, Clone, PartialEq, Eq)]
pub struct KeyInfo {
    pub fingerprint: Option<String>,
    pub user_ids: Vec<String>,
}

/// What joining a list of texts with a separator yields: the items in
/// order, the separator between each pair of neighbours, empty for no
/// items.
pub open spec fn join_seqs(items: Seq<Seq<char>>, sep: Seq<char>) -> Seq<char>
    decreases items.len(),
{
    if items.len() == 0 {
        Seq::empty()
    } else if items.len() == 1 {
        items[0]
    } else {
        items[0] + sep + join_seqs(items.skip(1), sep)
    }
}

/// Relies on itertools::join: combines the items into one string with the
/// separator between each pair of neighbours; an empty iterator yields the
/// empty string.
#[verifier::external_body]
fn join_strings(items: &Vec<String>, sep: &str) -> (r: String)
    ensures
        r@ == join_seqs(items.deep_view(), sep@),
{
    itertools::join(items.iter(), sep)
}

/// A key's user identities, joined for display.
pub open spec fn user_ids_display(k: KeyInfo) -> Seq<char> {
    join_seqs(k.user_ids.deep_view(), ", "@)
}

/// A key's fingerprint for display, or a marker where none is available.
pub open spec fn fingerprint_display(k: KeyInfo) -> Seq<char> {
    match k.fingerprint {
        Some(f) => f@,
        None => "[no fingerprint!]"@,
    }
}

/// Shows a key as `user ids (fingerprint)`.
pub struct UserIdFingerprint<'a>(pub &'a KeyInfo);

impl<'a> UserIdFingerprint<'a> {
    /// The display line: the user identities, then the fingerprint in
    /// parentheses.
    pub fn to_display_string(&self) -> (r: String)
        ensures
            r@ == user_ids_display(*self.0) + " ("@ + fingerprint_display(*self.0) + ")"@,
    {
        let mut s = join_strings(&self.0.user_ids, ", ");
        s.append(" (");
        match &self.0.fingerprint {
            Some(f) => s.append(f.as_str()),
            None => s.append("[no fingerprint!]"),
        }
        s.append(")");
        proof {
            assert(s@ =~= user_ids_display(*self.0) + " ("@ + fingerprint_display(*self.0)
                + ")"@);
        }
        s
    }
}

/// Shows a key as `fingerprint (user ids)`.
pub struct FingerprintUserId<'a>(pub &'a KeyInfo);

impl<'a> FingerprintUserId<'a> {
    /// The display line: the fingerprint, then the user identities in
    /// parentheses.
    pub fn to_display_string(&self) -> (r: String)
        ensures
            r@ == fingerprint_display(*self.0) + " ("@ + user_ids_display(*self.0) + ")"@,
    {
        let mut s = match &self.0.fingerprint {
            Some(f) => f.clone(),
            None => String::from_str("[no fingerprint!]"),
        };
        s.append(" (");
        let ids = join_strings(&self.0.user_ids, ", ");
        s.append(ids.as_str());
        s.append(")");
        proof {
            assert(s@ =~= fingerprint_display(*self.0) + " ("@ + user_ids_display(*self.0)
                + ")"@);
        }
        s
    }
}

/// Shows a key by its user identities alone.
pub struct KeyDisplay<'a>(pub &'a KeyInfo);

impl<'a> KeyDisplay<'a> {
    /// The display line: the user identities, joined.
    pub fn to_display_string(&self) -> (r: String)
        ensures
            r@ == user_ids_display(*self.0),
    {
        join_strings(&self.0.user_ids, ", ")
    }
}

/// One display line per key: each key's user identities.
pub open spec fn key_list_lines(keys: Seq<KeyInfo>) -> Seq<Seq<char>> {
    keys.map_values(|k: KeyInfo| user_ids_display(k))
}

/// Shows a list of keys, one display line per key, joined with commas.
pub struct KeylistDisplay<'a>(pub &'a [KeyInfo]);

impl<'a> KeylistDisplay<'a> {
    /// The display line: every key's user identities, comma-separated.
    pub fn to_display_string(&self) -> (r: String)
        ensures
            r@ == join_seqs(key_list_lines(self.0@), ", "@),
    {
        let lines = key_display_lines(self.0);
        join_strings(&lines, ", ")
    }
}

/// One rendered line per key, in order: each key's user identities.
pub fn key_display_lines(keys: &[KeyInfo]) -> (r: Vec<String>)
    ensures
        r.deep_view() == key_list_lines(keys@),
{
    let mut out: Vec<String> = Vec::new();
    let mut i: usize = 0;
    while i < keys.len()
        invariant
            0 <= i <= keys@.len(),
            out@.len() == i,
            forall|j: int| 0 <= j < i ==> out.deep_view()[j] == user_ids_display(
                #[trigger] keys@[j],
            ),
        decreases keys@.len() - i,
    {
        let line = KeyDisplay(&keys[i]).to_display_string();
        out.push(line);
        i += 1;
    }
    proof {
        assert(out.deep_view() =~= key_list_lines(keys@));
    }
    out
}

/// The fingerprint of a resolved key. A key without a retrievable
/// fingerprint cannot participate in a ledger, so its absence is a hard
/// failure.
pub fn fingerprint_of(key: &KeyInfo) -> (r: Result<String, VaultError>)
    ensures
        match key.fingerprint {
            Some(f) => r == Ok::<String, VaultError>(f),
            None => r == Err::<String, VaultError>(VaultError::FingerprintUnavailable),
        },
{
    match &key.fingerprint {
        Some(f) => Ok(f.clone()),
        None => Err(VaultError::FingerprintUnavailable),
    }
}

/// Whether every key in the list has a retrievable fingerprint.
pub open spec fn all_have_fingerprints(keys: Seq<KeyInfo>) -> bool {
    forall|i: int| 0 <= i < keys.len() ==> (#[trigger] keys[i].fingerprint) is Some
}

/// The fingerprints of the keys, in order. Meaningful only where every key
/// has one.
pub open spec fn fingerprint_seq(keys: Seq<KeyInfo>) -> Seq<Seq<char>> {
    keys.map_values(|k: KeyInfo| k.fingerprint->0@)
}

/// The fingerprint of every key, in order; fails on the first key whose
/// fingerprint the backend could not retrieve.
pub fn fingerprints_of_keys(keys: &Vec<KeyInfo>) -> (r: Result<Vec<String>, VaultError>)
    ensures
        r is Ok <==> all_have_fingerprints(keys@),
        r is Ok ==> r->Ok_0.deep_view() == fingerprint_seq(keys@),
        r is Err ==> r == Err::<Vec<String>, VaultError>(VaultError::FingerprintUnavailable),
{
    let mut out: Vec<String> = Vec::new();
    let mut i: usize = 0;
    while i < keys.len()
        invariant
            0 <= i <= keys@.len(),
            out@.len() == i,
            forall|j: int| 0 <= j < i ==> (#[trigger] keys@[j].fingerprint) is Some,
            forall|j: int| 0 <= j < i ==> out.deep_view()[j] == (
            #[trigger] keys@[j].fingerprint)->0@,
        decreases keys@.len() - i,
    {
        match &keys[i].fingerprint {
            Some(f) => out.push(f.clone()),
            None => {
                return Err(VaultError::FingerprintUnavailable);
            },
        }
        i += 1;
    }
    proof {
        assert(out.deep_view() =~= fingerprint_seq(keys@));
    }
    Ok(out)
}

/// The selection policy over the keys the backend matched for the given
/// selectors. `truncated` is the backend's signal that the match list was
/// cut short.
///
/// With no selectors, exactly one match is used implicitly; zero matches or
/// several are failures the operator must resolve. With selectors, every
/// match is returned, but at least one selector must have matched.
pub fn extract_at_least_one_secret_key(
    keys: Vec<KeyInfo>,
    gpg_key_ids: &Vec<String>,
    truncated: bool,
) -> (r: Result<Vec<KeyInfo>, VaultError>)
    ensures
        truncated ==> r == Err::<Vec<KeyInfo>, VaultError>(VaultError::TruncatedKeyList),
        !truncated && keys@.len() == 0 && gpg_key_ids@.len() == 0 ==> r == Err::<
            Vec<KeyInfo>,
            VaultError,
        >(VaultError::NoUsableKey),
        !truncated && keys@.len() == 0 && gpg_key_ids@.len() > 0 ==> r == Err::<
            Vec<KeyInfo>,
            VaultError,
        >(VaultError::NoMatchingKey),
        !truncated && keys@.len() > 1 && gpg_key_ids@.len() == 0 ==> (r matches Err(
            VaultError::AmbiguousKeySelection { candidates },
        ) && candidates.deep_view() == key_list_lines(keys@)),
        !truncated && keys@.len() >= 1 && (keys@.len() == 1 || gpg_key_ids@.len() > 0) ==> r
            == Ok::<Vec<KeyInfo>, VaultError>(keys),
{
    if truncated {
        return Err(VaultError::TruncatedKeyList);
    }
    if keys.len() == 0 {
        if gpg_key_ids.len() == 0 {
            return Err(VaultError::NoUsableKey);
        } else {
            return Err(VaultError::NoMatchingKey);
        }
    }
    if keys.len() > 1 && gpg_key_ids.len() == 0 {
        let candidates = key_display_lines(keys.as_slice());
        return Err(VaultError::AmbiguousKeySelection { candidates });
    }
    Ok(keys)
}

} // verus!
