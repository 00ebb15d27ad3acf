//! The ledger's side of a repository: a bag of labelled references to blobs,
//! among them the manifest and the containers.

use vstd::prelude::*;
use vstd::string::*;
use vstd::utf8::encode_utf8;
use crate::address::{cid_v0_text, generate_cid, sha256_multihash};
use crate::error::Error;
use crate::primitives::{MultiObject, RepoData};

verus! {

/// The label of the reference that points at the manifest.
pub const REPO_DATA_LABEL: &'static str = "RepoData";

/// A labelled reference to a blob, as the ledger lists it for a repository.
#[derive(Clone, Debug, PartialEq, Eq)]
pub struct LedgerEntry {
    /// The number that the ledger gave the reference.
    pub id: u64,
    /// The label: `RepoData`, or the label of a container.
    pub label: Vec<u8>,
    /// The SHA-256 digest of the blob.
    pub digest: [u8; 32],
}

/// The place of the first entry that carries `label`, `None` where there is
/// none.
pub open spec fn first_labelled(entries: Seq<LedgerEntry>, label: Seq<u8>) -> Option<int> {
    if exists|i: int| 0 <= i < entries.len() && (#[trigger] entries[i]).label@ == label {
        Some(
            choose|i: int|
                0 <= i < entries.len() && (#[trigger] entries[i]).label@ == label && forall|j: int|
                    0 <= j < i ==> (#[trigger] entries[j]).label@ != label,
        )
    } else {
        None
    }
}

/// Whether two byte strings are the same.
fn same_bytes(a: &[u8], b: &[u8]) -> (r: bool)
    ensures
        r == (a@ == b@),
{
    if a.len() != b.len() {
        return false;
    }
    let mut i: usize = 0;
    while i < a.len()
        invariant
            i <= a@.len(),
            a@.len() == b@.len(),
            forall|j: int| 0 <= j < i ==> a@[j] == b@[j],
        decreases a@.len() - i,
    {
        if a[i] != b[i] {
            return false;
        }
        i += 1;
    }
    assert(a@ =~= b@);
    true
}

/// Finds the first entry that carries `label`.
pub fn find_label<'a>(entries: &'a Vec<LedgerEntry>, label: &[u8]) -> (r: Option<&'a LedgerEntry>)
    ensures
        match first_labelled(entries@, label@) {
            Some(i) => r == Some(&entries@[i]),
            None => r is None,
        },
        r matches Some(entry) ==> entry.label@ == label@,
{
    let mut i: usize = 0;
    while i < entries.len()
        invariant
            i <= entries@.len(),
            forall|j: int| 0 <= j < i ==> (#[trigger] entries@[j]).label@ != label@,
        decreases entries@.len() - i,
    {
        if same_bytes(entries[i].label.as_slice(), label) {
            return Some(&entries[i]);
        }
        i += 1;
    }
    None
}

/// Where the manifest of a repository lies: the content identifier of the
/// blob that the first entry labelled `RepoData` refers to. A repository
/// without such an entry has nothing in it yet, and its manifest is empty.
pub fn get_repo(entries: &Vec<LedgerEntry>) -> (r: Option<String>)
    ensures
        match first_labelled(entries@, encode_utf8(REPO_DATA_LABEL@)) {
            None => r is None,
            Some(i) => r matches Some(id) && cid_v0_text(sha256_multihash(entries@[i].digest@))
                == Some(id@),
        },
{
    match find_label(entries, REPO_DATA_LABEL.as_bytes()) {
        Some(entry) => Some(generate_cid(&entry.digest)),
        None => None,
    }
}

impl MultiObject {
    /// Where the container with the label `hash` lies: the content
    /// identifier of the blob that the first entry with that label refers
    /// to. A label that no entry carries is not found.
    pub fn chain_get(hash: &str, entries: &Vec<LedgerEntry>) -> (r: Result<String, Error>)
        ensures
            match first_labelled(entries@, encode_utf8(hash@)) {
                None => r matches Err(Error::NotFound),
                Some(i) => r matches Ok(id) && cid_v0_text(sha256_multihash(entries@[i].digest@))
                    == Some(id@),
            },
    {
        match find_label(entries, hash.as_bytes()) {
            Some(entry) => Ok(generate_cid(&entry.digest)),
            None => Err(Error::NotFound),
        }
    }
}

impl RepoData {
    /// Pairs the number of the reference just minted for the manifest with
    /// the number of the reference that it replaces: that of the first entry
    /// labelled `RepoData`, if the repository has one.
    pub fn mint_return_new_old_id(new_id: u64, entries: &Vec<LedgerEntry>) -> (r: (u64, Option<u64>))
        ensures
            r.0 == new_id,
            match first_labelled(entries@, encode_utf8(REPO_DATA_LABEL@)) {
                None => r.1 is None,
                Some(i) => r.1 == Some(entries@[i].id),
            },
    {
        match find_label(entries, REPO_DATA_LABEL.as_bytes()) {
            Some(entry) => (new_id, Some(entry.id)),
            None => (new_id, None),
        }
    }
}

/// What one transaction on the ledger takes out of the bag of a repository
/// and what it puts in.
#[derive(Clone, Debug, PartialEq, Eq)]
pub struct Swap {
    pub remove: Vec<u64>,
    pub append: Vec<u64>,
}

/// The swap that ends a push: the old reference to the manifest, if there is
/// one, leaves; the reference to the container, if one was shipped, and the
/// new reference to the manifest come in.
pub open spec fn swap_of(old_manifest: Option<u64>, container: Option<u64>, new_manifest: u64) -> (
    Seq<u64>,
    Seq<u64>,
) {
    (
        match old_manifest {
            Some(id) => seq![id],
            None => Seq::empty(),
        },
        match container {
            Some(id) => seq![id, new_manifest],
            None => seq![new_manifest],
        },
    )
}

/// Plans the one transaction that makes a push visible on the ledger.
pub fn plan_swap(old_manifest: Option<u64>, container: Option<u64>, new_manifest: u64) -> (swap:
    Swap)
    ensures
        (swap.remove@, swap.append@) == swap_of(old_manifest, container, new_manifest),
{
    let mut remove: Vec<u64> = Vec::new();
    let mut append: Vec<u64> = Vec::new();
    if let Some(id) = old_manifest {
        remove.push(id);
    }
    if let Some(id) = container {
        append.push(id);
    }
    append.push(new_manifest);
    Swap { remove, append }
}

} // verus!
