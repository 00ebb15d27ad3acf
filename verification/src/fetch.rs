//! The fetch path: which containers a fetch downloads, which object it
//! writes for each hash, and whether it sets the ref in the end.

use vstd::prelude::*;
use crate::error::Error;
use crate::primitives::{
    submodule_tip_marker, GitObject, Manifest, MultiObject, ObjectKind, PackView, RepoData,
    SUBMODULE_TIP_MARKER,
};
use crate::strset::StrSet;
use crate::text::{check_oid, is_oid, same, starts_with, texts};
use crate::traversal::{FetchWalk, FetchWalkView};

verus! {

impl Manifest {
    /// The manifest names a container for the object `h`.
    pub open spec fn has_container(self, h: Seq<char>) -> bool {
        self.objects.contains_key(h) && self.objects[h] != submodule_tip_marker()
    }

    /// The labels of the containers of the first `n` of `hashes`.
    pub open spec fn labels_of(self, hashes: Seq<Seq<char>>, n: int) -> Set<Seq<char>> {
        Set::new(
            |l: Seq<char>|
                exists|i: int| 0 <= i < n && i < hashes.len() && self.objects[#[trigger] hashes[i]] == l,
        )
    }
}

/// The object that a fetch writes for the hash `h`, which the container
/// `pack` is to hold: none where the local object database has the object
/// already. A hash without a container in the manifest, and a container
/// without the object, do not fit together.
pub open spec fn object_to_write(manifest: Manifest, h: Seq<char>, pack: PackView, present: bool)
    -> Result<Option<Seq<char>>, Error> {
    if !manifest.has_container(h) || !pack.objects.contains_key(h) {
        Err(Error::Integrity)
    } else if present {
        Ok(None)
    } else {
        Ok(Some(h))
    }
}

impl RepoData {
    /// Begins a fetch of the object `git_hash` for the ref `ref_name`.
    ///
    /// Nothing is fetched for `HEAD`. A text that is no hash of 40
    /// hexadecimal digits in lower case is refused. Otherwise the walk over
    /// what the hash reaches starts.
    pub fn begin_fetch(git_hash: &str, ref_name: &str) -> (r: Result<Option<FetchWalk>, Error>)
        ensures
            match r {
                Ok(None) => ref_name@ == "HEAD"@,
                Ok(Some(walk)) => ref_name@ != "HEAD"@ && is_oid(git_hash@) && walk@
                    == FetchWalkView::start(git_hash@),
                Err(e) => ref_name@ != "HEAD"@ && !is_oid(git_hash@) && e == Error::Protocol,
            },
    {
        if same(ref_name, "HEAD") {
            return Ok(None);
        }
        if !check_oid(git_hash) {
            return Err(Error::Protocol);
        }
        Ok(Some(FetchWalk::new(git_hash.to_owned())))
    }

    /// The labels of the containers that hold the objects of `to_fetch`: each is
    /// downloaded once. A hash for which the manifest names no container does
    /// not fit the manifest.
    pub fn containers_needed(&self, to_fetch: &Vec<String>) -> (r: Result<StrSet, Error>)
        ensures
            match r {
                Ok(labels) => {
                    &&& forall|i: int|
                        0 <= i < to_fetch@.len() ==> self@.has_container(#[trigger] texts(to_fetch@)[i])
                    &&& labels@ == self@.labels_of(texts(to_fetch@), to_fetch@.len() as int)
                },
                Err(e) => e == Error::Integrity && exists|i: int|
                    0 <= i < to_fetch@.len() && !self@.has_container(#[trigger] texts(to_fetch@)[i]),
            },
    {
        let mut labels = StrSet::new();
        let mut i: usize = 0;
        let ghost hashes = texts(to_fetch@);
        while i < to_fetch.len()
            invariant
                i <= to_fetch@.len(),
                hashes == texts(to_fetch@),
                forall|j: int| 0 <= j < i ==> self@.has_container(#[trigger] hashes[j]),
                labels@ == self@.labels_of(hashes, i as int),
            decreases to_fetch@.len() - i,
        {
            let label = match self.objects.get(to_fetch[i].as_str()) {
                None => {
                    return Err(Error::Integrity);
                },
                Some(label) => label,
            };
            if same(label.as_str(), SUBMODULE_TIP_MARKER) {
                return Err(Error::Integrity);
            }
            let ghost before = labels@;
            labels.insert(label.clone());
            proof {
                let l = self@.objects[hashes[i as int]];
                assert forall|x: Seq<char>| self@.labels_of(hashes, i + 1).contains(x) == (
                before.contains(x) || x == l) by {
                    if self@.labels_of(hashes, i + 1).contains(x) {
                        let j = choose|j: int|
                            0 <= j < i + 1 && j < hashes.len() && self@.objects[#[trigger] hashes[j]]
                                == x;
                        assert(j < i ==> before.contains(x));
                    }
                    if x == l {
                        assert(self@.objects[hashes[i as int]] == x);
                    }
                }
            }
            i += 1;
        }
        Ok(labels)
    }

    /// The object to write into the local object database for `oid`, out of
    /// the container that the manifest names for it; `None` where the
    /// database holds the object already.
    pub fn fetch_git_objects<'a>(&self, oid: &str, pack: &'a MultiObject, present: bool) -> (r:
        Result<Option<&'a GitObject>, Error>)
        ensures
            match object_to_write(self@, oid@, pack@, present) {
                Ok(Some(h)) => r matches Ok(Some(object)) && *object == pack.objects@[h],
                Ok(None) => r matches Ok(None),
                Err(e) => r matches Err(f) && f == e,
            },
    {
        let named = match self.objects.get(oid) {
            None => false,
            Some(label) => !same(label.as_str(), SUBMODULE_TIP_MARKER),
        };
        if !named {
            return Err(Error::Integrity);
        }
        match pack.objects.get(oid) {
            None => Err(Error::Integrity),
            Some(object) => if present {
                Ok(None)
            } else {
                Ok(Some(object))
            },
        }
    }

    /// Whether a fetch that brought the tip of kind `tip` sets the ref
    /// `ref_name` to it: it does for a commit, unless the ref is a tag,
    /// which git sets itself, as it does for a tag object. A tip that is
    /// neither commit nor tag does not fit a ref.
    pub fn fetch_to_ref_from_str(tip: ObjectKind, ref_name: &str) -> (r: Result<bool, Error>)
        ensures
            r == sets_ref(tip, ref_name@),
    {
        match tip {
            ObjectKind::Commit => Ok(!starts_with(ref_name, "refs/tags")),
            ObjectKind::Tag => Ok(false),
            _ => Err(Error::Integrity),
        }
    }
}

/// Whether the ref `ref_name` is set after a tip of kind `tip` was fetched.
pub open spec fn sets_ref(tip: ObjectKind, ref_name: Seq<char>) -> Result<bool, Error> {
    match tip {
        ObjectKind::Commit => Ok(!"refs/tags"@.is_prefix_of(ref_name)),
        ObjectKind::Tag => Ok(false),
        _ => Err(Error::Integrity),
    }
}

/// Holds the hash that the local object database computed for the bytes it
/// wrote against the hash that the sender declared: the object is accepted
/// if and only if the two are the same.
pub fn verify_written(declared: &str, written: &str) -> (r: Result<(), Error>)
    ensures
        r is Ok <==> declared@ == written@,
        r is Err ==> r == Err::<(), Error>(Error::Integrity),
{
    if same(declared, written) {
        Ok(())
    } else {
        Err(Error::Integrity)
    }
}

} // verus!
