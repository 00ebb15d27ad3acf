//! The push path: how a push begins, what it records in the manifest, and
//! what it leaves to be uploaded.

use vstd::prelude::*;
use crate::error::Error;
use crate::label::{encodable, fingerprint, label_of};
use crate::primitives::{
    submodule_tip_marker, Manifest, MultiObject, PackView, RepoData, SUBMODULE_TIP_MARKER,
};
use crate::strset::StrSet;
use crate::text::{same, texts};
use crate::traversal::{FetchWalk, PushWalk, PushWalkView};

verus! {

/// How a push begins.
#[derive(Clone, Debug, PartialEq, Eq)]
pub enum PushStart {
    /// The source was empty: the ref was taken out of the manifest, and
    /// nothing is uploaded.
    Deleted,
    /// The source is to be resolved and pushed. Where `remote_tip` is given,
    /// the caller first has to make sure that the local repository holds all
    /// that the remote reaches from it.
    Proceed { remote_tip: Option<String> },
}

/// What a push leaves to be done on the blob store and the ledger.
#[derive(Clone, Debug, PartialEq, Eq)]
pub struct PushOutcome {
    /// The container to upload and to mint a reference for, if the push found
    /// any new object.
    pub pack: Option<MultiObject>,
    /// Whether the manifest has to be uploaded and swapped in.
    pub changed: bool,
}

/// The object entries of a manifest after each of `hashes` was recorded under
/// `label`.
pub open spec fn labelled(
    objects: Map<Seq<char>, Seq<char>>,
    hashes: Seq<Seq<char>>,
    label: Seq<char>,
) -> Map<Seq<char>, Seq<char>> {
    Map::new(
        |h: Seq<char>| objects.contains_key(h) || hashes.contains(h),
        |h: Seq<char>|
            if hashes.contains(h) {
                label
            } else {
                objects[h]
            },
    )
}

/// The object entries of a manifest after each of `tips` was recorded as the
/// tip of a submodule.
pub open spec fn marked(objects: Map<Seq<char>, Seq<char>>, tips: Set<Seq<char>>) -> Map<
    Seq<char>,
    Seq<char>,
> {
    Map::new(
        |h: Seq<char>| objects.contains_key(h) || tips.contains(h),
        |h: Seq<char>|
            if tips.contains(h) {
                submodule_tip_marker()
            } else {
                objects[h]
            },
    )
}

/// The container with its label in place.
pub open spec fn sealed(pack: PackView) -> PackView {
    PackView { hash: label_of(pack.git_hashes), ..pack }
}

impl Manifest {
    /// The manifest after a sealed container was recorded: each object that
    /// the container lists lies in it.
    pub open spec fn with_pack(self, pack: PackView) -> Manifest {
        Manifest { objects: labelled(self.objects, pack.git_hashes, pack.hash), ..self }
    }

    /// The manifest after the container of a walk was recorded, if the walk
    /// found anything.
    pub open spec fn with_found(self, pack: PackView) -> Manifest {
        if pack.git_hashes.len() == 0 {
            self
        } else {
            self.with_pack(sealed(pack))
        }
    }

    /// The manifest after `tips` were recorded as tips of submodules.
    pub open spec fn with_tips(self, tips: Set<Seq<char>>) -> Manifest {
        Manifest { objects: marked(self.objects, tips), ..self }
    }

    /// The manifest after the ref `name` was set to `tip`.
    pub open spec fn with_ref(self, name: Seq<char>, tip: Seq<char>) -> Manifest {
        Manifest { refs: self.refs.insert(name, tip), ..self }
    }

    /// The manifest after a finished walk was pushed to the ref `name`.
    pub open spec fn pushed(self, walk: PushWalkView, name: Seq<char>, tip: Seq<char>) -> Manifest {
        self.with_found(walk.pack).with_tips(walk.submodules).with_ref(name, tip)
    }

    /// Whether the push of a finished walk leaves anything to upload: it
    /// found an object, it met a submodule tip that was not recorded as one,
    /// or the ref did not point at the tip.
    pub open spec fn push_changes(self, walk: PushWalkView, name: Seq<char>, tip: Seq<char>) -> bool {
        let found = self.with_found(walk.pack);
        ||| walk.pack.git_hashes.len() > 0
        ||| exists|t: Seq<char>|
            walk.submodules.contains(t) && !(#[trigger] found.objects.contains_key(t)
                && found.objects[t] == submodule_tip_marker())
        ||| !(self.refs.contains_key(name) && self.refs[name] == tip)
    }
}

impl RepoData {
    /// Begins a push of `ref_src` to `ref_dst`.
    ///
    /// An empty source asks for the ref to be deleted: it leaves the
    /// manifest's refs, and no object entry is touched. Otherwise the
    /// manifest stays as it is, and the caller is told which remote tip the
    /// local repository must not be behind: none where the push is forced or
    /// the ref is new.
    pub fn push_ref_from_str(&mut self, ref_src: &str, ref_dst: &str, force: bool) -> (start:
        PushStart)
        ensures
            final(self).objects == old(self).objects,
            ref_src@.len() == 0 ==> start is Deleted && final(self)@ == (Manifest {
                refs: old(self)@.refs.remove(ref_dst@),
                ..old(self)@
            }),
            ref_src@.len() > 0 ==> *final(self) == *old(self) && start is Proceed,
            start matches PushStart::Proceed { remote_tip } ==> match remote_tip {
                Some(tip) => !force && old(self)@.refs.contains_key(ref_dst@) && tip@ == old(
                    self,
                )@.refs[ref_dst@],
                None => force || !old(self)@.refs.contains_key(ref_dst@),
            },
    {
        if ref_src.unicode_len() == 0 {
            let ghost before = self@;
            self.refs.remove(ref_dst);
            assert(self@.refs =~= before.refs.remove(ref_dst@));
            return PushStart::Deleted;
        }
        if force {
            return PushStart::Proceed { remote_tip: None };
        }
        match self.refs.get(ref_dst) {
            Some(tip) => PushStart::Proceed { remote_tip: Some(tip.clone()) },
            None => PushStart::Proceed { remote_tip: None },
        }
    }

    /// Seals the container of a walk and records it in the manifest.
    ///
    /// An empty container is not shipped: the manifest stays as it is.
    /// Otherwise the container gets its label, and the manifest records each
    /// of its objects under that label. A list of hashes that cannot be
    /// encoded fails the push before the manifest is touched.
    pub fn push_git_objects(&mut self, pack: MultiObject) -> (r: Result<Option<MultiObject>, Error>)
        ensures
            final(self).refs == old(self).refs,
            match r {
                Ok(None) => pack@.git_hashes.len() == 0 && *final(self) == *old(self),
                Ok(Some(shipped)) => pack@.git_hashes.len() > 0 && encodable(pack@.git_hashes)
                    && shipped@ == sealed(pack@) && final(self)@ == old(self)@.with_pack(shipped@),
                Err(e) => e == Error::Local && pack@.git_hashes.len() > 0 && !encodable(
                    pack@.git_hashes,
                ) && *final(self) == *old(self),
            },
    {
        let n = pack.git_hashes.len();
        if n == 0 {
            return Ok(None);
        }
        let label = match fingerprint(&pack.git_hashes) {
            Some(label) => label,
            None => {
                return Err(Error::Local);
            },
        };
        let ghost before = self@;
        let ghost hashes = pack@.git_hashes;
        let mut i: usize = 0;
        while i < n
            invariant
                i <= n,
                n == pack.git_hashes@.len(),
                hashes == texts(pack.git_hashes@),
                self.refs == old(self).refs,
                before == old(self)@,
                self@.objects == labelled(before.objects, hashes.take(i as int), label@),
            decreases n - i,
        {
            let ghost prev = self@.objects;
            self.objects.insert(pack.git_hashes[i].clone(), label.clone());
            proof {
                let h = hashes[i as int];
                assert(hashes.take(i + 1) =~= hashes.take(i as int).push(h));
                let goal = labelled(before.objects, hashes.take(i + 1), label@);
                assert forall|x: Seq<char>| goal.contains_key(x) == prev.insert(
                    h,
                    label@,
                ).contains_key(x) by {
                    vstd::seq_lib::lemma_seq_contains_after_push(hashes.take(i as int), h, x);
                }
                assert forall|x: Seq<char>| goal.contains_key(x) implies goal[x] == prev.insert(
                    h,
                    label@,
                )[x] by {
                    vstd::seq_lib::lemma_seq_contains_after_push(hashes.take(i as int), h, x);
                }
            }
            i += 1;
        }
        assert(hashes.take(n as int) =~= hashes);
        let shipped = MultiObject { hash: label, git_hashes: pack.git_hashes, objects: pack.objects };
        Ok(Some(shipped))
    }

    /// Records the tips of submodules; says whether an entry changed.
    fn mark_tips(&mut self, tips: &StrSet) -> (changed: bool)
        ensures
            final(self).refs == old(self).refs,
            final(self)@ == old(self)@.with_tips(tips@),
            changed == (exists|t: Seq<char>|
                tips@.contains(t) && !(#[trigger] old(self)@.objects.contains_key(t) && old(
                    self,
                )@.objects[t] == submodule_tip_marker())),
    {
        let n = tips.len();
        let ghost before = self@;
        let ghost all = tips.seq();
        proof {
            tips.lemma_seq();
        }
        let mut changed = false;
        let mut i: usize = 0;
        while i < n
            invariant
                i <= n,
                n == all.len(),
                all == tips.seq(),
                all.no_duplicates(),
                self.refs == old(self).refs,
                before == old(self)@,
                self@.objects == marked(before.objects, all.take(i as int).to_set()),
                changed == (exists|j: int|
                    0 <= j < i && !(before.objects.contains_key(#[trigger] all[j])
                        && before.objects[all[j]] == submodule_tip_marker())),
            decreases n - i,
        {
            let tip = tips.get(i);
            let ghost t = all[i as int];
            let ghost prev = self@.objects;
            let previous = self.objects.insert(tip.clone(), SUBMODULE_TIP_MARKER.to_owned());
            let was_marked = match previous {
                Some(label) => same(label.as_str(), SUBMODULE_TIP_MARKER),
                None => false,
            };
            proof {
                assert(prev.contains_key(t) == before.objects.contains_key(t));
                assert(prev.contains_key(t) ==> prev[t] == before.objects[t]);
                assert(all.take(i + 1) =~= all.take(i as int).push(t));
                all.take(i as int).lemma_push_to_set_commute(t);
                assert(self@.objects =~= prev.insert(t, submodule_tip_marker()));
            }
            if !was_marked {
                changed = true;
            }
            i += 1;
        }
        proof {
            assert(all.take(n as int) =~= all);
        }
        changed
    }

    /// Ends a push: records what the finished walk found, and sets the ref
    /// `ref_dst` to `tip`.
    ///
    /// A walk that still has hashes to look at is a fault of the caller, and
    /// a container that cannot be labelled fails the push; in both cases the
    /// manifest stays as it is. Otherwise the manifest records the sealed
    /// container, then the submodule tips, then the ref, and the outcome says
    /// what is left to upload.
    pub fn complete_push(&mut self, walk: PushWalk, ref_dst: String, tip: String) -> (r: Result<
        PushOutcome,
        Error,
    >)
        ensures
            match r {
                Ok(outcome) => {
                    &&& walk@.stack.len() == 0
                    &&& final(self)@ == old(self)@.pushed(walk@, ref_dst@, tip@)
                    &&& outcome.changed == old(self)@.push_changes(walk@, ref_dst@, tip@)
                    &&& match outcome.pack {
                        Some(shipped) => walk@.pack.git_hashes.len() > 0 && shipped@ == sealed(
                            walk@.pack,
                        ),
                        None => walk@.pack.git_hashes.len() == 0,
                    }
                },
                Err(e) => {
                    &&& *final(self) == *old(self)
                    &&& if walk@.stack.len() > 0 {
                        e == Error::Protocol
                    } else {
                        e == Error::Local && walk@.pack.git_hashes.len() > 0 && !encodable(
                            walk@.pack.git_hashes,
                        )
                    }
                },
            },
    {
        if walk.stack.len() > 0 {
            return Err(Error::Protocol);
        }
        let ghost before = self@;
        let PushWalk { stack: _, pack, submodules } = walk;
        let shipped = match self.push_git_objects(pack) {
            Ok(shipped) => shipped,
            Err(e) => {
                return Err(e);
            },
        };
        let found = shipped.is_some();
        assert(self@ == before.with_found(pack@));
        let marked = self.mark_tips(&submodules);
        let ghost mid = self@;
        let previous = self.refs.insert(ref_dst, tip.clone());
        assert(self@.refs =~= mid.refs.insert(ref_dst@, tip@));
        let moved = match previous {
            Some(old_tip) => !same(old_tip.as_str(), tip.as_str()),
            None => true,
        };
        Ok(PushOutcome { pack: shipped, changed: found || marked || moved })
    }
}

/// Decides on a push that is not forced, after the walk from the remote tip
/// has ended: the push goes on if the walk found nothing to bring, and is
/// refused as behind the remote if the local repository lacks an object that
/// the remote reaches.
pub fn check_behind(missing: &FetchWalk) -> (r: Result<(), Error>)
    ensures
        r is Ok <==> missing@.to_fetch.len() == 0,
        r is Err ==> r == Err::<(), Error>(Error::Behind),
{
    if missing.to_fetch.len() == 0 {
        Ok(())
    } else {
        Err(Error::Behind)
    }
}

} // verus!
