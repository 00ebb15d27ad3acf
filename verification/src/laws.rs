//! What the steps of a push and of a fetch keep true.
//!
//! A manifest is sound over the containers of the blob store when every
//! object that it records is a submodule tip or lies, with all its children
//! recorded too, in the container that the manifest names for it, and every
//! ref points at a recorded object. Pushes keep a manifest sound, and a sound
//! manifest records all that its refs reach.
//!
//! A push walk finds nothing but what its root reaches, and ships each object
//! as it was read. A fetch walk that is told the truth schedules all that its
//! root reaches and the local object database lacks, and over a sound
//! manifest it finds all it looks for.

use vstd::prelude::*;
use crate::label::{label_of, lemma_decimal_digits, scale_encoding, xxh3_64};
use crate::primitives::{submodule_tip_marker, Manifest, ObjectView, PackView};
use crate::push::sealed;
use crate::traversal::{drop_known, FetchAskView, FetchTellView, FetchWalkView, PushWalkView};

verus! {

/// The containers of the blob store that the ledger refers to, by label.
pub type Store = Map<Seq<char>, PackView>;

/// The object `h` lies in the container that the manifest names for it, and
/// the manifest records each of its children.
pub open spec fn held(manifest: Manifest, store: Store, h: Seq<char>) -> bool {
    let label = manifest.objects[h];
    &&& store.contains_key(label)
    &&& store[label].objects.contains_key(h)
    &&& forall|i: int|
        0 <= i < store[label].objects[h].metadata.children().len()
            ==> manifest.objects.contains_key(
            #[trigger] store[label].objects[h].metadata.children()[i],
        )
}

/// Every recorded object is a submodule tip or is held, and every ref points
/// at a recorded object.
pub open spec fn sound(manifest: Manifest, store: Store) -> bool {
    &&& forall|h: Seq<char>| #[trigger]
        manifest.objects.contains_key(h) ==> manifest.objects[h] == submodule_tip_marker() || held(
            manifest,
            store,
            h,
        )
    &&& forall|name: Seq<char>| #[trigger]
        manifest.refs.contains_key(name) ==> manifest.objects.contains_key(manifest.refs[name])
}

/// `to` is a child of the object `from`, which the manifest records as held.
pub open spec fn child_of(manifest: Manifest, store: Store, from: Seq<char>, to: Seq<char>) -> bool {
    &&& manifest.objects.contains_key(from)
    &&& manifest.objects[from] != submodule_tip_marker()
    &&& store.contains_key(manifest.objects[from])
    &&& store[manifest.objects[from]].objects.contains_key(from)
    &&& store[manifest.objects[from]].objects[from].metadata.children().contains(to)
}

/// Each hash of `path` but the first is a child of the one before it.
pub open spec fn is_path(manifest: Manifest, store: Store, path: Seq<Seq<char>>) -> bool {
    &&& path.len() > 0
    &&& forall|i: int|
        0 <= i < path.len() - 1 ==> child_of(manifest, store, #[trigger] path[i], path[i + 1])
}

/// The blob store after the container of a walk was uploaded under its label,
/// if the walk found anything.
pub open spec fn uploaded(store: Store, pack: PackView) -> Store {
    if pack.git_hashes.len() == 0 {
        store
    } else {
        store.insert(sealed(pack).hash, sealed(pack))
    }
}

/// No label is the marker of a submodule tip: a label holds digits only.
pub proof fn lemma_label_is_no_marker(order: Seq<Seq<char>>)
    ensures
        label_of(order) != submodule_tip_marker(),
{
    reveal_strlit("submodule-tip");
    lemma_decimal_digits(xxh3_64(scale_encoding(order)) as nat);
    assert(submodule_tip_marker()[0] == 's');
}

/// In a sound manifest every hash that a ref reaches is recorded, and is a
/// submodule tip or lies in its container on the blob store.
pub proof fn reachable_objects_are_recorded(
    manifest: Manifest,
    store: Store,
    name: Seq<char>,
    path: Seq<Seq<char>>,
)
    requires
        sound(manifest, store),
        manifest.refs.contains_key(name),
        is_path(manifest, store, path),
        path[0] == manifest.refs[name],
    ensures
        forall|i: int|
            0 <= i < path.len() ==> manifest.objects.contains_key(#[trigger] path[i]) && (
            manifest.objects[path[i]] == submodule_tip_marker() || held(manifest, store, path[i])),
    decreases path.len(),
{
    if path.len() > 1 {
        let shorter = path.drop_last();
        reachable_objects_are_recorded(manifest, store, name, shorter);
        // The last hash is a child of the one before it, which is held.
        assert(shorter[path.len() - 2] == path[path.len() - 2]);
    }
}

/// The manifest of an empty repository is sound.
pub proof fn empty_manifest_is_sound(store: Store)
    ensures
        sound(Manifest { refs: Map::empty(), objects: Map::empty() }, store),
{
}

/// A push keeps the manifest sound: after the container of a finished walk
/// from `tip` was uploaded, and the walk was recorded with the ref `name`, the
/// manifest is sound over the blob store again.
///
/// The label of the container must be new to the blob store, or name the
/// same container there.
pub proof fn push_keeps_manifest_sound(
    manifest: Manifest,
    store: Store,
    walk: PushWalkView,
    name: Seq<char>,
    tip: Seq<char>,
)
    requires
        sound(manifest, store),
        walk.inv(manifest, tip),
        walk.ask() is None,
        store.contains_key(sealed(walk.pack).hash) ==> store[sealed(walk.pack).hash] == sealed(
            walk.pack,
        ),
    ensures
        sound(manifest.pushed(walk, name, tip), uploaded(store, walk.pack)),
{
}

/// Deleting a ref keeps the manifest sound.
pub proof fn delete_keeps_manifest_sound(manifest: Manifest, store: Store, name: Seq<char>)
    requires
        sound(manifest, store),
    ensures
        sound(Manifest { refs: manifest.refs.remove(name), ..manifest }, store),
{
}

/// Pushing twice is pushing once: when a finished walk from `tip` was
/// recorded with the ref `name`, a second push of `tip` to `name` finds
/// nothing at its first step, ships no container and leaves the manifest as it
/// is, so that nothing is uploaded and nothing swapped.
pub proof fn second_push_is_idle(
    manifest: Manifest,
    walk: PushWalkView,
    name: Seq<char>,
    tip: Seq<char>,
)
    requires
        walk.inv(manifest, tip),
        walk.ask() is None,
    ensures
        ({
            let first = manifest.pushed(walk, name, tip);
            let (again, ask) = PushWalkView::start(tip).step(first, None);
            &&& ask == Ok::<Option<Seq<char>>, crate::error::Error>(None)
            &&& again.pack == PackView::empty()
            &&& again.submodules == Set::<Seq<char>>::empty()
            &&& first.pushed(again, name, tip) == first
            &&& !first.push_changes(again, name, tip)
        }),
{
    let first = manifest.pushed(walk, name, tip);
    let start = PushWalkView::start(tip);
    reveal_with_fuel(drop_known, 2);
    let (again, ask) = start.step(first, None);
    let after = first.pushed(again, name, tip);
    assert(after.objects =~= first.objects);
    assert(after.refs =~= first.refs);
}

/// Each hash of `path` but the first is a child of the one before it, which
/// lies in the container.
pub open spec fn walks_in(pack: PackView, path: Seq<Seq<char>>) -> bool {
    &&& path.len() > 0
    &&& forall|k: int|
        0 <= k < path.len() - 1 ==> pack.objects.contains_key(#[trigger] path[k])
            && pack.objects[path[k]].metadata.children().contains(path[k + 1])
}

impl PushWalkView {
    /// `h` is a child of one of the first `n` objects that the walk found.
    pub open spec fn child_of_found(self, n: int, h: Seq<char>) -> bool {
        exists|j: int|
            0 <= j < n && j < self.pack.git_hashes.len() && self.pack.objects[#[trigger] self.pack.git_hashes[j]].metadata.children().contains(
                h,
            )
    }

    /// The walk from `root` has found nothing but what the root reaches:
    /// every found object, and every hash on the stack, is the root or a
    /// child of an object found before.
    pub open spec fn grounded(self, root: Seq<char>) -> bool {
        &&& forall|i: int|
            0 <= i < self.pack.git_hashes.len() ==> (#[trigger] self.pack.git_hashes[i]) == root
                || self.child_of_found(i, self.pack.git_hashes[i])
        &&& forall|k: int|
            0 <= k < self.stack.len() ==> (#[trigger] self.stack[k]) == root || self.child_of_found(
                self.pack.git_hashes.len() as int,
                self.stack[k],
            )
    }
}

/// The walk from `root` starts out grounded.
pub proof fn push_walk_starts_grounded(root: Seq<char>)
    ensures
        PushWalkView::start(root).grounded(root),
{
}

/// A step keeps the walk grounded.
pub proof fn push_step_keeps_walk_grounded(
    walk: PushWalkView,
    manifest: Manifest,
    root: Seq<char>,
    seen: Option<(ObjectView, Set<Seq<char>>)>,
)
    requires
        walk.inv(manifest, root),
        walk.grounded(root),
    ensures
        walk.step(manifest, seen).0.grounded(root),
{
    let mid = match seen {
        Some((object, tips)) => if walk.accepts(manifest, object) {
            walk.recorded(object, tips)
        } else {
            walk
        },
        None => walk,
    };
    if let Some((object, tips)) = seen {
        if walk.accepts(manifest, object) {
            let n = walk.pack.git_hashes.len() as int;
            assert forall|m: int, h: Seq<char>| walk.child_of_found(m, h) && m <= n implies mid.child_of_found(
                m,
                h,
            ) by {
                let j = choose|j: int|
                    0 <= j < m && j < walk.pack.git_hashes.len() && walk.pack.objects[#[trigger] walk.pack.git_hashes[j]].metadata.children().contains(
                        h,
                    );
                assert(mid.pack.objects[mid.pack.git_hashes[j]].metadata.children().contains(h));
            }
            assert forall|k: int| 0 <= k < mid.stack.len() implies (#[trigger] mid.stack[k]) == root
                || mid.child_of_found(mid.pack.git_hashes.len() as int, mid.stack[k]) by {
                if k >= walk.stack.len() - 1 {
                    assert(mid.pack.objects[mid.pack.git_hashes[n]].metadata.children().contains(
                        mid.stack[k],
                    ));
                }
            }
        }
    }
    crate::traversal::lemma_drop_known(mid.stack, mid.known(manifest));
}

/// A grounded walk has found nothing but what its root reaches: to each
/// found object a path leads from the root through found objects.
pub proof fn found_objects_are_reached(walk: PushWalkView, root: Seq<char>, i: int) -> (path: Seq<
    Seq<char>,
>)
    requires
        walk.pack.wf(),
        walk.grounded(root),
        0 <= i < walk.pack.git_hashes.len(),
    ensures
        walks_in(walk.pack, path),
        path[0] == root,
        path.last() == walk.pack.git_hashes[i],
    decreases i,
{
    let h = walk.pack.git_hashes[i];
    if h == root {
        seq![root]
    } else {
        let j = choose|j: int|
            0 <= j < i && j < walk.pack.git_hashes.len() && walk.pack.objects[#[trigger] walk.pack.git_hashes[j]].metadata.children().contains(
                h,
            );
        let before = found_objects_are_reached(walk, root, j);
        let path = before.push(h);
        path
    }
}

/// What the caller tells a fetch walk is true of the local object database,
/// which holds the objects `present`, and of the blob store: it tells whether
/// the object asked about is present, and hands the container that the
/// manifest names for an object that is not.
pub open spec fn honest(
    walk: FetchWalkView,
    manifest: Manifest,
    store: Store,
    present: Set<Seq<char>>,
    tell: FetchTellView,
) -> bool {
    match tell {
        FetchTellView::Start => true,
        FetchTellView::Present(p) => walk.stack.len() > 0 ==> p == present.contains(
            walk.stack.last(),
        ),
        FetchTellView::Container(pack) => walk.top_has_container(manifest) ==> {
            &&& !present.contains(walk.stack.last())
            &&& store.contains_key(manifest.objects[walk.stack.last()])
            &&& pack == store[manifest.objects[walk.stack.last()]]
        },
    }
}

impl FetchWalkView {
    /// Nothing is left to find out about `h`: it is scheduled, present, or
    /// the tip of a submodule.
    pub open spec fn settled_on(self, manifest: Manifest, present: Set<Seq<char>>, h: Seq<char>) -> bool {
        ||| self.scheduled.contains(h)
        ||| present.contains(h)
        ||| manifest.objects.contains_key(h) && manifest.objects[h] == submodule_tip_marker()
    }

    /// What holds of a walk from `root` that was told the truth: it has
    /// scheduled nothing that is present, each scheduled object lies in its
    /// container, and the root and every child of a scheduled object are
    /// settled or still on the stack.
    pub open spec fn tracks(
        self,
        manifest: Manifest,
        store: Store,
        present: Set<Seq<char>>,
        root: Seq<char>,
    ) -> bool {
        &&& self.inv(manifest)
        &&& self.settled_on(manifest, present, root) || self.stack.contains(root)
        &&& forall|h: Seq<char>| #[trigger]
            self.scheduled.contains(h) ==> {
                &&& !present.contains(h)
                &&& store.contains_key(manifest.objects[h])
                &&& store[manifest.objects[h]].objects.contains_key(h)
            }
        &&& forall|h: Seq<char>, i: int|
            self.scheduled.contains(h) && 0 <= i
                < store[manifest.objects[h]].objects[h].metadata.children().len()
                ==> self.settled_on(
                manifest,
                present,
                #[trigger] store[manifest.objects[h]].objects[h].metadata.children()[i],
            ) || self.stack.contains(store[manifest.objects[h]].objects[h].metadata.children()[i])
    }

    /// The walk has scheduled all that the root reaches and the local object
    /// database lacks: the root and every child of a scheduled object are
    /// scheduled, present, or the tip of a submodule.
    pub open spec fn complete(
        self,
        manifest: Manifest,
        store: Store,
        present: Set<Seq<char>>,
        root: Seq<char>,
    ) -> bool {
        &&& self.settled_on(manifest, present, root)
        &&& forall|h: Seq<char>, i: int|
            self.scheduled.contains(h) && 0 <= i
                < store[manifest.objects[h]].objects[h].metadata.children().len()
                ==> self.settled_on(
                manifest,
                present,
                #[trigger] store[manifest.objects[h]].objects[h].metadata.children()[i],
            )
    }

    /// Every hash on the stack is present or recorded in the manifest.
    pub open spec fn anchored(self, manifest: Manifest, present: Set<Seq<char>>) -> bool {
        forall|k: int|
            0 <= k < self.stack.len() ==> present.contains(#[trigger] self.stack[k])
                || manifest.objects.contains_key(self.stack[k])
    }
}

/// The fetch walk from `root` starts out tracking.
pub proof fn fetch_walk_starts_tracking(
    manifest: Manifest,
    store: Store,
    present: Set<Seq<char>>,
    root: Seq<char>,
)
    ensures
        FetchWalkView::start(root).tracks(manifest, store, present, root),
{
    let w = FetchWalkView::start(root);
    assert(w.stack[0] == root);
    assert(w.to_fetch.to_set() =~= w.scheduled);
}

/// A step that is told the truth keeps the fetch walk tracking.
pub proof fn fetch_step_keeps_walk_tracking(
    walk: FetchWalkView,
    manifest: Manifest,
    store: Store,
    present: Set<Seq<char>>,
    root: Seq<char>,
    tell: FetchTellView,
)
    requires
        walk.tracks(manifest, store, present, root),
        honest(walk, manifest, store, present, tell),
    ensures
        walk.step(manifest, tell).0.tracks(manifest, store, present, root),
{
    crate::traversal::lemma_fetch_step_inv(walk, manifest, tell);
    let after = walk.step(manifest, tell).0;
    // The walk before the scheduled hashes leave the top of its stack.
    let mid = match tell {
        FetchTellView::Start => walk,
        FetchTellView::Present(p) => if walk.stack.len() == 0 {
            walk
        } else if p {
            walk.popped()
        } else if !manifest.objects.contains_key(walk.stack.last()) {
            walk
        } else if manifest.objects[walk.stack.last()] == submodule_tip_marker() {
            walk.popped()
        } else {
            walk
        },
        FetchTellView::Container(pack) => if !walk.top_has_container(manifest) {
            walk
        } else if !pack.objects.contains_key(walk.stack.last()) {
            walk
        } else {
            walk.expanded(pack.objects[walk.stack.last()].metadata)
        },
    };
    let top = walk.stack.last();
    if mid != walk {
        // `top` left the stack, and is settled now.
        assert forall|x: Seq<char>| walk.stack.contains(x) implies x == top || mid.stack.contains(
            x,
        ) by {
            let j = choose|j: int| 0 <= j < walk.stack.len() && walk.stack[j] == x;
            if j < walk.stack.len() - 1 {
                assert(mid.stack[j] == x);
            }
        }
        if let FetchTellView::Container(pack) = tell {
            assert forall|h: Seq<char>, i: int|
                mid.scheduled.contains(h) && 0 <= i
                    < store[manifest.objects[h]].objects[h].metadata.children().len() implies mid.settled_on(
                manifest,
                present,
                #[trigger] store[manifest.objects[h]].objects[h].metadata.children()[i],
            ) || mid.stack.contains(
                store[manifest.objects[h]].objects[h].metadata.children()[i],
            ) by {
                let c = store[manifest.objects[h]].objects[h].metadata.children()[i];
                if h == top {
                    assert(mid.stack[walk.stack.len() - 1 + i] == c);
                }
            }
        }
    }
    if after != mid {
        crate::traversal::lemma_drop_known(mid.stack, mid.scheduled);
        assert forall|x: Seq<char>| mid.stack.contains(x) implies mid.scheduled.contains(x)
            || after.stack.contains(x) by {
            let j = choose|j: int| 0 <= j < mid.stack.len() && mid.stack[j] == x;
            if j < after.stack.len() {
                assert(after.stack[j] == x);
            }
        }
    }
}

/// When a tracking walk asks for nothing more, it is complete.
pub proof fn finished_fetch_walk_is_complete(
    walk: FetchWalkView,
    manifest: Manifest,
    store: Store,
    present: Set<Seq<char>>,
    root: Seq<char>,
)
    requires
        walk.tracks(manifest, store, present, root),
        walk.stack.len() == 0,
    ensures
        walk.complete(manifest, store, present, root),
{
}

/// Over a sound manifest a fetch finds all it looks for: while every hash on
/// the stack is present or recorded, no step that is told the truth fails for
/// want of an entry in the manifest or of an object in its container, and
/// every hash on the stack is present or recorded afterwards.
pub proof fn fetch_over_sound_manifest_finds_all(
    walk: FetchWalkView,
    manifest: Manifest,
    store: Store,
    present: Set<Seq<char>>,
    tell: FetchTellView,
)
    requires
        sound(manifest, store),
        walk.anchored(manifest, present),
        honest(walk, manifest, store, present, tell),
    ensures
        walk.step(manifest, tell).1 != Err::<FetchAskView, crate::error::Error>(
            crate::error::Error::Integrity,
        ),
        walk.step(manifest, tell).0.anchored(manifest, present),
{
    let after = walk.step(manifest, tell).0;
    let top = walk.stack.last();
    match tell {
        FetchTellView::Start => {
            crate::traversal::lemma_drop_known(walk.stack, walk.scheduled);
        },
        FetchTellView::Present(p) => {
            if walk.stack.len() > 0 {
                if after != walk {
                    let mid = walk.popped();
                    crate::traversal::lemma_drop_known(mid.stack, mid.scheduled);
                }
            }
        },
        FetchTellView::Container(pack) => {
            if walk.top_has_container(manifest) {
                let mid = walk.expanded(pack.objects[top].metadata);
                crate::traversal::lemma_drop_known(mid.stack, mid.scheduled);
            }
        },
    }
}

/// Two containers that list the same hashes in the same order are sealed
/// with the same label, whatever else they hold.
pub proof fn label_depends_on_the_listed_hashes_alone(a: PackView, b: PackView)
    requires
        a.git_hashes == b.git_hashes,
    ensures
        sealed(a).hash == sealed(b).hash,
{
}

/// What a push ships is what was read: an object that a step takes lies in
/// the container as it was handed in.
pub proof fn taken_object_is_kept_as_read(
    walk: PushWalkView,
    manifest: Manifest,
    object: ObjectView,
    tips: Set<Seq<char>>,
)
    requires
        walk.accepts(manifest, object),
    ensures
        walk.step(manifest, Some((object, tips))).0.pack.objects.contains_key(object.git_hash),
        walk.step(manifest, Some((object, tips))).0.pack.objects[object.git_hash] == object,
{
}

/// A step changes no object that the walk found before.
pub proof fn found_objects_stay_as_read(
    walk: PushWalkView,
    manifest: Manifest,
    seen: Option<(ObjectView, Set<Seq<char>>)>,
    h: Seq<char>,
)
    requires
        walk.pack.objects.contains_key(h),
    ensures
        walk.step(manifest, seen).0.pack.objects.contains_key(h),
        walk.step(manifest, seen).0.pack.objects[h] == walk.pack.objects[h],
{
}

/// Sealing a container changes nothing in it but the label.
pub proof fn sealing_keeps_the_objects(pack: PackView)
    ensures
        sealed(pack).objects == pack.objects,
        sealed(pack).git_hashes == pack.git_hashes,
{
}

} // verus!
