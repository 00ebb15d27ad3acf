//! The traversal engine: the two walks over the object graph, each as a step
//! from the state of the walk and what the caller has just read to the next
//! state and what the caller is to read next.
//!
//! Both walks go depth first with an explicit stack of hashes. The caller
//! owns the loop and the reading; every decision is taken here.

use vstd::prelude::*;
use crate::error::Error;
use crate::primitives::{
    submodule_tip_marker, GitObject, GitObjectMetadata, Manifest, MetadataView, MultiObject,
    ObjectView, PackView, RepoData, SUBMODULE_TIP_MARKER,
};
use crate::strset::StrSet;
use crate::text::{same, texts};

verus! {

/// The stack without the hashes at its top that are in `known`.
pub open spec fn drop_known(stack: Seq<Seq<char>>, known: Set<Seq<char>>) -> Seq<Seq<char>>
    decreases stack.len(),
{
    if stack.len() == 0 {
        stack
    } else if known.contains(stack.last()) {
        drop_known(stack.drop_last(), known)
    } else {
        stack
    }
}

/// What is left of a stack after `drop_known` is a prefix of it, and its top,
/// if it has one, is not known.
pub proof fn lemma_drop_known(stack: Seq<Seq<char>>, known: Set<Seq<char>>)
    ensures
        drop_known(stack, known).len() <= stack.len(),
        drop_known(stack, known) == stack.take(drop_known(stack, known).len() as int),
        drop_known(stack, known).len() > 0 ==> !known.contains(drop_known(stack, known).last()),
        forall|i: int|
            drop_known(stack, known).len() <= i < stack.len() ==> known.contains(#[trigger] stack[i]),
    decreases stack.len(),
{
    if stack.len() > 0 && known.contains(stack.last()) {
        lemma_drop_known(stack.drop_last(), known);
        let rest = drop_known(stack.drop_last(), known);
        assert forall|i: int| rest.len() <= i < stack.len() implies known.contains(
            #[trigger] stack[i],
        ) by {
            if i < stack.len() - 1 {
                assert(stack.drop_last()[i] == stack[i]);
            }
        }
    }
}

/// Puts the members of `set` on the stack, in ascending order.
fn stack_members(stack: &mut Vec<String>, set: &StrSet)
    ensures
        texts(final(stack)@) == texts(old(stack)@) + set.seq(),
{
    let ghost start = texts(stack@);
    let n = set.len();
    let mut i: usize = 0;
    while i < n
        invariant
            i <= n,
            n == set.seq().len(),
            texts(stack@) == start + set.seq().take(i as int),
        decreases n - i,
    {
        let ghost before = texts(stack@);
        stack.push(set.get(i).clone());
        assert(texts(stack@) =~= before.push(set.seq()[i as int]));
        i += 1;
    }
}

/// Puts the children that `metadata` names on the stack.
fn stack_children(stack: &mut Vec<String>, metadata: &GitObjectMetadata)
    ensures
        texts(final(stack)@) == texts(old(stack)@) + metadata@.children(),
{
    match metadata {
        GitObjectMetadata::Commit { parent_git_hashes, tree_git_hash } => {
            stack.push(tree_git_hash.clone());
            stack_members(stack, parent_git_hashes);
        },
        GitObjectMetadata::Tag { target_git_hash } => {
            stack.push(target_git_hash.clone());
        },
        GitObjectMetadata::Tree { entry_git_hashes } => {
            stack_members(stack, entry_git_hashes);
        },
        GitObjectMetadata::Blob => {},
    }
}

/// The walk that finds what a push has to ship.
#[derive(Clone, Debug, PartialEq, Eq)]
pub struct PushWalk {
    /// The hashes still to be looked at; the last one is looked at next.
    pub stack: Vec<String>,
    /// The objects found so far, in the order in which they were found.
    pub pack: MultiObject,
    /// The tips of submodules met in trees.
    pub submodules: StrSet,
}

/// The model of [`PushWalk`].
pub struct PushWalkView {
    pub stack: Seq<Seq<char>>,
    pub pack: PackView,
    pub submodules: Set<Seq<char>>,
}

impl View for PushWalk {
    type V = PushWalkView;

    open spec fn view(&self) -> PushWalkView {
        PushWalkView { stack: texts(self.stack@), pack: self.pack@, submodules: self.submodules@ }
    }
}

impl PushWalkView {
    /// The walk that has `root` to look at and has found nothing.
    pub open spec fn start(root: Seq<char>) -> PushWalkView {
        PushWalkView { stack: seq![root], pack: PackView::empty(), submodules: Set::empty() }
    }

    /// The hashes that the walk does not look at: those that the manifest
    /// holds and those that the walk has found.
    pub open spec fn known(self, manifest: Manifest) -> Set<Seq<char>> {
        manifest.objects.dom() + self.pack.objects.dom()
    }

    /// The walk takes an object if it is the one at the top of the stack and
    /// is not known.
    pub open spec fn accepts(self, manifest: Manifest, object: ObjectView) -> bool {
        &&& self.stack.len() > 0
        &&& self.stack.last() == object.git_hash
        &&& !self.known(manifest).contains(object.git_hash)
    }

    /// The walk after it took `object`: the object is found, its children
    /// take its place on the stack, the submodule tips of its tree are noted.
    pub open spec fn recorded(self, object: ObjectView, tips: Set<Seq<char>>) -> PushWalkView {
        PushWalkView {
            stack: self.stack.drop_last() + object.metadata.children(),
            pack: self.pack.add(object),
            submodules: self.submodules + tips,
        }
    }

    /// The walk after the known hashes were taken off the top of the stack.
    pub open spec fn settled(self, manifest: Manifest) -> PushWalkView {
        PushWalkView { stack: drop_known(self.stack, self.known(manifest)), ..self }
    }

    /// The hash whose object the caller is to read next; `None` when the walk
    /// is done.
    pub open spec fn ask(self) -> Option<Seq<char>> {
        if self.stack.len() == 0 {
            None
        } else {
            Some(self.stack.last())
        }
    }

    /// One step of the walk. `seen` is the object that the caller read for
    /// the hash asked for by the step before, with the submodule tips of its
    /// tree; the first step sees nothing. An object that the walk does not
    /// take is a failure of the local object database and leaves the walk as
    /// it was.
    pub open spec fn step(self, manifest: Manifest, seen: Option<(ObjectView, Set<Seq<char>>)>) -> (
        PushWalkView,
        Result<Option<Seq<char>>, Error>,
    ) {
        match seen {
            Some((object, tips)) => {
                if self.accepts(manifest, object) {
                    let next = self.recorded(object, tips).settled(manifest);
                    (next, Ok(next.ask()))
                } else {
                    (self, Err(Error::Local))
                }
            },
            None => {
                let next = self.settled(manifest);
                (next, Ok(next.ask()))
            },
        }
    }

    /// What holds of a walk from `root` at every step: the container is
    /// well-formed and holds nothing that the manifest holds, and the root and
    /// every child of a found object are found, held by the manifest, or
    /// still on the stack.
    pub open spec fn inv(self, manifest: Manifest, root: Seq<char>) -> bool {
        &&& self.pack.wf()
        &&& forall|h: Seq<char>| #[trigger]
            self.pack.objects.contains_key(h) ==> !manifest.objects.contains_key(h)
        &&& self.known(manifest).contains(root) || self.stack.contains(root)
        &&& forall|h: Seq<char>, i: int|
            self.pack.objects.contains_key(h) && 0 <= i < self.pack.objects[h].metadata.children().len()
                ==> self.known(manifest).contains(
                #[trigger] self.pack.objects[h].metadata.children()[i],
            ) || self.stack.contains(self.pack.objects[h].metadata.children()[i])
    }

    /// The container is closed over the manifest: every child of one of its
    /// objects lies in it or is held by the manifest.
    pub open spec fn closed(self, manifest: Manifest) -> bool {
        forall|h: Seq<char>, i: int|
            self.pack.objects.contains_key(h) && 0 <= i < self.pack.objects[h].metadata.children().len()
                ==> self.known(manifest).contains(
                #[trigger] self.pack.objects[h].metadata.children()[i],
            )
    }
}

/// The walk from `root` starts out with what holds at every step.
pub proof fn lemma_push_start_inv(manifest: Manifest, root: Seq<char>)
    ensures
        PushWalkView::start(root).inv(manifest, root),
{
    let w = PushWalkView::start(root);
    assert(w.stack[0] == root);
    assert(w.pack.git_hashes.to_set() =~= w.pack.objects.dom());
}

/// A step keeps what holds at every step.
pub proof fn lemma_push_step_inv(
    walk: PushWalkView,
    manifest: Manifest,
    root: Seq<char>,
    seen: Option<(ObjectView, Set<Seq<char>>)>,
)
    requires
        walk.inv(manifest, root),
    ensures
        walk.step(manifest, seen).0.inv(manifest, root),
{
    let mid = match seen {
        Some((object, tips)) => if walk.accepts(manifest, object) {
            walk.recorded(object, tips)
        } else {
            walk
        },
        None => walk,
    };
    if let Some((object, tips)) = seen {
        if walk.accepts(manifest, object) {
            walk.pack.lemma_add_wf(object);
            let top = object.git_hash;
            assert forall|x: Seq<char>| walk.stack.contains(x) implies x == top
                || mid.stack.contains(x) by {
                let j = choose|j: int| 0 <= j < walk.stack.len() && walk.stack[j] == x;
                if j < walk.stack.len() - 1 {
                    assert(mid.stack[j] == x);
                }
            }
            assert forall|h: Seq<char>, i: int|
                mid.pack.objects.contains_key(h) && 0 <= i
                    < mid.pack.objects[h].metadata.children().len() implies mid.known(
                manifest,
            ).contains(#[trigger] mid.pack.objects[h].metadata.children()[i])
                || mid.stack.contains(mid.pack.objects[h].metadata.children()[i]) by {
                let c = mid.pack.objects[h].metadata.children()[i];
                if h == top {
                    assert(mid.stack[walk.stack.len() - 1 + i] == c);
                }
            }
        }
    }
    let after = mid.settled(manifest);
    lemma_drop_known(mid.stack, mid.known(manifest));
    assert forall|x: Seq<char>| mid.stack.contains(x) implies mid.known(manifest).contains(x)
        || after.stack.contains(x) by {
        let j = choose|j: int| 0 <= j < mid.stack.len() && mid.stack[j] == x;
        if j < after.stack.len() {
            assert(after.stack[j] == x);
        }
    }
}

/// When a walk that kept its invariant asks for nothing more, its container
/// is closed over the manifest and the root is found or held by the manifest.
pub proof fn lemma_push_done_closed(walk: PushWalkView, manifest: Manifest, root: Seq<char>)
    requires
        walk.inv(manifest, root),
        walk.ask() is None,
    ensures
        walk.closed(manifest),
        walk.known(manifest).contains(root),
{
}

impl PushWalk {
    /// The walk that starts at `root`.
    pub fn new(root: String) -> (walk: Self)
        ensures
            walk@ == PushWalkView::start(root@),
    {
        let mut stack = Vec::new();
        stack.push(root);
        let walk = PushWalk { stack, pack: MultiObject::new(), submodules: StrSet::new() };
        assert(walk@.stack =~= seq![root@]);
        walk
    }

    /// Takes the known hashes off the top of the stack.
    fn settle(&mut self, manifest: &RepoData)
        ensures
            final(self)@ == old(self)@.settled(manifest@),
    {
        let ghost known = self@.known(manifest@);
        let ghost start = self@.stack;
        while self.stack.len() > 0 && (manifest.objects.contains_key(
            self.stack[self.stack.len() - 1].as_str(),
        ) || self.pack.objects.contains_key(self.stack[self.stack.len() - 1].as_str()))
            invariant
                self.pack == old(self).pack,
                self.submodules == old(self).submodules,
                known == old(self)@.known(manifest@),
                start == old(self)@.stack,
                drop_known(self@.stack, known) == drop_known(start, known),
            decreases self.stack@.len(),
        {
            let ghost before = self@.stack;
            self.stack.pop();
            assert(self@.stack =~= before.drop_last());
        }
    }

    /// Notes the submodule tips of a tree.
    fn note_tips(&mut self, tips: &StrSet)
        ensures
            final(self)@ == (PushWalkView {
                submodules: old(self)@.submodules + tips@,
                ..old(self)@
            }),
    {
        let n = tips.len();
        let ghost start = self@.submodules;
        let mut i: usize = 0;
        while i < n
            invariant
                i <= n,
                n == tips.seq().len(),
                self.pack == old(self).pack,
                self.stack == old(self).stack,
                start == old(self)@.submodules,
                self@.submodules == start + tips.seq().take(i as int).to_set(),
            decreases n - i,
        {
            self.submodules.insert(tips.get(i).clone());
            proof {
                let all = tips.seq();
                assert(all.take(i + 1) =~= all.take(i as int).push(all[i as int]));
                all.take(i as int).lemma_push_to_set_commute(all[i as int]);
            }
            i += 1;
        }
        assert(tips.seq().take(n as int) =~= tips.seq());
    }
}

impl RepoData {
    /// One step of the walk that finds what a push of `walk`'s root has to
    /// ship: the objects that the local repository reaches from the root and
    /// the manifest does not hold yet.
    ///
    /// The caller hands in the object that it read for the hash asked for by
    /// the step before, together with the submodule tips of its tree, and
    /// nothing at the first step. It gets the hash to read next, and `None`
    /// when the walk is done.
    pub fn enumerate_for_push(&self, walk: &mut PushWalk, seen: Option<(GitObject, StrSet)>) -> (ask:
        Result<Option<String>, Error>)
        ensures
            final(walk)@ == old(walk)@.step(self@, seen_view(seen)).0,
            ask_view(ask) == old(walk)@.step(self@, seen_view(seen)).1,
    {
        if let Some((object, tips)) = seen {
            let n = walk.stack.len();
            let accepted = n > 0 && walk.stack[n - 1] == object.git_hash
                && !self.objects.contains_key(object.git_hash.as_str())
                && !walk.pack.objects.contains_key(object.git_hash.as_str());
            if !accepted {
                return Err(Error::Local);
            }
            let ghost before = walk@;
            walk.stack.pop();
            assert(walk@.stack =~= before.stack.drop_last());
            stack_children(&mut walk.stack, &object.metadata);
            walk.note_tips(&tips);
            walk.pack.add(object);
        }
        walk.settle(self);
        let n = walk.stack.len();
        if n == 0 {
            Ok(None)
        } else {
            Ok(Some(walk.stack[n - 1].clone()))
        }
    }
}

/// What the caller hands to a step of the push walk, as the model sees it.
pub open spec fn seen_view(seen: Option<(GitObject, StrSet)>) -> Option<(ObjectView, Set<Seq<char>>)> {
    match seen {
        Some((object, tips)) => Some((object@, tips@)),
        None => None,
    }
}

/// What a step of the push walk answers, as the model sees it.
pub open spec fn ask_view(ask: Result<Option<String>, Error>) -> Result<Option<Seq<char>>, Error> {
    match ask {
        Ok(Some(hash)) => Ok(Some(hash@)),
        Ok(None) => Ok(None),
        Err(e) => Err(e),
    }
}

/// The walk that finds what a fetch has to bring.
#[derive(Clone, Debug, PartialEq, Eq)]
pub struct FetchWalk {
    /// The hashes still to be looked at; the last one is looked at next.
    pub stack: Vec<String>,
    /// The hashes of the objects to bring, in the order in which the walk
    /// scheduled them.
    pub to_fetch: Vec<String>,
    /// The scheduled hashes as a set.
    pub scheduled: StrSet,
}

/// The model of [`FetchWalk`].
pub struct FetchWalkView {
    pub stack: Seq<Seq<char>>,
    pub to_fetch: Seq<Seq<char>>,
    pub scheduled: Set<Seq<char>>,
}

impl View for FetchWalk {
    type V = FetchWalkView;

    open spec fn view(&self) -> FetchWalkView {
        FetchWalkView {
            stack: texts(self.stack@),
            to_fetch: texts(self.to_fetch@),
            scheduled: self.scheduled@,
        }
    }
}

/// What the caller of the fetch walk has found out since the step before.
#[derive(Clone, Copy, Debug)]
pub enum FetchTell<'a> {
    /// Nothing: this is the first step.
    Start,
    /// Whether the local object database holds the object asked about.
    Present(bool),
    /// The container asked for.
    Container(&'a MultiObject),
}

/// The model of [`FetchTell`].
pub enum FetchTellView {
    Start,
    Present(bool),
    Container(PackView),
}

impl<'a> View for FetchTell<'a> {
    type V = FetchTellView;

    open spec fn view(&self) -> FetchTellView {
        match *self {
            FetchTell::Start => FetchTellView::Start,
            FetchTell::Present(present) => FetchTellView::Present(present),
            FetchTell::Container(pack) => FetchTellView::Container(pack@),
        }
    }
}

/// What the fetch walk wants from its caller next.
#[derive(Clone, Debug, PartialEq, Eq)]
pub enum FetchAsk {
    /// Nothing: the walk is done.
    Done,
    /// Whether the local object database holds the object of this hash.
    Probe(String),
    /// The container with this label.
    Load(String),
}

/// The model of [`FetchAsk`].
pub enum FetchAskView {
    Done,
    Probe(Seq<char>),
    Load(Seq<char>),
}

impl View for FetchAsk {
    type V = FetchAskView;

    open spec fn view(&self) -> FetchAskView {
        match *self {
            FetchAsk::Done => FetchAskView::Done,
            FetchAsk::Probe(hash) => FetchAskView::Probe(hash@),
            FetchAsk::Load(label) => FetchAskView::Load(label@),
        }
    }
}

impl FetchWalkView {
    /// The walk that has `root` to look at and has scheduled nothing.
    pub open spec fn start(root: Seq<char>) -> FetchWalkView {
        FetchWalkView { stack: seq![root], to_fetch: Seq::empty(), scheduled: Set::empty() }
    }

    /// The walk without the hash at the top of its stack.
    pub open spec fn popped(self) -> FetchWalkView {
        FetchWalkView { stack: self.stack.drop_last(), ..self }
    }

    /// The walk after the object at the top of the stack, which carries
    /// `metadata`, was scheduled: its children take its place on the stack.
    pub open spec fn expanded(self, metadata: MetadataView) -> FetchWalkView {
        FetchWalkView {
            stack: self.stack.drop_last() + metadata.children(),
            to_fetch: self.to_fetch.push(self.stack.last()),
            scheduled: self.scheduled.insert(self.stack.last()),
        }
    }

    /// The walk after the scheduled hashes were taken off the top of the
    /// stack, and what it then asks: about the hash at the top, or nothing.
    pub open spec fn settled(self) -> (FetchWalkView, Result<FetchAskView, Error>) {
        let next = FetchWalkView { stack: drop_known(self.stack, self.scheduled), ..self };
        if next.stack.len() == 0 {
            (next, Ok(FetchAskView::Done))
        } else {
            (next, Ok(FetchAskView::Probe(next.stack.last())))
        }
    }

    /// The hash at the top of the stack is not scheduled yet, and the
    /// manifest names a container for it.
    pub open spec fn top_has_container(self, manifest: Manifest) -> bool {
        &&& self.stack.len() > 0
        &&& !self.scheduled.contains(self.stack.last())
        &&& manifest.objects.contains_key(self.stack.last())
        &&& manifest.objects[self.stack.last()] != submodule_tip_marker()
    }

    /// One step of the walk.
    ///
    /// * An object that the local object database holds is passed over.
    /// * One that it lacks must be in the manifest, else the manifest does not
    ///   fit the objects. A submodule tip is passed over: it is a leaf. For any
    ///   other the walk asks for its container.
    /// * Given the container, the walk schedules the object and goes on with
    ///   its children; a container without the object does not fit the
    ///   manifest.
    ///
    /// An answer to a question that the walk did not ask is a fault of the
    /// caller. A failed step leaves the walk as it was.
    pub open spec fn step(self, manifest: Manifest, tell: FetchTellView) -> (
        FetchWalkView,
        Result<FetchAskView, Error>,
    ) {
        match tell {
            FetchTellView::Start => self.settled(),
            FetchTellView::Present(present) => {
                if self.stack.len() == 0 {
                    (self, Err(Error::Protocol))
                } else if present {
                    self.popped().settled()
                } else if !manifest.objects.contains_key(self.stack.last()) {
                    (self, Err(Error::Integrity))
                } else if manifest.objects[self.stack.last()] == submodule_tip_marker() {
                    self.popped().settled()
                } else {
                    (self, Ok(FetchAskView::Load(manifest.objects[self.stack.last()])))
                }
            },
            FetchTellView::Container(pack) => {
                if !self.top_has_container(manifest) {
                    (self, Err(Error::Protocol))
                } else if !pack.objects.contains_key(self.stack.last()) {
                    (self, Err(Error::Integrity))
                } else {
                    self.expanded(pack.objects[self.stack.last()].metadata).settled()
                }
            },
        }
    }

    /// What holds of a walk at every step: the set of scheduled hashes is
    /// that of the list, the list names no hash twice, and the manifest names
    /// a container for each of them.
    pub open spec fn inv(self, manifest: Manifest) -> bool {
        &&& self.to_fetch.no_duplicates()
        &&& self.to_fetch.to_set() == self.scheduled
        &&& forall|h: Seq<char>| #[trigger]
            self.scheduled.contains(h) ==> manifest.objects.contains_key(h) && manifest.objects[h]
                != submodule_tip_marker()
    }
}

/// A step keeps what holds of a fetch walk at every step.
pub proof fn lemma_fetch_step_inv(walk: FetchWalkView, manifest: Manifest, tell: FetchTellView)
    requires
        walk.inv(manifest),
    ensures
        walk.step(manifest, tell).0.inv(manifest),
{
    if let FetchTellView::Container(pack) = tell {
        if walk.top_has_container(manifest) && pack.objects.contains_key(walk.stack.last()) {
            let top = walk.stack.last();
            walk.to_fetch.lemma_push_to_set_commute(top);
        }
    }
}

impl FetchWalk {
    /// The walk that starts at `root`.
    pub fn new(root: String) -> (walk: Self)
        ensures
            walk@ == FetchWalkView::start(root@),
    {
        let mut stack = Vec::new();
        stack.push(root);
        let walk = FetchWalk { stack, to_fetch: Vec::new(), scheduled: StrSet::new() };
        assert(walk@.stack =~= seq![root@]);
        assert(walk@.to_fetch =~= Seq::<Seq<char>>::empty());
        walk
    }

    /// Takes the scheduled hashes off the top of the stack and asks about the
    /// hash that is then at the top.
    fn settle(&mut self) -> (ask: Result<FetchAsk, Error>)
        ensures
            final(self)@ == old(self)@.settled().0,
            fetch_ask_view(ask) == old(self)@.settled().1,
    {
        let ghost known = self@.scheduled;
        let ghost start = self@.stack;
        while self.stack.len() > 0 && self.scheduled.contains(
            self.stack[self.stack.len() - 1].as_str(),
        )
            invariant
                self.to_fetch == old(self).to_fetch,
                self.scheduled == old(self).scheduled,
                known == old(self)@.scheduled,
                start == old(self)@.stack,
                drop_known(self@.stack, known) == drop_known(start, known),
            decreases self.stack@.len(),
        {
            let ghost before = self@.stack;
            self.stack.pop();
            assert(self@.stack =~= before.drop_last());
        }
        let n = self.stack.len();
        if n == 0 {
            Ok(FetchAsk::Done)
        } else {
            Ok(FetchAsk::Probe(self.stack[n - 1].clone()))
        }
    }

    /// Takes the hash at the top off the stack.
    fn pop(&mut self)
        requires
            old(self)@.stack.len() > 0,
        ensures
            final(self)@ == old(self)@.popped(),
    {
        let ghost before = self@.stack;
        self.stack.pop();
        assert(self@.stack =~= before.drop_last());
    }
}

impl RepoData {
    /// One step of the walk that finds what a fetch of `walk`'s root has to
    /// bring: the objects that the manifest reaches from the root and the
    /// local object database lacks.
    ///
    /// The caller tells what it found out for the question of the step
    /// before, and gets the next question.
    pub fn enumerate_for_fetch(&self, walk: &mut FetchWalk, tell: FetchTell<'_>) -> (ask: Result<
        FetchAsk,
        Error,
    >)
        ensures
            final(walk)@ == old(walk)@.step(self@, tell@).0,
            fetch_ask_view(ask) == old(walk)@.step(self@, tell@).1,
    {
        match tell {
            FetchTell::Start => walk.settle(),
            FetchTell::Present(present) => {
                let n = walk.stack.len();
                if n == 0 {
                    return Err(Error::Protocol);
                }
                if present {
                    walk.pop();
                    return walk.settle();
                }
                match self.objects.get(walk.stack[n - 1].as_str()) {
                    None => Err(Error::Integrity),
                    Some(label) => {
                        if same(label.as_str(), SUBMODULE_TIP_MARKER) {
                            walk.pop();
                            walk.settle()
                        } else {
                            Ok(FetchAsk::Load(label.clone()))
                        }
                    },
                }
            },
            FetchTell::Container(pack) => {
                let n = walk.stack.len();
                if n == 0 {
                    return Err(Error::Protocol);
                }
                let has_container = !walk.scheduled.contains(walk.stack[n - 1].as_str())
                    && match self.objects.get(walk.stack[n - 1].as_str()) {
                    None => false,
                    Some(label) => !same(label.as_str(), SUBMODULE_TIP_MARKER),
                };
                if !has_container {
                    return Err(Error::Protocol);
                }
                match pack.objects.get(walk.stack[n - 1].as_str()) {
                    None => Err(Error::Integrity),
                    Some(object) => {
                        let ghost before = walk@;
                        let top = walk.stack[n - 1].clone();
                        walk.stack.pop();
                        assert(walk@.stack =~= before.stack.drop_last());
                        stack_children(&mut walk.stack, &object.metadata);
                        walk.scheduled.insert(top.clone());
                        walk.to_fetch.push(top);
                        assert(walk@.to_fetch =~= before.to_fetch.push(before.stack.last()));
                        walk.settle()
                    },
                }
            },
        }
    }
}

/// What a step of the fetch walk answers, as the model sees it.
pub open spec fn fetch_ask_view(ask: Result<FetchAsk, Error>) -> Result<FetchAskView, Error> {
    match ask {
        Ok(a) => Ok(a@),
        Err(e) => Err(e),
    }
}

} // verus!
