//! The object model: git objects with the hashes of their children, the
//! container in which a push ships them, and the manifest of a repository.

use vstd::prelude::*;
use crate::strmap::{strictly_increasing, StrMap};
use crate::strset::StrSet;
use crate::text::texts;

verus! {

/// The value under which the manifest records the tip of a submodule, which
/// git obtains on its own.
pub const SUBMODULE_TIP_MARKER: &'static str = "submodule-tip";

/// The marker as a sequence of characters.
pub open spec fn submodule_tip_marker() -> Seq<char> {
    "submodule-tip"@
}

/// Settings read from the configuration file.
#[derive(Clone, Debug, PartialEq, Eq)]
pub struct Config {
    /// The websocket address of the ledger.
    pub chain_endpoint: String,
}

/// The address of the ledger that is used where none is configured.
pub const DEFAULT_CHAIN_ENDPOINT: &'static str = "wss://tinker.invarch.network:443";

impl Default for Config {
    /// The settings used where no configuration file exists yet.
    fn default() -> (config: Self)
        ensures
            config.chain_endpoint@ == DEFAULT_CHAIN_ENDPOINT@,
    {
        Config { chain_endpoint: DEFAULT_CHAIN_ENDPOINT.to_owned() }
    }
}

/// The four kinds of git object.
#[derive(Clone, Copy, Debug, PartialEq, Eq, Structural)]
pub enum ObjectKind {
    Commit,
    Tag,
    Tree,
    Blob,
}

/// One line of a tree: the hash of the child and its kind.
#[derive(Clone, Debug, PartialEq, Eq)]
pub struct TreeEntry {
    pub git_hash: String,
    pub kind: ObjectKind,
}

/// What an object of each kind says of its children.
#[derive(Clone, Debug, PartialEq, Eq)]
pub enum GitObjectMetadata {
    /// A commit names its tree and its parent commits.
    Commit { parent_git_hashes: StrSet, tree_git_hash: String },
    /// A tag names its target.
    Tag { target_git_hash: String },
    /// A tree names its blobs and subtrees; a commit among its lines is the
    /// tip of a submodule and is not listed here.
    Tree { entry_git_hashes: StrSet },
    /// A blob has no children.
    Blob,
}

/// The model of [`GitObjectMetadata`]: sets are given by their ascending
/// sequence.
pub enum MetadataView {
    Commit { parents: Seq<Seq<char>>, tree: Seq<char> },
    Tag { target: Seq<char> },
    Tree { entries: Seq<Seq<char>> },
    Blob,
}

impl MetadataView {
    /// The kind of object that carries this metadata.
    pub open spec fn kind(self) -> ObjectKind {
        match self {
            MetadataView::Commit { .. } => ObjectKind::Commit,
            MetadataView::Tag { .. } => ObjectKind::Tag,
            MetadataView::Tree { .. } => ObjectKind::Tree,
            MetadataView::Blob => ObjectKind::Blob,
        }
    }

    /// The children in the order in which a traversal stacks them: of a
    /// commit the tree, then the parents.
    pub open spec fn children(self) -> Seq<Seq<char>> {
        match self {
            MetadataView::Commit { parents, tree } => seq![tree] + parents,
            MetadataView::Tag { target } => seq![target],
            MetadataView::Tree { entries } => entries,
            MetadataView::Blob => Seq::empty(),
        }
    }
}

impl View for GitObjectMetadata {
    type V = MetadataView;

    open spec fn view(&self) -> MetadataView {
        match *self {
            GitObjectMetadata::Commit { parent_git_hashes, tree_git_hash } => MetadataView::Commit {
                parents: parent_git_hashes.seq(),
                tree: tree_git_hash@,
            },
            GitObjectMetadata::Tag { target_git_hash } => MetadataView::Tag {
                target: target_git_hash@,
            },
            GitObjectMetadata::Tree { entry_git_hashes } => MetadataView::Tree {
                entries: entry_git_hashes.seq(),
            },
            GitObjectMetadata::Blob => MetadataView::Blob,
        }
    }
}

impl GitObjectMetadata {
    /// The kind of object that carries this metadata.
    pub fn kind(&self) -> (k: ObjectKind)
        ensures
            k == self@.kind(),
    {
        match self {
            GitObjectMetadata::Commit { .. } => ObjectKind::Commit,
            GitObjectMetadata::Tag { .. } => ObjectKind::Tag,
            GitObjectMetadata::Tree { .. } => ObjectKind::Tree,
            GitObjectMetadata::Blob => ObjectKind::Blob,
        }
    }
}

/// A git object: its hash, its raw bytes as the object database stores them,
/// and the hashes of its children.
#[derive(Clone, Debug, PartialEq, Eq)]
pub struct GitObject {
    /// The hash that git gives the object.
    pub git_hash: String,
    /// The raw bytes of the object.
    pub data: Vec<u8>,
    /// The children, by kind of object.
    pub metadata: GitObjectMetadata,
}

/// The model of [`GitObject`].
pub struct ObjectView {
    pub git_hash: Seq<char>,
    pub data: Seq<u8>,
    pub metadata: MetadataView,
}

impl View for GitObject {
    type V = ObjectView;

    open spec fn view(&self) -> ObjectView {
        ObjectView { git_hash: self.git_hash@, data: self.data@, metadata: self.metadata@ }
    }
}

/// The hashes of the lines of `entries` up to `n` that are of kind commit
/// (`tips`) or of another kind.
pub open spec fn entry_hashes(entries: Seq<TreeEntry>, n: int, tips: bool) -> Set<Seq<char>> {
    Set::new(
        |h: Seq<char>|
            exists|i: int|
                0 <= i < n && i < entries.len() && (#[trigger] entries[i]).git_hash@ == h && ((
                entries[i].kind == ObjectKind::Commit) == tips),
    )
}

/// Sorts the lines of a tree into objects of this repository and tips of
/// submodules.
fn split_entries(entries: &Vec<TreeEntry>) -> (r: (StrSet, StrSet))
    ensures
        r.0@ == entry_hashes(entries@, entries@.len() as int, false),
        r.1@ == entry_hashes(entries@, entries@.len() as int, true),
{
    let mut own = StrSet::new();
    let mut tips = StrSet::new();
    let mut i: usize = 0;
    while i < entries.len()
        invariant
            i <= entries.len(),
            own@ == entry_hashes(entries@, i as int, false),
            tips@ == entry_hashes(entries@, i as int, true),
        decreases entries.len() - i,
    {
        let entry = &entries[i];
        if entry.kind == ObjectKind::Commit {
            tips.insert(entry.git_hash.clone());
        } else {
            own.insert(entry.git_hash.clone());
        }
        i += 1;
    }
    (own, tips)
}

impl GitObject {
    /// A blob with the bytes that the object database holds for it.
    pub fn from_git_blob(git_hash: String, data: Vec<u8>) -> (object: Self)
        ensures
            object@ == (ObjectView { git_hash: git_hash@, data: data@, metadata: MetadataView::Blob }),
    {
        GitObject { git_hash, data, metadata: GitObjectMetadata::Blob }
    }

    /// A commit with its tree and its parents; a parent named twice counts
    /// once.
    pub fn from_git_commit(
        git_hash: String,
        data: Vec<u8>,
        parents: &Vec<String>,
        tree: String,
    ) -> (object: Self)
        ensures
            object@.git_hash == git_hash@,
            object@.data == data@,
            object@.metadata matches MetadataView::Commit { parents: p, tree: t } && t == tree@
                && p.to_set() == texts(parents@).to_set() && strictly_increasing(p),
    {
        let mut set = StrSet::new();
        let mut i: usize = 0;
        while i < parents.len()
            invariant
                i <= parents.len(),
                set@ == texts(parents@).take(i as int).to_set(),
            decreases parents.len() - i,
        {
            set.insert(parents[i].clone());
            proof {
                let all = texts(parents@);
                assert(all.take(i + 1) =~= all.take(i as int).push(all[i as int]));
                all.take(i as int).lemma_push_to_set_commute(all[i as int]);
            }
            i += 1;
        }
        assert(texts(parents@).take(parents@.len() as int) =~= texts(parents@));
        let _ = set.len();
        proof {
            set.lemma_seq();
        }
        GitObject {
            git_hash,
            data,
            metadata: GitObjectMetadata::Commit { parent_git_hashes: set, tree_git_hash: tree },
        }
    }

    /// A tag with its target.
    pub fn from_git_tag(git_hash: String, data: Vec<u8>, target: String) -> (object: Self)
        ensures
            object@ == (ObjectView {
                git_hash: git_hash@,
                data: data@,
                metadata: MetadataView::Tag { target: target@ },
            }),
    {
        GitObject { git_hash, data, metadata: GitObjectMetadata::Tag { target_git_hash: target } }
    }

    /// A tree with its lines. The lines of kind commit are tips of
    /// submodules: they are handed back apart and are no children of the
    /// tree.
    pub fn from_git_tree(git_hash: String, data: Vec<u8>, entries: &Vec<TreeEntry>) -> (r: (
        Self,
        StrSet,
    ))
        ensures
            r.0@.git_hash == git_hash@,
            r.0@.data == data@,
            r.0@.metadata matches MetadataView::Tree { entries: e } && e.to_set() == entry_hashes(
                entries@,
                entries@.len() as int,
                false,
            ) && strictly_increasing(e),
            r.1@ == entry_hashes(entries@, entries@.len() as int, true),
    {
        let (own, tips) = split_entries(entries);
        let _ = own.len();
        proof {
            own.lemma_seq();
        }
        (
            GitObject {
                git_hash,
                data,
                metadata: GitObjectMetadata::Tree { entry_git_hashes: own },
            },
            tips,
        )
    }
}

/// A shipment of objects: what one push uploads as a single blob.
#[derive(Clone, Debug, PartialEq, Eq)]
pub struct MultiObject {
    /// The label of the container, a fingerprint of `git_hashes`.
    pub hash: String,
    /// The hashes of the objects in the order in which they were added.
    pub git_hashes: Vec<String>,
    /// The objects by hash.
    pub objects: StrMap<GitObject>,
}

/// The model of [`MultiObject`].
pub struct PackView {
    pub hash: Seq<char>,
    pub git_hashes: Seq<Seq<char>>,
    pub objects: Map<Seq<char>, ObjectView>,
}

impl PackView {
    /// The list names each object of the container once, and each object is
    /// stored under its own hash.
    pub open spec fn wf(self) -> bool {
        &&& self.git_hashes.no_duplicates()
        &&& self.git_hashes.to_set() == self.objects.dom()
        &&& forall|h: Seq<char>| #[trigger]
            self.objects.contains_key(h) ==> self.objects[h].git_hash == h
    }

    /// The container with no object and no label.
    pub open spec fn empty() -> PackView {
        PackView { hash: Seq::empty(), git_hashes: Seq::empty(), objects: Map::empty() }
    }

    /// The container after `object` was added: it is stored under its hash,
    /// and the hash joins the end of the list unless the container held an
    /// object of that hash before.
    pub open spec fn add(self, object: ObjectView) -> PackView {
        PackView {
            hash: self.hash,
            git_hashes: if self.objects.contains_key(object.git_hash) {
                self.git_hashes
            } else {
                self.git_hashes.push(object.git_hash)
            },
            objects: self.objects.insert(object.git_hash, object),
        }
    }

    /// Adding an object keeps a container well-formed.
    pub proof fn lemma_add_wf(self, object: ObjectView)
        requires
            self.wf(),
        ensures
            self.add(object).wf(),
    {
        let after = self.add(object);
        if !self.objects.contains_key(object.git_hash) {
            self.git_hashes.lemma_push_to_set_commute(object.git_hash);
        }
        assert(after.git_hashes.to_set() =~= after.objects.dom());
    }
}

impl View for MultiObject {
    type V = PackView;

    open spec fn view(&self) -> PackView {
        PackView {
            hash: self.hash@,
            git_hashes: texts(self.git_hashes@),
            objects: self.objects@.map_values(|o: GitObject| o@),
        }
    }
}

impl MultiObject {
    /// The container with no object and no label.
    pub fn new() -> (pack: Self)
        ensures
            pack@ == PackView::empty(),
    {
        let pack = MultiObject { hash: String::new(), git_hashes: Vec::new(), objects: StrMap::new() };
        assert(pack@.git_hashes =~= Seq::<Seq<char>>::empty());
        assert(pack@.objects =~= Map::<Seq<char>, ObjectView>::empty());
        pack
    }

    /// Adds an object to the container.
    pub fn add(&mut self, object: GitObject)
        ensures
            final(self)@ == old(self)@.add(object@),
            old(self)@.wf() ==> final(self)@.wf(),
    {
        let ghost before = self@;
        let ghost o = object@;
        let hash = object.git_hash.clone();
        let listed = self.objects.contains_key(hash.as_str());
        self.objects.insert(hash.clone(), object);
        if !listed {
            self.git_hashes.push(hash);
        }
        proof {
            assert(self@.objects =~= before.objects.insert(o.git_hash, o));
            assert(self@.git_hashes =~= before.add(o).git_hashes);
            if before.wf() {
                before.lemma_add_wf(o);
            }
        }
    }
}

/// The manifest of a repository: where each ref points, and in which
/// container each object lies.
#[derive(Clone, Debug, PartialEq, Eq)]
pub struct RepoData {
    /// The refs: from ref name to the hash of its tip.
    pub refs: StrMap<String>,
    /// The objects: from hash to the label of the container that holds the
    /// object, or to the marker of a submodule tip.
    pub objects: StrMap<String>,
}

/// The model of [`RepoData`].
pub struct Manifest {
    pub refs: Map<Seq<char>, Seq<char>>,
    pub objects: Map<Seq<char>, Seq<char>>,
}

impl View for RepoData {
    type V = Manifest;

    open spec fn view(&self) -> Manifest {
        Manifest {
            refs: self.refs@.map_values(|s: String| s@),
            objects: self.objects@.map_values(|s: String| s@),
        }
    }
}

impl RepoData {
    /// The manifest of a repository that holds nothing yet.
    pub fn new() -> (manifest: Self)
        ensures
            manifest@ == (Manifest { refs: Map::empty(), objects: Map::empty() }),
    {
        let manifest = RepoData { refs: StrMap::new(), objects: StrMap::new() };
        assert(manifest@.objects =~= Map::<Seq<char>, Seq<char>>::empty());
        manifest
    }
}

} // verus!
