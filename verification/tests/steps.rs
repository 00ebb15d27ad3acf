//! The steps of the two walks, of the paths and of the ledger, one at a time.

use inv4_git::error::Error;
use inv4_git::fetch::verify_written;
use inv4_git::ledger::{find_label, get_repo, plan_swap, LedgerEntry, Swap};
use inv4_git::primitives::{
    GitObject, MultiObject, ObjectKind, RepoData, TreeEntry, SUBMODULE_TIP_MARKER,
};
use inv4_git::push::{check_behind, PushOutcome};
use inv4_git::strset::StrSet;
use inv4_git::traversal::{FetchAsk, FetchTell, FetchWalk, PushWalk};

fn oid(c: char) -> String {
    c.to_string().repeat(40)
}

fn commit(hash: char, parents: &[char], tree: char) -> GitObject {
    let parents: Vec<String> = parents.iter().map(|p| oid(*p)).collect();
    GitObject::from_git_commit(oid(hash), vec![hash as u8], &parents, oid(tree))
}

fn tree(hash: char, entries: &[char]) -> GitObject {
    let entries: Vec<TreeEntry> =
        entries.iter().map(|e| TreeEntry { git_hash: oid(*e), kind: ObjectKind::Blob }).collect();
    GitObject::from_git_tree(oid(hash), vec![hash as u8], &entries).0
}

fn blob(hash: char) -> GitObject {
    GitObject::from_git_blob(oid(hash), vec![hash as u8])
}

fn seen(object: GitObject) -> Option<(GitObject, StrSet)> {
    Some((object, StrSet::new()))
}

#[test]
fn push_walk_asks_for_the_root_first() {
    let manifest = RepoData::new();
    let mut walk = PushWalk::new(oid('a'));
    assert_eq!(walk.stack, vec![oid('a')]);
    assert_eq!(manifest.enumerate_for_push(&mut walk, None), Ok(Some(oid('a'))));
    assert_eq!(walk.stack, vec![oid('a')]);
    assert!(walk.pack.git_hashes.is_empty());
}

#[test]
fn push_walk_visits_parents_before_the_tree() {
    let manifest = RepoData::new();
    let mut walk = PushWalk::new(oid('c'));
    manifest.enumerate_for_push(&mut walk, None).unwrap();
    let ask = manifest.enumerate_for_push(&mut walk, seen(commit('c', &['a', '9'], 'd')));
    assert_eq!(walk.stack, vec![oid('d'), oid('9'), oid('a')]);
    assert_eq!(ask, Ok(Some(oid('a'))));
    assert_eq!(walk.pack.git_hashes, vec![oid('c')]);
}

#[test]
fn push_walk_passes_over_what_the_manifest_holds() {
    let mut manifest = RepoData::new();
    manifest.objects.insert(oid('a'), "1".to_string());
    manifest.objects.insert(oid('b'), "1".to_string());
    let mut walk = PushWalk::new(oid('c'));
    manifest.enumerate_for_push(&mut walk, None).unwrap();
    let ask = manifest.enumerate_for_push(&mut walk, seen(commit('c', &['a'], 'd')));
    assert_eq!(ask, Ok(Some(oid('d'))));
    let ask = manifest.enumerate_for_push(&mut walk, seen(tree('d', &['e', 'b'])));
    assert_eq!(ask, Ok(Some(oid('e'))));
    let ask = manifest.enumerate_for_push(&mut walk, seen(blob('e')));
    assert_eq!(ask, Ok(None));
    assert!(walk.stack.is_empty());
    assert_eq!(walk.pack.git_hashes, vec![oid('c'), oid('d'), oid('e')]);
}

#[test]
fn push_walk_finds_an_object_once_though_two_paths_lead_to_it() {
    let manifest = RepoData::new();
    let mut walk = PushWalk::new(oid('d'));
    manifest.enumerate_for_push(&mut walk, None).unwrap();
    let subtree = tree('1', &['e']);
    let ask = manifest.enumerate_for_push(&mut walk, seen(tree('d', &['e', '1'])));
    assert_eq!(ask, Ok(Some(oid('e'))));
    let ask = manifest.enumerate_for_push(&mut walk, seen(blob('e')));
    assert_eq!(ask, Ok(Some(oid('1'))));
    let ask = manifest.enumerate_for_push(&mut walk, seen(subtree));
    assert_eq!(ask, Ok(None));
    assert_eq!(walk.pack.git_hashes, vec![oid('d'), oid('e'), oid('1')]);
    assert_eq!(walk.pack.objects.len(), 3);
}

#[test]
fn push_walk_follows_a_tag_to_its_target() {
    let manifest = RepoData::new();
    let mut walk = PushWalk::new(oid('1'));
    manifest.enumerate_for_push(&mut walk, None).unwrap();
    let tag = GitObject::from_git_tag(oid('1'), vec![], oid('a'));
    assert_eq!(manifest.enumerate_for_push(&mut walk, seen(tag)), Ok(Some(oid('a'))));
}

#[test]
fn push_walk_notes_submodule_tips_and_does_not_ask_for_them() {
    let manifest = RepoData::new();
    let mut walk = PushWalk::new(oid('b'));
    manifest.enumerate_for_push(&mut walk, None).unwrap();
    let entries = vec![
        TreeEntry { git_hash: oid('f'), kind: ObjectKind::Commit },
        TreeEntry { git_hash: oid('e'), kind: ObjectKind::Blob },
    ];
    let (object, tips) = GitObject::from_git_tree(oid('b'), vec![], &entries);
    let ask = manifest.enumerate_for_push(&mut walk, Some((object, tips)));
    assert_eq!(ask, Ok(Some(oid('e'))));
    assert_eq!(walk.submodules.len(), 1);
    assert!(walk.submodules.contains(&oid('f')));
    assert!(!walk.stack.contains(&oid('f')));
}

#[test]
fn push_walk_refuses_an_object_that_it_did_not_ask_for() {
    let mut manifest = RepoData::new();
    manifest.objects.insert(oid('9'), "1".to_string());
    let mut walk = PushWalk::new(oid('a'));
    manifest.enumerate_for_push(&mut walk, None).unwrap();
    let before = walk.clone();
    assert_eq!(manifest.enumerate_for_push(&mut walk, seen(blob('e'))), Err(Error::Local));
    assert_eq!(walk, before);

    let mut done = PushWalk::new(oid('9'));
    assert_eq!(manifest.enumerate_for_push(&mut done, None), Ok(None));
    assert_eq!(manifest.enumerate_for_push(&mut done, seen(blob('9'))), Err(Error::Local));

    let mut known = PushWalk::new(oid('9'));
    assert_eq!(manifest.enumerate_for_push(&mut known, seen(blob('9'))), Err(Error::Local));
    assert_eq!(known.stack, vec![oid('9')]);
}

#[test]
fn push_of_an_unfinished_walk_is_refused() {
    let mut manifest = RepoData::new();
    let walk = PushWalk::new(oid('a'));
    let before = manifest.clone();
    assert_eq!(
        manifest.complete_push(walk, "refs/heads/main".to_string(), oid('a')),
        Err(Error::Protocol)
    );
    assert_eq!(manifest, before);
}

#[test]
fn push_records_container_then_tips_then_ref() {
    let mut manifest = RepoData::new();
    manifest.objects.insert(oid('9'), SUBMODULE_TIP_MARKER.to_string());
    let mut walk = PushWalk::new(oid('a'));
    manifest.enumerate_for_push(&mut walk, None).unwrap();
    manifest.enumerate_for_push(&mut walk, seen(commit('a', &[], 'b'))).unwrap();
    let entries = vec![TreeEntry { git_hash: oid('f'), kind: ObjectKind::Commit }];
    let (object, tips) = GitObject::from_git_tree(oid('b'), vec![], &entries);
    assert_eq!(manifest.enumerate_for_push(&mut walk, Some((object, tips))), Ok(None));

    let outcome = manifest.complete_push(walk, "refs/heads/main".to_string(), oid('a')).unwrap();
    let label = "6525270568472480611".to_string();
    assert!(outcome.changed);
    let pack = outcome.pack.unwrap();
    assert_eq!(pack.hash, label);
    assert_eq!(pack.git_hashes, vec![oid('a'), oid('b')]);
    assert_eq!(manifest.objects.len(), 4);
    assert_eq!(manifest.objects.get(&oid('a')), Some(&label));
    assert_eq!(manifest.objects.get(&oid('b')), Some(&label));
    assert_eq!(manifest.objects.get(&oid('f')), Some(&SUBMODULE_TIP_MARKER.to_string()));
    assert_eq!(manifest.objects.get(&oid('9')), Some(&SUBMODULE_TIP_MARKER.to_string()));
    assert_eq!(manifest.refs.get("refs/heads/main"), Some(&oid('a')));
}

#[test]
fn push_that_found_nothing_ships_nothing() {
    let mut manifest = RepoData::new();
    manifest.objects.insert(oid('a'), "1".to_string());
    manifest.refs.insert("refs/heads/main".to_string(), oid('a'));
    let before = manifest.clone();

    let mut walk = PushWalk::new(oid('a'));
    assert_eq!(manifest.enumerate_for_push(&mut walk, None), Ok(None));
    assert_eq!(
        manifest.complete_push(walk, "refs/heads/main".to_string(), oid('a')),
        Ok(PushOutcome { pack: None, changed: false })
    );
    assert_eq!(manifest, before);

    let mut walk = PushWalk::new(oid('a'));
    manifest.enumerate_for_push(&mut walk, None).unwrap();
    assert_eq!(
        manifest.complete_push(walk, "refs/heads/next".to_string(), oid('a')),
        Ok(PushOutcome { pack: None, changed: true })
    );
    assert_eq!(manifest.refs.get("refs/heads/next"), Some(&oid('a')));
    assert_eq!(manifest.objects, before.objects);
}

#[test]
fn sealing_an_empty_container_leaves_the_manifest_alone() {
    let mut manifest = RepoData::new();
    assert_eq!(manifest.push_git_objects(MultiObject::new()), Ok(None));
    assert_eq!(manifest, RepoData::new());
}

#[test]
fn sealing_labels_the_container_and_records_its_objects() {
    let mut manifest = RepoData::new();
    manifest.objects.insert(oid('0'), "7".to_string());
    let mut pack = MultiObject::new();
    pack.add(blob('b'));
    pack.add(blob('a'));
    let shipped = manifest.push_git_objects(pack).unwrap().unwrap();
    assert_eq!(shipped.hash, "16776173671303558832");
    assert_eq!(shipped.git_hashes, vec![oid('b'), oid('a')]);
    assert_eq!(shipped.objects.len(), 2);
    assert_eq!(manifest.objects.len(), 3);
    assert_eq!(manifest.objects.get(&oid('a')), Some(&"16776173671303558832".to_string()));
    assert_eq!(manifest.objects.get(&oid('b')), Some(&"16776173671303558832".to_string()));
    assert_eq!(manifest.objects.get(&oid('0')), Some(&"7".to_string()));
    assert_eq!(manifest.refs.len(), 0);
}

#[test]
fn behind_check_passes_when_nothing_is_missing() {
    let walk = FetchWalk::new(oid('a'));
    assert_eq!(check_behind(&walk), Ok(()));
    let mut missing = FetchWalk::new(oid('a'));
    missing.to_fetch.push(oid('a'));
    assert_eq!(check_behind(&missing), Err(Error::Behind));
}

fn manifest_with_container() -> (RepoData, MultiObject) {
    let mut manifest = RepoData::new();
    let mut pack = MultiObject::new();
    pack.add(commit('a', &[], 'b'));
    pack.add(tree('b', &['e']));
    pack.add(blob('e'));
    let shipped = manifest.push_git_objects(pack).unwrap().unwrap();
    (manifest, shipped)
}

#[test]
fn fetch_walk_schedules_what_the_local_repository_lacks() {
    let (manifest, pack) = manifest_with_container();
    let label = pack.hash.clone();
    let mut walk = FetchWalk::new(oid('a'));
    let ask = manifest.enumerate_for_fetch(&mut walk, FetchTell::Start);
    assert_eq!(ask, Ok(FetchAsk::Probe(oid('a'))));
    let ask = manifest.enumerate_for_fetch(&mut walk, FetchTell::Present(false));
    assert_eq!(ask, Ok(FetchAsk::Load(label.clone())));
    assert!(walk.to_fetch.is_empty());
    let ask = manifest.enumerate_for_fetch(&mut walk, FetchTell::Container(&pack));
    assert_eq!(ask, Ok(FetchAsk::Probe(oid('b'))));
    assert_eq!(walk.to_fetch, vec![oid('a')]);
    let ask = manifest.enumerate_for_fetch(&mut walk, FetchTell::Present(false));
    assert_eq!(ask, Ok(FetchAsk::Load(label)));
    let ask = manifest.enumerate_for_fetch(&mut walk, FetchTell::Container(&pack));
    assert_eq!(ask, Ok(FetchAsk::Probe(oid('e'))));
    let ask = manifest.enumerate_for_fetch(&mut walk, FetchTell::Present(true));
    assert_eq!(ask, Ok(FetchAsk::Done));
    assert_eq!(walk.to_fetch, vec![oid('a'), oid('b')]);
    assert_eq!(walk.scheduled.len(), 2);
}

#[test]
fn fetch_walk_passes_over_what_is_present() {
    let (manifest, _) = manifest_with_container();
    let mut walk = FetchWalk::new(oid('a'));
    manifest.enumerate_for_fetch(&mut walk, FetchTell::Start).unwrap();
    assert_eq!(manifest.enumerate_for_fetch(&mut walk, FetchTell::Present(true)), Ok(FetchAsk::Done));
    assert!(walk.to_fetch.is_empty());

    // What is present needs no entry in the manifest.
    let mut other = FetchWalk::new(oid('7'));
    manifest.enumerate_for_fetch(&mut other, FetchTell::Start).unwrap();
    assert_eq!(manifest.enumerate_for_fetch(&mut other, FetchTell::Present(true)), Ok(FetchAsk::Done));
}

#[test]
fn fetch_walk_fails_on_a_hash_that_the_manifest_lacks() {
    let (manifest, _) = manifest_with_container();
    let mut walk = FetchWalk::new(oid('7'));
    manifest.enumerate_for_fetch(&mut walk, FetchTell::Start).unwrap();
    let before = walk.clone();
    assert_eq!(
        manifest.enumerate_for_fetch(&mut walk, FetchTell::Present(false)),
        Err(Error::Integrity)
    );
    assert_eq!(walk, before);
}

#[test]
fn fetch_walk_fails_on_a_container_without_the_object() {
    let (manifest, _) = manifest_with_container();
    let mut walk = FetchWalk::new(oid('a'));
    manifest.enumerate_for_fetch(&mut walk, FetchTell::Start).unwrap();
    manifest.enumerate_for_fetch(&mut walk, FetchTell::Present(false)).unwrap();
    let empty = MultiObject::new();
    assert_eq!(
        manifest.enumerate_for_fetch(&mut walk, FetchTell::Container(&empty)),
        Err(Error::Integrity)
    );
    assert!(walk.to_fetch.is_empty());
    assert_eq!(walk.stack, vec![oid('a')]);
}

#[test]
fn fetch_walk_refuses_answers_to_questions_it_did_not_ask() {
    let (manifest, pack) = manifest_with_container();
    let mut done = FetchWalk::new(oid('a'));
    done.stack.clear();
    assert_eq!(
        manifest.enumerate_for_fetch(&mut done, FetchTell::Present(true)),
        Err(Error::Protocol)
    );
    assert_eq!(
        manifest.enumerate_for_fetch(&mut done, FetchTell::Container(&pack)),
        Err(Error::Protocol)
    );
    assert_eq!(manifest.enumerate_for_fetch(&mut done, FetchTell::Start), Ok(FetchAsk::Done));

    // A container for a hash that the manifest does not place in one.
    let mut stray = FetchWalk::new(oid('7'));
    assert_eq!(
        manifest.enumerate_for_fetch(&mut stray, FetchTell::Container(&pack)),
        Err(Error::Protocol)
    );
    let mut marked = manifest.clone();
    marked.objects.insert(oid('f'), SUBMODULE_TIP_MARKER.to_string());
    let mut tip = FetchWalk::new(oid('f'));
    assert_eq!(
        marked.enumerate_for_fetch(&mut tip, FetchTell::Container(&pack)),
        Err(Error::Protocol)
    );
}

#[test]
fn fetch_walk_looks_at_a_hash_once() {
    let mut manifest = RepoData::new();
    let mut pack = MultiObject::new();
    pack.add(tree('d', &['e', '1']));
    pack.add(tree('1', &['e']));
    pack.add(blob('e'));
    let pack = manifest.push_git_objects(pack).unwrap().unwrap();
    let mut walk = FetchWalk::new(oid('d'));
    let mut ask = manifest.enumerate_for_fetch(&mut walk, FetchTell::Start).unwrap();
    let mut probes = vec![];
    loop {
        ask = match ask {
            FetchAsk::Done => break,
            FetchAsk::Probe(hash) => {
                probes.push(hash);
                manifest.enumerate_for_fetch(&mut walk, FetchTell::Present(false)).unwrap()
            }
            FetchAsk::Load(_) => {
                manifest.enumerate_for_fetch(&mut walk, FetchTell::Container(&pack)).unwrap()
            }
        };
    }
    assert_eq!(walk.to_fetch, vec![oid('d'), oid('e'), oid('1')]);
    assert_eq!(probes, vec![oid('d'), oid('e'), oid('1')]);
}

#[test]
fn fetch_begins_with_a_walk_from_the_tip() {
    let walk = RepoData::begin_fetch(&oid('a'), "refs/heads/main").unwrap().unwrap();
    assert_eq!(walk, FetchWalk::new(oid('a')));
    assert_eq!(walk.stack, vec![oid('a')]);
    assert!(walk.to_fetch.is_empty());
}

#[test]
fn fetch_of_head_does_nothing() {
    assert_eq!(RepoData::begin_fetch(&oid('a'), "HEAD"), Ok(None));
    assert_eq!(RepoData::begin_fetch("not a hash", "HEAD"), Ok(None));
}

#[test]
fn fetch_of_a_malformed_hash_is_refused() {
    assert_eq!(RepoData::begin_fetch("abc", "refs/heads/main"), Err(Error::Protocol));
    assert_eq!(RepoData::begin_fetch(&"A".repeat(40), "refs/heads/main"), Err(Error::Protocol));
    assert_eq!(RepoData::begin_fetch("", "refs/heads/main"), Err(Error::Protocol));
}

#[test]
fn containers_are_named_once_each() {
    let mut manifest = RepoData::new();
    manifest.objects.insert(oid('a'), "20".to_string());
    manifest.objects.insert(oid('b'), "20".to_string());
    manifest.objects.insert(oid('c'), "10".to_string());
    manifest.objects.insert(oid('f'), SUBMODULE_TIP_MARKER.to_string());
    let labels = manifest.containers_needed(&vec![oid('a'), oid('c'), oid('b')]).unwrap();
    assert_eq!(labels.len(), 2);
    assert_eq!(labels.get(0), "10");
    assert_eq!(labels.get(1), "20");
    assert_eq!(manifest.containers_needed(&vec![]).unwrap().len(), 0);
    assert_eq!(manifest.containers_needed(&vec![oid('a'), oid('9')]), Err(Error::Integrity));
    assert_eq!(manifest.containers_needed(&vec![oid('f')]), Err(Error::Integrity));
}

#[test]
fn object_to_write_comes_out_of_its_container() {
    let (manifest, pack) = manifest_with_container();
    let object = manifest.fetch_git_objects(&oid('b'), &pack, false).unwrap().unwrap();
    assert_eq!(object.git_hash, oid('b'));
    assert_eq!(object.data, vec![b'b']);
    assert_eq!(object.metadata.kind(), ObjectKind::Tree);
    assert_eq!(manifest.fetch_git_objects(&oid('b'), &pack, true), Ok(None));
}

#[test]
fn object_that_manifest_or_container_lacks_fails_the_fetch() {
    let (mut manifest, pack) = manifest_with_container();
    assert_eq!(manifest.fetch_git_objects(&oid('7'), &pack, false), Err(Error::Integrity));
    assert_eq!(manifest.fetch_git_objects(&oid('7'), &pack, true), Err(Error::Integrity));
    assert_eq!(
        manifest.fetch_git_objects(&oid('a'), &MultiObject::new(), false),
        Err(Error::Integrity)
    );
    manifest.objects.insert(oid('e'), SUBMODULE_TIP_MARKER.to_string());
    assert_eq!(manifest.fetch_git_objects(&oid('e'), &pack, false), Err(Error::Integrity));
}

#[test]
fn written_object_must_hash_to_the_declared_name() {
    assert_eq!(verify_written(&oid('a'), &oid('a')), Ok(()));
    assert_eq!(verify_written(&oid('a'), &oid('b')), Err(Error::Integrity));
    assert_eq!(verify_written(&oid('a'), ""), Err(Error::Integrity));
}

#[test]
fn ref_is_set_for_a_commit_outside_the_tags() {
    assert_eq!(RepoData::fetch_to_ref_from_str(ObjectKind::Commit, "refs/heads/main"), Ok(true));
    assert_eq!(RepoData::fetch_to_ref_from_str(ObjectKind::Commit, "refs/tags/v1"), Ok(false));
    assert_eq!(RepoData::fetch_to_ref_from_str(ObjectKind::Commit, "refs/tags"), Ok(false));
    assert_eq!(RepoData::fetch_to_ref_from_str(ObjectKind::Tag, "refs/tags/v1"), Ok(false));
    assert_eq!(RepoData::fetch_to_ref_from_str(ObjectKind::Tag, "refs/heads/main"), Ok(false));
}

#[test]
fn tip_that_is_neither_commit_nor_tag_fails_the_fetch() {
    assert_eq!(
        RepoData::fetch_to_ref_from_str(ObjectKind::Blob, "refs/heads/main"),
        Err(Error::Integrity)
    );
    assert_eq!(
        RepoData::fetch_to_ref_from_str(ObjectKind::Tree, "refs/tags/v1"),
        Err(Error::Integrity)
    );
}

fn entry(id: u64, label: &str, fill: u8) -> LedgerEntry {
    LedgerEntry { id, label: label.as_bytes().to_vec(), digest: [fill; 32] }
}

#[test]
fn first_entry_with_the_label_is_found() {
    let entries = vec![entry(4, "17", 1), entry(5, "RepoData", 2), entry(6, "17", 3)];
    assert_eq!(find_label(&entries, b"17"), Some(&entries[0]));
    assert_eq!(find_label(&entries, b"RepoData"), Some(&entries[1]));
    assert_eq!(find_label(&entries, b"18"), None);
    assert_eq!(find_label(&entries, b"1"), None);
    assert_eq!(find_label(&vec![], b"17"), None);
}

#[test]
fn manifest_lies_where_the_entry_labelled_repo_data_points() {
    let entries = vec![entry(4, "17", 1), entry(5, "RepoData", 0)];
    assert_eq!(
        get_repo(&entries),
        Some("QmNLei78zWmzUdbeRB3CiUfAizWUrbeeZh5K1rhAQKCh51".to_string())
    );
    assert_eq!(get_repo(&vec![entry(4, "17", 1)]), None);
    assert_eq!(get_repo(&vec![]), None);
}

#[test]
fn container_lies_where_the_entry_with_its_label_points() {
    let entries = vec![entry(4, "17", 0), entry(5, "RepoData", 2)];
    assert_eq!(
        MultiObject::chain_get("17", &entries),
        Ok("QmNLei78zWmzUdbeRB3CiUfAizWUrbeeZh5K1rhAQKCh51".to_string())
    );
    assert_eq!(MultiObject::chain_get("18", &entries), Err(Error::NotFound));
    assert_eq!(MultiObject::chain_get("17", &vec![]), Err(Error::NotFound));
}

#[test]
fn new_manifest_reference_replaces_the_old_one() {
    let entries = vec![entry(4, "17", 1), entry(5, "RepoData", 2), entry(9, "RepoData", 3)];
    assert_eq!(RepoData::mint_return_new_old_id(12, &entries), (12, Some(5)));
    assert_eq!(RepoData::mint_return_new_old_id(12, &vec![entry(4, "17", 1)]), (12, None));
    assert_eq!(RepoData::mint_return_new_old_id(1, &vec![]), (1, None));
}

#[test]
fn swap_removes_the_old_manifest_and_appends_container_and_manifest() {
    assert_eq!(plan_swap(None, Some(1), 2), Swap { remove: vec![], append: vec![1, 2] });
    assert_eq!(plan_swap(Some(2), Some(3), 4), Swap { remove: vec![2], append: vec![3, 4] });
    assert_eq!(plan_swap(Some(2), None, 4), Swap { remove: vec![2], append: vec![4] });
    assert_eq!(plan_swap(None, None, 1), Swap { remove: vec![], append: vec![1] });
}
