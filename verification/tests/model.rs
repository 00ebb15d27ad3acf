//! The object model: objects, containers, labels, addresses.

use inv4_git::address::{cid_to_digest, digest_of_bytes, generate_cid};
use inv4_git::error::Error;
use inv4_git::label::{decimal, fingerprint};
use inv4_git::primitives::{
    Config, GitObject, GitObjectMetadata, MultiObject, ObjectKind, RepoData, TreeEntry,
    SUBMODULE_TIP_MARKER,
};
use inv4_git::strset::StrSet;

fn oid(c: char) -> String {
    c.to_string().repeat(40)
}

fn members(set: &StrSet) -> Vec<String> {
    (0..set.len()).map(|i| set.get(i).clone()).collect()
}

#[test]
fn decimal_writes_numbers_without_leading_zeros() {
    assert_eq!(decimal(0), "0");
    assert_eq!(decimal(7), "7");
    assert_eq!(decimal(9), "9");
    assert_eq!(decimal(10), "10");
    assert_eq!(decimal(105), "105");
    assert_eq!(decimal(1234567890), "1234567890");
    assert_eq!(decimal(u64::MAX), "18446744073709551615");
    for n in [0u64, 1, 99, 100, 4096, 1 << 40, u64::MAX - 1] {
        assert_eq!(decimal(n), n.to_string());
    }
}

#[test]
fn label_is_the_decimal_fingerprint_of_the_listed_hashes() {
    assert_eq!(fingerprint(&vec![oid('a'), oid('b')]), Some("6525270568472480611".to_string()));
    assert_eq!(fingerprint(&vec![oid('b'), oid('a')]), Some("16776173671303558832".to_string()));
    assert_eq!(fingerprint(&vec![]), Some("8185528957457134470".to_string()));
}

#[test]
fn label_is_the_hash_of_the_encoded_list() {
    let list = vec![oid('c'), oid('d'), oid('e')];
    let encoded = parity_scale_codec::Encode::encode(&list);
    assert_eq!(encoded.len(), 1 + 3 * 41);
    assert_eq!(encoded[0], 3 << 2);
    assert_eq!(encoded[1], 40 << 2);
    let expected = twox_hash::xxh3::hash64(&encoded).to_string();
    assert_eq!(fingerprint(&list), Some(expected));
}

#[test]
fn label_depends_on_the_list_and_its_order_alone() {
    let one = fingerprint(&vec![oid('a'), oid('b')]);
    let two = fingerprint(&vec![oid('a'), oid('b')]);
    assert_eq!(one, two);
    assert_ne!(one, fingerprint(&vec![oid('b'), oid('a')]));
    assert_ne!(one, fingerprint(&vec![oid('a')]));
    let label = one.unwrap();
    assert!(label.chars().all(|c| c.is_ascii_digit()));
    assert_ne!(label, SUBMODULE_TIP_MARKER);
}

#[test]
fn content_identifier_of_a_digest() {
    assert_eq!(generate_cid(&[0u8; 32]), "QmNLei78zWmzUdbeRB3CiUfAizWUrbeeZh5K1rhAQKCh51");
    let mut digest = [0u8; 32];
    for i in 0..32 {
        digest[i] = i as u8;
    }
    assert_eq!(generate_cid(&digest), "QmNLfbof5rLekrACjeuLk9JmGZD2HDBHCU4z16iYKmx5SE");
}

#[test]
fn digest_of_a_content_identifier_is_the_inverse() {
    let mut digest = [0u8; 32];
    for i in 0..32 {
        digest[i] = (7 * i + 3) as u8;
    }
    let id = generate_cid(&digest);
    assert_eq!(id.len(), 46);
    assert!(id.starts_with("Qm"));
    assert_eq!(cid_to_digest(&id), Ok(digest));
    assert_eq!(cid_to_digest("QmNLei78zWmzUdbeRB3CiUfAizWUrbeeZh5K1rhAQKCh51"), Ok([0u8; 32]));
}

#[test]
fn other_texts_are_no_addresses() {
    assert_eq!(cid_to_digest(""), Err(Error::Protocol));
    assert_eq!(cid_to_digest("Qm"), Err(Error::Protocol));
    assert_eq!(cid_to_digest("not a content identifier"), Err(Error::Protocol));
    // A version-1 identifier is well-formed, but names no bare digest.
    assert_eq!(
        cid_to_digest("bafkreibme22gw2h7y2h7tg2fhqotaqjucnbc24deqo72b6mkl2egezxhvy"),
        Err(Error::Protocol)
    );
}

#[test]
fn digest_is_read_from_a_sha256_multihash_only() {
    let mut bytes = vec![0x12, 0x20];
    bytes.extend([9u8; 32]);
    assert_eq!(digest_of_bytes(&bytes), Ok([9u8; 32]));
    let mut short = bytes.clone();
    short.pop();
    assert_eq!(digest_of_bytes(&short), Err(Error::Protocol));
    let mut long = bytes.clone();
    long.push(0);
    assert_eq!(digest_of_bytes(&long), Err(Error::Protocol));
    let mut other_code = bytes.clone();
    other_code[0] = 0x13;
    assert_eq!(digest_of_bytes(&other_code), Err(Error::Protocol));
    let mut other_len = bytes.clone();
    other_len[1] = 0x21;
    assert_eq!(digest_of_bytes(&other_len), Err(Error::Protocol));
    assert_eq!(digest_of_bytes(&vec![]), Err(Error::Protocol));
}

#[test]
fn blob_has_no_children() {
    let blob = GitObject::from_git_blob(oid('e'), vec![1, 2, 3]);
    assert_eq!(blob.git_hash, oid('e'));
    assert_eq!(blob.data, vec![1, 2, 3]);
    assert_eq!(blob.metadata, GitObjectMetadata::Blob);
    assert_eq!(blob.metadata.kind(), ObjectKind::Blob);
}

#[test]
fn commit_names_its_tree_and_each_parent_once_in_ascending_order() {
    let parents = vec![oid('d'), oid('c'), oid('d')];
    let commit = GitObject::from_git_commit(oid('a'), vec![7], &parents, oid('b'));
    assert_eq!(commit.git_hash, oid('a'));
    assert_eq!(commit.data, vec![7]);
    assert_eq!(commit.metadata.kind(), ObjectKind::Commit);
    match &commit.metadata {
        GitObjectMetadata::Commit { parent_git_hashes, tree_git_hash } => {
            assert_eq!(members(parent_git_hashes), vec![oid('c'), oid('d')]);
            assert_eq!(tree_git_hash, &oid('b'));
        }
        _ => panic!("a commit carries the metadata of a commit"),
    }
}

#[test]
fn tag_names_its_target() {
    let tag = GitObject::from_git_tag(oid('1'), vec![], oid('a'));
    assert_eq!(tag.metadata, GitObjectMetadata::Tag { target_git_hash: oid('a') });
    assert_eq!(tag.metadata.kind(), ObjectKind::Tag);
}

#[test]
fn tree_leaves_the_tips_of_submodules_out_of_its_children() {
    let entries = vec![
        TreeEntry { git_hash: oid('e'), kind: ObjectKind::Blob },
        TreeEntry { git_hash: oid('f'), kind: ObjectKind::Commit },
        TreeEntry { git_hash: oid('d'), kind: ObjectKind::Tree },
        TreeEntry { git_hash: oid('e'), kind: ObjectKind::Blob },
        TreeEntry { git_hash: oid('9'), kind: ObjectKind::Commit },
    ];
    let (tree, tips) = GitObject::from_git_tree(oid('b'), vec![4], &entries);
    assert_eq!(tree.git_hash, oid('b'));
    assert_eq!(tree.metadata.kind(), ObjectKind::Tree);
    match &tree.metadata {
        GitObjectMetadata::Tree { entry_git_hashes } => {
            assert_eq!(members(entry_git_hashes), vec![oid('d'), oid('e')]);
        }
        _ => panic!("a tree carries the metadata of a tree"),
    }
    assert_eq!(members(&tips), vec![oid('9'), oid('f')]);
}

#[test]
fn container_lists_its_objects_in_the_order_of_their_arrival() {
    let mut pack = MultiObject::new();
    assert_eq!(pack.hash, "");
    assert!(pack.git_hashes.is_empty());
    assert_eq!(pack.objects.len(), 0);
    pack.add(GitObject::from_git_blob(oid('e'), vec![1]));
    pack.add(GitObject::from_git_blob(oid('a'), vec![2]));
    pack.add(GitObject::from_git_blob(oid('c'), vec![3]));
    assert_eq!(pack.git_hashes, vec![oid('e'), oid('a'), oid('c')]);
    assert_eq!(pack.objects.len(), 3);
    assert_eq!(pack.objects.get(&oid('a')).unwrap().data, vec![2]);
    assert_eq!(pack.hash, "");
}

#[test]
fn container_lists_an_object_once_when_it_is_added_again() {
    let mut pack = MultiObject::new();
    pack.add(GitObject::from_git_blob(oid('e'), vec![1]));
    pack.add(GitObject::from_git_blob(oid('a'), vec![2]));
    pack.add(GitObject::from_git_blob(oid('e'), vec![9]));
    assert_eq!(pack.git_hashes, vec![oid('e'), oid('a')]);
    assert_eq!(pack.objects.len(), 2);
    assert_eq!(pack.objects.get(&oid('e')).unwrap().data, vec![9]);
}

#[test]
fn new_manifest_is_empty() {
    let manifest = RepoData::new();
    assert_eq!(manifest.refs.len(), 0);
    assert_eq!(manifest.objects.len(), 0);
}

#[test]
fn default_settings_name_the_public_endpoint() {
    assert_eq!(Config::default().chain_endpoint, "wss://tinker.invarch.network:443");
}

#[test]
fn every_kind_of_failure_has_its_text() {
    assert_eq!(Error::NotFound.message(), "repository or blob not found");
    assert_eq!(Error::Unavailable.message(), "remote store unavailable");
    assert_eq!(Error::Unauthorized.message(), "signer is not authorized");
    assert_eq!(
        Error::Conflict.message(),
        "repository moved on the ledger; read the manifest again"
    );
    assert_eq!(Error::Behind.message(), "local is behind remote; fetch first or use force");
    assert_eq!(Error::Protocol.message(), "malformed command");
    assert_eq!(Error::Integrity.message(), "object graph inconsistency");
    assert_eq!(Error::Local.message(), "local object database failure");
}
