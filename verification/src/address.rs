//! The address codec: between the 32-byte digests that the ledger stores and
//! the content identifiers by which the blob store is asked.
//!
//! The ledger holds the bare SHA-256 digest of a blob. The blob store names
//! the blob by a version-0 content identifier: the digest behind the two
//! bytes `0x12 0x20` of a SHA-256 multihash, written in base 58.

use vstd::prelude::*;
use crate::error::Error;

verus! {

/// The code of SHA-256 in a multihash.
pub const SHA2_256: u8 = 0x12;

/// The length of a SHA-256 digest, as a multihash states it.
pub const DIGEST_LEN: u8 = 0x20;

/// The multihash of a SHA-256 digest: code, length, digest.
pub open spec fn sha256_multihash(digest: Seq<u8>) -> Seq<u8> {
    seq![SHA2_256, DIGEST_LEN] + digest
}

/// The text of the version-0 content identifier with this multihash, as the
/// crate `cid` writes it; `None` for bytes that `multihash` or `cid` refuse.
pub uninterp spec fn cid_v0_text(multihash: Seq<u8>) -> Option<Seq<char>>;

/// The bytes of the content identifier that `cid` parses this text to; `None`
/// for a text that it refuses.
pub uninterp spec fn cid_text_bytes(text: Seq<char>) -> Option<Seq<u8>>;

/// The characters of an optional string.
pub open spec fn option_text(text: Option<String>) -> Option<Seq<char>> {
    match text {
        Some(t) => Some(t@),
        None => None,
    }
}

/// The bytes of an optional vector.
pub open spec fn option_bytes(bytes: Option<Vec<u8>>) -> Option<Seq<u8>> {
    match bytes {
        Some(b) => Some(b@),
        None => None,
    }
}

/// Parses the bytes with `multihash::Multihash::from_bytes`, makes a
/// version-0 identifier of them with `cid::Cid::new_v0` and writes it with
/// its `to_string`. Each of the three is a function of its argument alone;
/// `None` stands for the error of either of the first two. Neither fails on
/// the multihash of a SHA-256 digest: the parser takes a code and a length of
/// one byte each and a digest of the stated length with nothing behind it,
/// and `new_v0` takes the code `0x12` with the length 32.
#[verifier::external_body]
fn cid_v0_of_multihash(bytes: &[u8]) -> (text: Option<String>)
    ensures
        option_text(text) == cid_v0_text(bytes@),
        digest_in(bytes@) is Some ==> text is Some,
{
    let hash = multihash::Multihash::<64>::from_bytes(bytes).ok()?;
    let id = cid::Cid::new_v0(hash).ok()?;
    Some(id.to_string())
}

/// Parses the text with `cid::Cid::try_from` and hands back the identifier's
/// `to_bytes`: a function of the text alone; `None` stands for the error of
/// the parser.
#[verifier::external_body]
fn cid_bytes_of_text(text: &str) -> (bytes: Option<Vec<u8>>)
    ensures
        option_bytes(bytes) == cid_text_bytes(text@),
{
    let id = cid::Cid::try_from(text).ok()?;
    Some(id.to_bytes())
}

/// The multihash bytes of a digest.
fn multihash_of(digest: &[u8; 32]) -> (bytes: Vec<u8>)
    ensures
        bytes@ == sha256_multihash(digest@),
{
    let mut bytes: Vec<u8> = Vec::new();
    bytes.push(SHA2_256);
    bytes.push(DIGEST_LEN);
    let mut i: usize = 0;
    while i < 32
        invariant
            i <= 32,
            bytes@ == seq![SHA2_256, DIGEST_LEN] + digest@.take(i as int),
        decreases 32 - i,
    {
        bytes.push(digest[i]);
        i += 1;
    }
    bytes
}

/// The content identifier under which the blob store holds the blob with
/// this SHA-256 digest.
pub fn generate_cid(digest: &[u8; 32]) -> (id: String)
    ensures
        cid_v0_text(sha256_multihash(digest@)) == Some(id@),
{
    let bytes = multihash_of(digest);
    match cid_v0_of_multihash(bytes.as_slice()) {
        Some(id) => id,
        None => vstd::pervasive::unreached(),
    }
}

/// The digest that `bytes` carry if they are the multihash of a SHA-256
/// digest.
pub open spec fn digest_in(bytes: Seq<u8>) -> Option<Seq<u8>> {
    if bytes.len() == 34 && bytes[0] == SHA2_256 && bytes[1] == DIGEST_LEN {
        Some(bytes.skip(2))
    } else {
        None
    }
}

/// Takes the digest out of the bytes of a version-0 content identifier.
pub fn digest_of_bytes(bytes: &Vec<u8>) -> (r: Result<[u8; 32], Error>)
    ensures
        match digest_in(bytes@) {
            Some(digest) => r matches Ok(d) && d@ == digest,
            None => r == Err::<[u8; 32], Error>(Error::Protocol),
        },
{
    if bytes.len() != 34 || bytes[0] != SHA2_256 || bytes[1] != DIGEST_LEN {
        return Err(Error::Protocol);
    }
    let mut digest = [0u8; 32];
    let mut i: usize = 0;
    while i < 32
        invariant
            i <= 32,
            bytes@.len() == 34,
            forall|j: int| 0 <= j < i ==> digest@[j] == bytes@[j + 2],
        decreases 32 - i,
    {
        digest[i] = bytes[i + 2];
        i += 1;
    }
    Ok(digest)
}

/// The SHA-256 digest that a version-0 content identifier stands for: the
/// inverse of [`generate_cid`]. Any other text is refused.
pub fn cid_to_digest(id: &str) -> (r: Result<[u8; 32], Error>)
    ensures
        match cid_text_bytes(id@) {
            Some(bytes) => match digest_in(bytes) {
                Some(digest) => r matches Ok(d) && d@ == digest,
                None => r == Err::<[u8; 32], Error>(Error::Protocol),
            },
            None => r == Err::<[u8; 32], Error>(Error::Protocol),
        },
{
    match cid_bytes_of_text(id) {
        Some(bytes) => digest_of_bytes(&bytes),
        None => Err(Error::Protocol),
    }
}

} // verus!
