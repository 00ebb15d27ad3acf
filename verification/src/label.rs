//! The label of a container: a 64-bit fingerprint of the order in which it
//! lists its objects, written in decimal.
//!
//! The label is a key by which containers are told apart, not a means of
//! security: what an object is, its git hash says.

use vstd::prelude::*;
use vstd::string::*;
use vstd::utf8::encode_utf8;
use crate::text::texts;

verus! {

/// The SCALE encoding of a list of strings: what `parity_scale_codec` writes
/// for a `Vec<String>`.
pub uninterp spec fn scale_encoding(list: Seq<Seq<char>>) -> Seq<u8>;

/// The 64-bit XXH3 hash of a byte string with seed 0, as `twox_hash` computes
/// it.
pub uninterp spec fn xxh3_64(data: Seq<u8>) -> u64;

/// The character of a decimal digit.
pub open spec fn digit_char(d: int) -> char {
    seq!['0', '1', '2', '3', '4', '5', '6', '7', '8', '9'][d]
}

/// A number in decimal, without sign and without leading zeros.
pub open spec fn decimal_text(n: nat) -> Seq<char>
    decreases n,
{
    if n < 10 {
        seq![digit_char(n as int)]
    } else {
        decimal_text(n / 10).push(digit_char((n % 10) as int))
    }
}

/// The list can be encoded: neither its length nor the byte length of one of
/// its strings exceeds 32 bits.
pub open spec fn encodable(list: Seq<Seq<char>>) -> bool {
    &&& list.len() <= u32::MAX
    &&& forall|i: int| 0 <= i < list.len() ==> encode_utf8(#[trigger] list[i]).len() <= u32::MAX
}

/// The label of a container that lists its objects in the order `order`.
pub open spec fn label_of(order: Seq<Seq<char>>) -> Seq<char> {
    decimal_text(xxh3_64(scale_encoding(order)) as nat)
}

/// A decimal text holds digits only.
pub proof fn lemma_decimal_digits(n: nat)
    ensures
        decimal_text(n).len() >= 1,
        forall|i: int|
            0 <= i < decimal_text(n).len() ==> '0' <= #[trigger] decimal_text(n)[i] <= '9',
    decreases n,
{
    if n >= 10 {
        lemma_decimal_digits(n / 10);
    }
}

/// Calls `parity_scale_codec::Encode::encode` on the list. The call panics
/// where a length does not fit in 32 bits, which `requires` rules out; its
/// result is a function of the strings alone.
#[verifier::external_body]
fn scale_encode(list: &Vec<String>) -> (bytes: Vec<u8>)
    requires
        encodable(texts(list@)),
    ensures
        bytes@ == scale_encoding(texts(list@)),
{
    parity_scale_codec::Encode::encode(list)
}

/// Calls `twox_hash::xxh3::hash64`, the XXH3 hash of 64 bits with seed 0: a
/// function of the bytes alone.
#[verifier::external_body]
fn xxh3_hash64(data: &[u8]) -> (hash: u64)
    ensures
        hash == xxh3_64(data@),
{
    twox_hash::xxh3::hash64(data)
}

/// Appends one decimal digit to `out`.
fn push_digit(out: &mut String, d: u8)
    requires
        d < 10,
    ensures
        final(out)@ == old(out)@.push(digit_char(d as int)),
{
    proof {
        reveal_strlit("0");
        reveal_strlit("1");
        reveal_strlit("2");
        reveal_strlit("3");
        reveal_strlit("4");
        reveal_strlit("5");
        reveal_strlit("6");
        reveal_strlit("7");
        reveal_strlit("8");
        reveal_strlit("9");
    }
    match d {
        0 => out.append("0"),
        1 => out.append("1"),
        2 => out.append("2"),
        3 => out.append("3"),
        4 => out.append("4"),
        5 => out.append("5"),
        6 => out.append("6"),
        7 => out.append("7"),
        8 => out.append("8"),
        _ => out.append("9"),
    }
}

/// The digits of `low`, which holds the lowest digit first, read from the
/// highest.
pub open spec fn digits_reversed(low: Seq<u8>) -> Seq<char> {
    Seq::new(low.len(), |i: int| digit_char(low[low.len() - 1 - i] as int))
}

/// Writes `n` in decimal.
pub fn decimal(n: u64) -> (text: String)
    ensures
        text@ == decimal_text(n as nat),
{
    let mut low: Vec<u8> = Vec::new();
    let mut m = n;
    while m >= 10
        invariant
            decimal_text(m as nat) + digits_reversed(low@) == decimal_text(n as nat),
            forall|i: int| 0 <= i < low@.len() ==> #[trigger] low@[i] < 10,
        decreases m,
    {
        low.push((m % 10) as u8);
        m = m / 10;
    }
    low.push(m as u8);
    let mut text = String::new();
    let mut i: usize = low.len();
    while i > 0
        invariant
            i <= low@.len(),
            forall|j: int| 0 <= j < low@.len() ==> #[trigger] low@[j] < 10,
            text@ == digits_reversed(low@).take(low@.len() - i),
        decreases i,
    {
        i -= 1;
        push_digit(&mut text, low[i]);
    }
    text
}

/// Whether the list can be encoded.
fn is_encodable(list: &Vec<String>) -> (b: bool)
    ensures
        b == encodable(texts(list@)),
{
    if list.len() > u32::MAX as usize {
        return false;
    }
    let mut i: usize = 0;
    while i < list.len()
        invariant
            i <= list@.len(),
            list@.len() <= u32::MAX,
            forall|j: int| 0 <= j < i ==> encode_utf8(#[trigger] texts(list@)[j]).len() <= u32::MAX,
        decreases list@.len() - i,
    {
        let bytes = list[i].as_str().as_bytes();
        assert(bytes@ == encode_utf8(texts(list@)[i as int]));
        if bytes.len() > u32::MAX as usize {
            return false;
        }
        i += 1;
    }
    true
}

/// The label of a container that lists `git_hashes` in this order, or `None`
/// where the list is too long to be encoded.
pub fn fingerprint(git_hashes: &Vec<String>) -> (label: Option<String>)
    ensures
        label is Some <==> encodable(texts(git_hashes@)),
        label matches Some(text) ==> text@ == label_of(texts(git_hashes@)),
{
    if !is_encodable(git_hashes) {
        return None;
    }
    let bytes = scale_encode(git_hashes);
    let hash = xxh3_hash64(bytes.as_slice());
    Some(decimal(hash))
}

} // verus!
