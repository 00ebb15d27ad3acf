//! Strings as the library reads them: their byte-wise order, in which the
//! sorted sets and maps of this crate keep their keys, the shape of the name
//! of a git object, and the words of a line.

use vstd::prelude::*;
use vstd::string::*;
use vstd::utf8::{encode_utf8, encode_utf8_decode_utf8};

verus! {

/// The strings of a vector, each by its characters.
pub open spec fn texts(v: Seq<String>) -> Seq<Seq<char>> {
    Seq::new(v.len(), |i: int| v[i]@)
}

/// How the first of two strings stands to the second.
#[derive(Clone, Copy, Debug, PartialEq, Eq, Structural)]
pub enum Order {
    Before,
    Same,
    After,
}

/// `a` and `b` agree on their first `k` bytes.
pub open spec fn agree_upto(a: Seq<u8>, b: Seq<u8>, k: int) -> bool {
    &&& 0 <= k <= a.len()
    &&& k <= b.len()
    &&& forall|j: int| 0 <= j < k ==> a[j] == b[j]
}

/// Lexicographic order on byte strings: at the first place where the two
/// differ, `a` has ended or holds the smaller byte.
pub open spec fn bytes_lt(a: Seq<u8>, b: Seq<u8>) -> bool {
    exists|k: int| #[trigger]
        agree_upto(a, b, k) && k < b.len() && (k == a.len() || a[k] < b[k])
}

/// Order on strings: the lexicographic order of their UTF-8 encodings.
pub open spec fn text_lt(a: Seq<char>, b: Seq<char>) -> bool {
    bytes_lt(encode_utf8(a), encode_utf8(b))
}

/// The order on byte strings is transitive.
pub proof fn lemma_bytes_lt_transitive(a: Seq<u8>, b: Seq<u8>, c: Seq<u8>)
    requires
        bytes_lt(a, b),
        bytes_lt(b, c),
    ensures
        bytes_lt(a, c),
{
    let k1 = choose|k: int| #[trigger]
        agree_upto(a, b, k) && k < b.len() && (k == a.len() || a[k] < b[k]);
    let k2 = choose|k: int| #[trigger]
        agree_upto(b, c, k) && k < c.len() && (k == b.len() || b[k] < c[k]);
    let k = if k1 <= k2 { k1 } else { k2 };
    assert(agree_upto(a, c, k));
}

/// No string is below itself.
pub proof fn lemma_text_lt_irreflexive(a: Seq<char>)
    ensures
        !text_lt(a, a),
{
}

/// The order on strings is transitive.
pub proof fn lemma_text_lt_transitive(a: Seq<char>, b: Seq<char>, c: Seq<char>)
    requires
        text_lt(a, b),
        text_lt(b, c),
    ensures
        text_lt(a, c),
{
    lemma_bytes_lt_transitive(encode_utf8(a), encode_utf8(b), encode_utf8(c));
}

/// Of two strings at most one is below the other.
pub proof fn lemma_text_lt_asymmetric(a: Seq<char>, b: Seq<char>)
    requires
        text_lt(a, b),
    ensures
        !text_lt(b, a),
        a != b,
{
}

/// Compares two strings byte by byte.
pub fn order(a: &str, b: &str) -> (r: Order)
    ensures
        r == Order::Before <==> text_lt(a@, b@),
        r == Order::Same <==> a@ == b@,
        r == Order::After <==> text_lt(b@, a@),
{
    let x = a.as_bytes();
    let y = b.as_bytes();
    let mut i: usize = 0;
    let mut r = Order::Same;
    while i < x.len() && i < y.len() && r == Order::Same
        invariant
            x@ == encode_utf8(a@),
            y@ == encode_utf8(b@),
            r == Order::Same ==> agree_upto(x@, y@, i as int),
            r == Order::Before ==> bytes_lt(x@, y@),
            r == Order::After ==> bytes_lt(y@, x@),
        decreases x.len() - i + (if r == Order::Same { 1int } else { 0int }),
    {
        if x[i] < y[i] {
            r = Order::Before;
        } else if x[i] > y[i] {
            assert(agree_upto(y@, x@, i as int));
            r = Order::After;
        } else {
            i += 1;
        }
    }
    if r == Order::Same {
        if i < y.len() {
            r = Order::Before;
        } else if i < x.len() {
            assert(agree_upto(y@, x@, i as int));
            r = Order::After;
        } else {
            assert(x@ =~= y@);
        }
    }
    proof {
        encode_utf8_decode_utf8(a@);
        encode_utf8_decode_utf8(b@);
    }
    r
}

/// Whether two strings hold the same characters.
pub fn same(a: &str, b: &str) -> (r: bool)
    ensures
        r == (a@ == b@),
{
    order(a, b) == Order::Same
}

/// The characters of a string.
pub fn to_chars(s: &str) -> (v: Vec<char>)
    ensures
        v@ == s@,
{
    let mut v: Vec<char> = Vec::new();
    for c in it: s.chars()
        invariant
            v@ == it.seq().take(it.index() as int),
            it.seq() == s@,
    {
        v.push(c);
    }
    v
}

/// A digit or one of the letters `a` to `f`.
pub open spec fn is_hex_lower(c: char) -> bool {
    ('0' <= c && c <= '9') || ('a' <= c && c <= 'f')
}

/// The text is the name of a git object: 40 hexadecimal digits in lower
/// case.
pub open spec fn is_oid(s: Seq<char>) -> bool {
    s.len() == 40 && forall|i: int| 0 <= i < s.len() ==> is_hex_lower(#[trigger] s[i])
}

/// Whether the text is the name of a git object.
pub fn check_oid(s: &str) -> (r: bool)
    ensures
        r == is_oid(s@),
{
    let chars = to_chars(s);
    if chars.len() != 40 {
        return false;
    }
    let mut i: usize = 0;
    while i < 40
        invariant
            i <= 40,
            chars@ == s@,
            chars@.len() == 40,
            forall|j: int| 0 <= j < i ==> is_hex_lower(#[trigger] chars@[j]),
        decreases 40 - i,
    {
        let c = chars[i];
        if !((c >= '0' && c <= '9') || (c >= 'a' && c <= 'f')) {
            return false;
        }
        i += 1;
    }
    true
}

/// Whether `s` begins with `prefix`.
pub fn starts_with(s: &str, prefix: &str) -> (r: bool)
    ensures
        r == prefix@.is_prefix_of(s@),
{
    let text = to_chars(s);
    let head = to_chars(prefix);
    if head.len() > text.len() {
        return false;
    }
    let mut i: usize = 0;
    while i < head.len()
        invariant
            i <= head@.len() <= text@.len(),
            text@ == s@,
            head@ == prefix@,
            forall|j: int| 0 <= j < i ==> text@[j] == head@[j],
        decreases head@.len() - i,
    {
        if text[i] != head[i] {
            return false;
        }
        i += 1;
    }
    true
}

/// One of the characters that stand between the words of a line.
pub open spec fn is_space(c: char) -> bool {
    c == ' ' || c == '\t' || c == '\n' || c == '\x0C' || c == '\r'
}

/// The first place at or after `from` that holds `c`; the length where no
/// such place is left.
pub open spec fn find(s: Seq<char>, c: char, from: int) -> int
    decreases s.len() - from,
{
    if from < 0 || from >= s.len() {
        s.len() as int
    } else if s[from] == c {
        from
    } else {
        find(s, c, from + 1)
    }
}

/// The first place at or after `from` that holds a space (`space`) or
/// another character (`!space`); the length where no such place is left.
pub open spec fn scan(s: Seq<char>, from: int, space: bool) -> int
    decreases s.len() - from,
{
    if from < 0 || from >= s.len() {
        s.len() as int
    } else if is_space(s[from]) == space {
        from
    } else {
        scan(s, from + 1, space)
    }
}

/// The words of a line from `from` on: the longest runs of characters that
/// are no spaces.
pub open spec fn words(s: Seq<char>, from: int) -> Seq<Seq<char>>
    decreases s.len() - from,
{
    let a = scan(s, from, false);
    let b = scan(s, a, true);
    if from < 0 || a < from || a >= s.len() || b <= a || b > s.len() {
        Seq::empty()
    } else {
        seq![s.subrange(a, b)] + words(s, b)
    }
}

/// Where `c` first stands in `chars` at or after `from`.
pub(crate) fn find_char(chars: &Vec<char>, c: char, from: usize) -> (k: usize)
    requires
        from <= chars@.len(),
    ensures
        k == find(chars@, c, from as int),
        from <= k <= chars@.len(),
        k < chars@.len() ==> chars@[k as int] == c,
        forall|j: int| from <= j < k ==> chars@[j] != c,
{
    let mut k = from;
    while k < chars.len() && chars[k] != c
        invariant
            from <= k <= chars@.len(),
            find(chars@, c, from as int) == find(chars@, c, k as int),
            forall|j: int| from <= j < k ==> chars@[j] != c,
        decreases chars@.len() - k,
    {
        k += 1;
    }
    k
}

/// Whether `c` stands between words.
pub(crate) fn space(c: char) -> (r: bool)
    ensures
        r == is_space(c),
{
    c == ' ' || c == '\t' || c == '\n' || c == '\x0C' || c == '\r'
}

/// Where the next space, or the next character of a word, stands in `chars`
/// at or after `from`.
pub(crate) fn scan_chars(chars: &Vec<char>, from: usize, want_space: bool) -> (k: usize)
    requires
        from <= chars@.len(),
    ensures
        k == scan(chars@, from as int, want_space),
        from <= k <= chars@.len(),
        k < chars@.len() ==> is_space(chars@[k as int]) == want_space,
        forall|j: int| from <= j < k ==> is_space(chars@[j]) != want_space,
{
    let mut k = from;
    while k < chars.len() && space(chars[k]) != want_space
        invariant
            from <= k <= chars@.len(),
            scan(chars@, from as int, want_space) == scan(chars@, k as int, want_space),
            forall|j: int| from <= j < k ==> is_space(chars@[j]) != want_space,
        decreases chars@.len() - k,
    {
        k += 1;
    }
    k
}

/// The characters of `s` from place `from` up to place `to`, as a string.
pub(crate) fn slice(s: &str, from: usize, to: usize) -> (part: String)
    requires
        from <= to <= s@.len(),
    ensures
        part@ == s@.subrange(from as int, to as int),
{
    s.substring_char(from, to).to_owned()
}

/// The words of a line.
pub fn split_words(line: &str) -> (out: Vec<String>)
    ensures
        texts(out@) == words(line@, 0),
{
    let chars = to_chars(line);
    let mut out: Vec<String> = Vec::new();
    let mut i: usize = 0;
    let ghost all = words(line@, 0);
    loop
        invariant
            chars@ == line@,
            i <= chars@.len(),
            texts(out@) + words(line@, i as int) == all,
        ensures
            texts(out@) == all,
        decreases chars@.len() - i,
    {
        let a = scan_chars(&chars, i, false);
        if a >= chars.len() {
            break ;
        }
        let b = scan_chars(&chars, a, true);
        out.push(slice(line, a, b));
        i = b;
    }
    out
}

} // verus!
