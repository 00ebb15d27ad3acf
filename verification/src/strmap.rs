//! Maps and sets keyed by strings, kept in key order.
//!
//! Both are sorted vectors without repeated keys: walking one yields its keys
//! in ascending byte-wise order, and two maps with the same contents are the
//! same value.

use vstd::prelude::*;
use crate::text::{lemma_text_lt_transitive, order, text_lt, Order};

verus! {

/// Each key is below every key after it.
pub open spec fn strictly_increasing(keys: Seq<Seq<char>>) -> bool {
    forall|i: int, j: int|
        0 <= i < j < keys.len() ==> text_lt(#[trigger] keys[i], #[trigger] keys[j])
}

/// A map from strings to `V`, in key order.
#[derive(Debug, PartialEq, Eq)]
pub struct StrMap<V> {
    entries: Vec<(String, V)>,
}

impl<V> View for StrMap<V> {
    type V = Map<Seq<char>, V>;

    open spec fn view(&self) -> Map<Seq<char>, V> {
        Map::new(
            |k: Seq<char>| self.keys().contains(k),
            |k: Seq<char>| self.values()[self.keys().index_of(k)],
        )
    }
}

impl<V: Clone> Clone for StrMap<V> {
    /// A map with the same keys, each with a clone of its value.
    fn clone(&self) -> (copy: Self)
        ensures
            copy.keys() == self.keys(),
            copy.values().len() == self.values().len(),
            forall|i: int|
                0 <= i < self.values().len() ==> cloned::<V>(
                    #[trigger] self.values()[i],
                    copy.values()[i],
                ),
    {
        proof {
            use_type_invariant(self);
        }
        let mut entries: Vec<(String, V)> = Vec::new();
        let mut i: usize = 0;
        while i < self.entries.len()
            invariant
                i <= self.entries@.len(),
                entries@.len() == i,
                forall|j: int| 0 <= j < i ==> (#[trigger] entries@[j]).0@ == self.entries@[j].0@,
                forall|j: int|
                    0 <= j < i ==> cloned::<V>(self.entries@[j].1, (#[trigger] entries@[j]).1),
            decreases self.entries@.len() - i,
        {
            let key = self.entries[i].0.clone();
            let value = self.entries[i].1.clone();
            entries.push((key, value));
            i += 1;
        }
        let ghost copy = StrMap { entries };
        assert(copy.keys() =~= self.keys());
        StrMap { entries }
    }
}

impl<V> StrMap<V> {
    /// The keys, in the order in which the map is walked.
    pub closed spec fn keys(self) -> Seq<Seq<char>> {
        Seq::new(self.entries@.len(), |i: int| self.entries@[i].0@)
    }

    /// The values, each at the place of its key.
    pub closed spec fn values(self) -> Seq<V> {
        Seq::new(self.entries@.len(), |i: int| self.entries@[i].1)
    }

    /// The keys ascend strictly.
    #[verifier::type_invariant]
    pub closed spec fn wf(self) -> bool {
        strictly_increasing(self.keys())
    }

    /// What the ordered keys and values say of the map they stand for.
    pub proof fn lemma_entries(self)
        requires
            self.wf(),
        ensures
            self.keys().len() == self.values().len(),
            strictly_increasing(self.keys()),
            self.keys().no_duplicates(),
            self@.dom().finite(),
            self@.dom() == self.keys().to_set(),
            self@.dom().len() == self.keys().len(),
            forall|i: int|
                0 <= i < self.keys().len() ==> self@.contains_key(#[trigger] self.keys()[i])
                    && self@[self.keys()[i]] == self.values()[i],
    {
        self.keys().unique_seq_to_set();
    }

    /// The empty map.
    pub fn new() -> (m: Self)
        ensures
            m@ == Map::<Seq<char>, V>::empty(),
            m.keys() == Seq::<Seq<char>>::empty(),
            m.wf(),
    {
        StrMap { entries: Vec::new() }
    }

    /// The number of entries.
    pub fn len(&self) -> (n: usize)
        ensures
            n == self.keys().len(),
            n == self@.dom().len(),
            self.wf(),
    {
        proof {
            use_type_invariant(&*self);
            self.lemma_entries();
        }
        self.entries.len()
    }

    /// The key at place `i` of the ascending order.
    pub fn key_at(&self, i: usize) -> (k: &String)
        requires
            i < self.keys().len(),
        ensures
            k@ == self.keys()[i as int],
            self@.contains_key(k@),
    {
        &self.entries[i].0
    }

    /// The value that belongs to the key at place `i`.
    pub fn value_at(&self, i: usize) -> (v: &V)
        requires
            i < self.keys().len(),
        ensures
            *v == self.values()[i as int],
            *v == self@[self.keys()[i as int]],
    {
        proof {
            use_type_invariant(&*self);
        }
        &self.entries[i].1
    }

    /// Where `key` stands, or would stand, among the entries.
    fn slot(&self, key: &str) -> (r: (usize, bool))
        ensures
            self.wf(),
            r.0 <= self.keys().len(),
            forall|j: int| 0 <= j < r.0 ==> text_lt(#[trigger] self.keys()[j], key@),
            r.1 ==> r.0 < self.keys().len() && self.keys()[r.0 as int] == key@,
            forall|j: int|
                (if r.1 { r.0 + 1 } else { r.0 as int }) <= j < self.keys().len() ==> text_lt(
                    key@,
                    #[trigger] self.keys()[j],
                ),
            r.1 == self@.contains_key(key@),
    {
        proof {
            use_type_invariant(&*self);
        }
        let ghost keys = self.keys();
        let mut lo: usize = 0;
        let mut hi: usize = self.entries.len();
        while lo < hi
            invariant
                keys == self.keys(),
                strictly_increasing(keys),
                lo <= hi <= keys.len(),
                keys.len() == self.entries@.len(),
                forall|j: int| 0 <= j < lo ==> text_lt(#[trigger] keys[j], key@),
                forall|j: int| hi <= j < keys.len() ==> text_lt(key@, #[trigger] keys[j]),
            decreases hi - lo,
        {
            let mid = lo + (hi - lo) / 2;
            match order(self.entries[mid].0.as_str(), key) {
                Order::Before => {
                    assert forall|j: int| 0 <= j < mid + 1 implies text_lt(
                        #[trigger] keys[j],
                        key@,
                    ) by {
                        if j < mid {
                            lemma_text_lt_transitive(keys[j], keys[mid as int], key@);
                        }
                    }
                    lo = mid + 1;
                },
                Order::After => {
                    assert forall|j: int| mid <= j < keys.len() implies text_lt(
                        key@,
                        #[trigger] keys[j],
                    ) by {
                        if mid < j {
                            lemma_text_lt_transitive(key@, keys[mid as int], keys[j]);
                        }
                    }
                    hi = mid;
                },
                Order::Same => {
                    assert(keys[mid as int] == key@);
                    return (mid, true);
                },
            }
        }
        (lo, false)
    }

    /// Whether `key` has an entry.
    pub fn contains_key(&self, key: &str) -> (b: bool)
        ensures
            b == self@.contains_key(key@),
    {
        self.slot(key).1
    }

    /// The value stored under `key`, if there is one.
    pub fn get(&self, key: &str) -> (v: Option<&V>)
        ensures
            v == (if self@.contains_key(key@) {
                Some(&self@[key@])
            } else {
                None
            }),
    {
        let (i, found) = self.slot(key);
        if found {
            Some(&self.entries[i].1)
        } else {
            None
        }
    }

    /// Stores `value` under `key` and hands back what was stored there before.
    pub fn insert(&mut self, key: String, value: V) -> (previous: Option<V>)
        ensures
            final(self)@ == old(self)@.insert(key@, value),
            previous == (if old(self)@.contains_key(key@) {
                Some(old(self)@[key@])
            } else {
                None
            }),
            final(self).wf(),
    {
        let (i, found) = self.slot(key.as_str());
        let ghost before = *self;
        let ghost k = key@;
        let mut entries = Vec::new();
        std::mem::swap(&mut entries, &mut self.entries);
        let previous = if found {
            let gone = entries.remove(i);
            Some(gone.1)
        } else {
            None
        };
        entries.insert(i, (key, value));
        let ghost after = StrMap { entries };
        proof {
            let old_keys = before.keys();
            let new_keys = after.keys();
            if found {
                assert(new_keys =~= old_keys);
            } else {
                assert forall|a: int, b: int| 0 <= a < b < new_keys.len() implies text_lt(
                    #[trigger] new_keys[a],
                    #[trigger] new_keys[b],
                ) by {
                    if a == i {
                        assert(new_keys[b] == old_keys[b - 1]);
                    } else if b == i {
                        assert(new_keys[a] == old_keys[a]);
                    } else {
                        let a0 = if a < i { a } else { a - 1 };
                        let b0 = if b < i { b } else { b - 1 };
                        assert(new_keys[a] == old_keys[a0]);
                        assert(new_keys[b] == old_keys[b0]);
                    }
                }
            }
            assert forall|x: Seq<char>| after@.contains_key(x) <==> before@.insert(
                k,
                value,
            ).contains_key(x) by {
                if new_keys.contains(x) {
                    let j = new_keys.index_of(x);
                    if x != k {
                        let j0 = if found || j < i { j } else { j - 1 };
                        assert(old_keys[j0] == x);
                    }
                }
                if old_keys.contains(x) {
                    let j = old_keys.index_of(x);
                    let j1 = if found || j < i { j } else { j + 1 };
                    assert(new_keys[j1] == x);
                }
                if x == k {
                    assert(new_keys[i as int] == x);
                }
            }
            assert forall|x: Seq<char>| after@.contains_key(x) implies after@[x] == before@.insert(
                k,
                value,
            )[x] by {
                let j = new_keys.index_of(x);
                if x == k {
                    assert(new_keys[i as int] == x);
                } else {
                    let j0 = if found || j < i { j } else { j - 1 };
                    assert(before@[old_keys[j0]] == before.values()[j0]);
                }
            }
        }
        self.entries = entries;
        previous
    }

    /// Takes the entry of `key` out of the map and hands its value back.
    pub fn remove(&mut self, key: &str) -> (previous: Option<V>)
        ensures
            final(self)@ == old(self)@.remove(key@),
            previous == (if old(self)@.contains_key(key@) {
                Some(old(self)@[key@])
            } else {
                None
            }),
            final(self).wf(),
    {
        let (i, found) = self.slot(key);
        let ghost before = *self;
        let ghost k = key@;
        if !found {
            return None;
        }
        let mut entries = Vec::new();
        std::mem::swap(&mut entries, &mut self.entries);
        let gone = entries.remove(i);
        let ghost after = StrMap { entries };
        proof {
            let old_keys = before.keys();
            let new_keys = after.keys();
            assert forall|a: int, b: int| 0 <= a < b < new_keys.len() implies text_lt(
                #[trigger] new_keys[a],
                #[trigger] new_keys[b],
            ) by {
                let a0 = if a < i { a } else { a + 1 };
                let b0 = if b < i { b } else { b + 1 };
                assert(new_keys[a] == old_keys[a0]);
                assert(new_keys[b] == old_keys[b0]);
            }
            assert forall|x: Seq<char>| after@.contains_key(x) <==> before@.remove(k).contains_key(
                x,
            ) by {
                if new_keys.contains(x) {
                    let j = new_keys.index_of(x);
                    let j0 = if j < i { j } else { j + 1 };
                    assert(old_keys[j0] == x);
                }
                if old_keys.contains(x) && x != k {
                    let j = old_keys.index_of(x);
                    let j1 = if j < i { j } else { j - 1 };
                    assert(new_keys[j1] == x);
                }
            }
            assert forall|x: Seq<char>| after@.contains_key(x) implies after@[x] == before@.remove(
                k,
            )[x] by {
                let j = new_keys.index_of(x);
                let j0 = if j < i { j } else { j + 1 };
                assert(before@[old_keys[j0]] == before.values()[j0]);
            }
        }
        self.entries = entries;
        Some(gone.1)
    }
}

} // verus!
