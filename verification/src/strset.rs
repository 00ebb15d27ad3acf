//! Sets of strings, kept in ascending order.

use vstd::prelude::*;
use crate::strmap::{strictly_increasing, StrMap};

verus! {

/// A set of strings that is walked in ascending byte-wise order.
#[derive(Clone, Debug, PartialEq, Eq)]
pub struct StrSet {
    members: StrMap<()>,
}

impl View for StrSet {
    type V = Set<Seq<char>>;

    open spec fn view(&self) -> Set<Seq<char>> {
        self.seq().to_set()
    }
}

impl StrSet {
    /// The members in ascending order.
    pub closed spec fn seq(self) -> Seq<Seq<char>> {
        self.members.keys()
    }

    /// The members ascend strictly.
    pub closed spec fn wf(self) -> bool {
        self.members.wf()
    }

    /// A well-formed set lists each member once, in ascending order.
    pub proof fn lemma_seq(self)
        requires
            self.wf(),
        ensures
            strictly_increasing(self.seq()),
            self.seq().no_duplicates(),
            self@.finite(),
            self@.len() == self.seq().len(),
    {
        self.members.lemma_entries();
    }

    /// The empty set.
    pub fn new() -> (s: Self)
        ensures
            s@ == Set::<Seq<char>>::empty(),
            s.seq() == Seq::<Seq<char>>::empty(),
            s.wf(),
    {
        let s = StrSet { members: StrMap::new() };
        s
    }

    /// The number of members.
    pub fn len(&self) -> (n: usize)
        ensures
            n == self.seq().len(),
            n == self@.len(),
            self.wf(),
    {
        let n = self.members.len();
        n
    }

    /// The member at place `i` of the ascending order.
    pub fn get(&self, i: usize) -> (s: &String)
        requires
            i < self.seq().len(),
        ensures
            s@ == self.seq()[i as int],
            self@.contains(s@),
    {
        self.members.key_at(i)
    }

    /// Whether `s` is a member.
    pub fn contains(&self, s: &str) -> (b: bool)
        ensures
            b == self@.contains(s@),
    {
        let b = self.members.contains_key(s);
        b
    }

    /// Adds `s`; says whether it was new.
    pub fn insert(&mut self, s: String) -> (fresh: bool)
        ensures
            final(self)@ == old(self)@.insert(s@),
            fresh == !old(self)@.contains(s@),
            final(self).wf(),
    {
        let ghost before = *self;
        let previous = self.members.insert(s, ());
        proof {
            let t = s@;
            assert forall|x: Seq<char>| self@.contains(x) == before@.insert(t).contains(x) by {
                assert(self.members@.dom().contains(x) == self.seq().contains(x));
            }
        }
        previous.is_none()
    }
}

} // verus!
