//! A set of strings kept in insertion order without repeats: the candidate
//! URLs of a run, and the identifiers of the ledger.

use vstd::prelude::*;
use crate::text::chars_of;
use crate::text::same_chars;

verus! {

pub open spec fn strings_view(v: Seq<String>) -> Seq<Seq<char>> {
    v.map_values(|s: String| s@)
}

/// Distinct strings, in the order in which they were first inserted.
pub struct StringSet {
    items: Vec<String>,
}

impl View for StringSet {
    type V = Set<Seq<char>>;

    open spec fn view(&self) -> Set<Seq<char>> {
        self.seq_view().to_set()
    }
}

impl StringSet {
    /// The members, in insertion order.
    pub closed spec fn seq_view(&self) -> Seq<Seq<char>> {
        strings_view(self.items@)
    }

    /// No member is held twice.
    pub closed spec fn wf(&self) -> bool {
        self.seq_view().no_duplicates()
    }

    pub fn new() -> (r: StringSet)
        ensures
            r.wf(),
            r@ == Set::<Seq<char>>::empty(),
            r.seq_view() == Seq::<Seq<char>>::empty(),
    {
        let r = StringSet { items: Vec::new() };
        assert(r.seq_view() =~= Seq::<Seq<char>>::empty());
        assert(r@ =~= Set::<Seq<char>>::empty());
        r
    }

    /// The number of members.
    pub fn len(&self) -> (r: usize)
        requires
            self.wf(),
        ensures
            r == self@.len(),
            r == self.seq_view().len(),
    {
        proof {
            self.seq_view().unique_seq_to_set();
        }
        self.items.len()
    }

    /// The member at position `i` in insertion order.
    pub fn get(&self, i: usize) -> (r: &String)
        requires
            i < self.seq_view().len(),
        ensures
            r@ == self.seq_view()[i as int],
            self@.contains(r@),
    {
        assert(self.seq_view().contains(self.seq_view()[i as int]));
        &self.items[i]
    }

    /// Whether `s` is a member.
    pub fn contains(&self, s: &str) -> (r: bool)
        ensures
            r == self@.contains(s@),
    {
        let want = chars_of(s);
        let mut i: usize = 0;
        while i < self.items.len()
            invariant
                i <= self.items@.len(),
                want@ == s@,
                forall|k: int| 0 <= k < i ==> self.seq_view()[k] != s@,
            decreases self.items@.len() - i,
        {
            if same_chars(&chars_of(self.items[i].as_str()), &want) {
                assert(self.seq_view()[i as int] == s@);
                return true;
            }
            i = i + 1;
        }
        false
    }

    /// Adds `s`; returns whether it was not a member before.
    pub fn insert(&mut self, s: String) -> (r: bool)
        requires
            old(self).wf(),
        ensures
            final(self).wf(),
            final(self)@ == old(self)@.insert(s@),
            r == !old(self)@.contains(s@),
            r ==> final(self).seq_view() == old(self).seq_view().push(s@),
            !r ==> final(self).seq_view() == old(self).seq_view(),
    {
        if self.contains(s.as_str()) {
            assert(self@.insert(s@) =~= self@);
            return false;
        }
        let ghost before = self.seq_view();
        self.items.push(s);
        proof {
            assert(self.seq_view() =~= before.push(s@));
            before.lemma_push_to_set_commute(s@);
            assert forall|a: int, b: int|
                0 <= a < self.seq_view().len() && 0 <= b < self.seq_view().len() && a != b
                implies self.seq_view()[a] != self.seq_view()[b] by {
                if a == before.len() as int {
                    assert(before.contains(before[b]));
                } else if b == before.len() as int {
                    assert(before.contains(before[a]));
                }
            }
        }
        true
    }

    /// Adds each of `v`, in order.
    pub fn insert_all(&mut self, v: Vec<String>)
        requires
            old(self).wf(),
        ensures
            final(self).wf(),
            final(self)@ == old(self)@.union(strings_view(v@).to_set()),
    {
        let mut i: usize = 0;
        while i < v.len()
            invariant
                self.wf(),
                i <= v@.len(),
                self@ == old(self)@.union(strings_view(v@).subrange(0, i as int).to_set()),
            decreases v@.len() - i,
        {
            let ghost prev = self@;
            self.insert(v[i].clone());
            proof {
                let w = strings_view(v@);
                w.subrange(0, i as int).lemma_push_to_set_commute(w[i as int]);
                assert(w.subrange(0, i + 1) =~= w.subrange(0, i as int).push(w[i as int]));
            }
            i = i + 1;
        }
        proof {
            assert(strings_view(v@).subrange(0, i as int) =~= strings_view(v@));
        }
    }
}

} // verus!
