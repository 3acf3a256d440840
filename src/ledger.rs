//! The download ledger: identifiers of items already retrieved, read from
//! a line-oriented record whose lines are `<tag> <identifier> ...`.

use vstd::prelude::*;
use crate::string_set::StringSet;
use crate::text::{
    blank, chars_of, find_non_white, find_white, lemma_skip_white_to, lemma_skip_word_to,
    skip_white, skip_word, slice_chars, string_of, white_space,
};

verus! {

/// Index of the first line break at or after `i`, or the length of `s`.
pub open spec fn line_end(s: Seq<char>, i: int) -> int
    decreases s.len() - i,
{
    if i < 0 || i >= s.len() || s[i] == '\n' {
        i
    } else {
        line_end(s, i + 1)
    }
}

/// The second whitespace-separated token of `line`, if it has one.
pub open spec fn second_token(line: Seq<char>) -> Option<Seq<char>> {
    let a = skip_white(line, 0);
    let b = skip_word(line, a);
    let c = skip_white(line, b);
    if c >= line.len() {
        None
    } else {
        Some(line.subrange(c, skip_word(line, c)))
    }
}

/// The identifiers on the lines of `s` that start at or after `i`.
pub open spec fn ids_from(s: Seq<char>, i: int) -> Set<Seq<char>>
    decreases s.len() + 1 - i,
    via ids_from_decreases
{
    if i < 0 || i > s.len() {
        Set::empty()
    } else {
        let e = line_end(s, i);
        let rest = ids_from(s, e + 1);
        match second_token(s.subrange(i, e)) {
            Some(t) => rest.insert(t),
            None => rest,
        }
    }
}

#[via_fn]
proof fn ids_from_decreases(s: Seq<char>, i: int) {
    if 0 <= i <= s.len() {
        lemma_line_end_bounds(s, i);
    }
}

/// The identifiers recorded in the ledger text `s`: the second token of
/// each line that has at least two.
pub open spec fn ledger_ids(s: Seq<char>) -> Set<Seq<char>> {
    ids_from(s, 0)
}

proof fn lemma_line_end_bounds(s: Seq<char>, i: int)
    requires
        0 <= i <= s.len(),
    ensures
        i <= line_end(s, i) <= s.len(),
    decreases s.len() - i,
{
    if i < s.len() && s[i] != '\n' {
        lemma_line_end_bounds(s, i + 1);
    }
}

fn find_line_end(s: &Vec<char>, i: usize) -> (r: usize)
    requires
        i <= s@.len(),
    ensures
        r as int == line_end(s@, i as int),
        i <= r <= s@.len(),
{
    let mut j: usize = i;
    while j < s.len() && s[j] != '\n'
        invariant
            i <= j <= s@.len(),
            line_end(s@, j as int) == line_end(s@, i as int),
        decreases s@.len() - j,
    {
        j = j + 1;
    }
    j
}

/// The second whitespace-separated token of `line`, if it has one.
pub fn second_token_of(line: &Vec<char>) -> (r: Option<String>)
    ensures
        match r {
            Some(t) => second_token(line@) == Some(t@),
            None => second_token(line@) is None,
        },
{
    let a = find_non_white(line, 0);
    let b = find_white(line, a);
    let c = find_non_white(line, b);
    if c >= line.len() {
        return None;
    }
    let d = find_white(line, c);
    Some(string_of(&slice_chars(line, c, d)))
}

proof fn lemma_line_end_prefix(a: Seq<char>, b: Seq<char>, i: int)
    requires
        0 <= i <= a.len(),
    ensures
        line_end(a + seq!['\n'] + b, i) == line_end(a, i),
    decreases a.len() - i,
{
    let s = a + seq!['\n'] + b;
    if i < a.len() {
        assert(s[i] == a[i]);
        if a[i] != '\n' {
            lemma_line_end_prefix(a, b, i + 1);
        }
    } else {
        assert(s[i] == '\n');
    }
}

proof fn lemma_line_end_shift(p: Seq<char>, b: Seq<char>, j: int)
    requires
        0 <= j <= b.len(),
    ensures
        line_end(p + b, p.len() + j) == p.len() + line_end(b, j),
    decreases b.len() - j,
{
    let s = p + b;
    if j < b.len() {
        assert(s[p.len() + j] == b[j]);
        if b[j] != '\n' {
            lemma_line_end_shift(p, b, j + 1);
        }
    }
}

proof fn lemma_ids_shift(p: Seq<char>, b: Seq<char>, j: int)
    requires
        0 <= j <= b.len() + 1,
    ensures
        ids_from(p + b, p.len() as int + j) == ids_from(b, j),
    decreases b.len() + 1 - j,
{
    let s = p + b;
    let m = p.len() as int;
    if j <= b.len() {
        lemma_line_end_shift(p, b, j);
        lemma_line_end_bounds(b, j);
        let e = line_end(b, j);
        assert(s.subrange(m + j, m + e) =~= b.subrange(j, e));
        lemma_ids_shift(p, b, e + 1);
    }
}

proof fn lemma_ids_prefix(a: Seq<char>, b: Seq<char>, i: int)
    requires
        0 <= i <= a.len(),
    ensures
        ids_from(a + seq!['\n'] + b, i) == ids_from(a, i).union(
            ids_from(a + seq!['\n'] + b, a.len() + 1 as int),
        ),
    decreases a.len() - i,
{
    let s = a + seq!['\n'] + b;
    lemma_line_end_prefix(a, b, i);
    lemma_line_end_bounds(a, i);
    let e = line_end(a, i);
    assert(s.subrange(i, e) =~= a.subrange(i, e));
    let tail = ids_from(s, a.len() + 1 as int);
    if e < a.len() {
        lemma_ids_prefix(a, b, e + 1);
    } else {
        assert(ids_from(a, e + 1) == Set::<Seq<char>>::empty());
    }
    assert(ids_from(s, i) =~= ids_from(a, i).union(tail));
}

/// The ledger of two records joined by a line break holds the identifiers
/// of both.
pub proof fn joined_records_unite(a: Seq<char>, b: Seq<char>)
    ensures
        ledger_ids(a + seq!['\n'] + b) == ledger_ids(a).union(ledger_ids(b)),
{
    lemma_ids_prefix(a, b, 0);
    let p = a + seq!['\n'];
    assert(a + seq!['\n'] + b == p + b);
    lemma_ids_shift(p, b, 0);
}

/// Loading is idempotent: a record followed by the same record again
/// gives the ledger of the record alone.
pub proof fn repeated_record_adds_nothing(t: Seq<char>)
    ensures
        ledger_ids(t + seq!['\n'] + t) == ledger_ids(t),
{
    joined_records_unite(t, t);
    assert(ledger_ids(t).union(ledger_ids(t)) =~= ledger_ids(t));
}

/// A line that holds one token, with any whitespace around it, records
/// no identifier.
pub proof fn single_token_line_records_nothing(lead: Seq<char>, word: Seq<char>, trail: Seq<char>)
    requires
        blank(lead),
        blank(trail),
        forall|i: int| 0 <= i < word.len() ==> !white_space(#[trigger] word[i]),
    ensures
        second_token(lead + word + trail) is None,
{
    let line = lead + word + trail;
    let p = lead.len() as int;
    let q = p + word.len();
    let n = line.len() as int;
    assert forall|k: int| q <= k < n implies white_space(#[trigger] line[k]) by {
        assert(line[k] == trail[k - q]);
    }
    if word.len() == 0 {
        assert forall|k: int| 0 <= k < n implies white_space(#[trigger] line[k]) by {
            if k < p {
                assert(line[k] == lead[k]);
            } else {
                assert(line[k] == trail[k - q]);
            }
        }
        lemma_skip_white_to(line, 0, n);
        assert(skip_word(line, n) == n);
        assert(skip_white(line, n) == n);
    } else {
        assert forall|k: int| 0 <= k < p implies white_space(#[trigger] line[k]) by {
            assert(line[k] == lead[k]);
        }
        assert(line[p] == word[0]);
        lemma_skip_white_to(line, 0, p);
        assert forall|k: int| p <= k < q implies !white_space(#[trigger] line[k]) by {
            assert(line[k] == word[k - p]);
        }
        if q < n {
            assert(line[q] == trail[0]);
        }
        lemma_skip_word_to(line, p, q);
        lemma_skip_white_to(line, q, n);
    }
}

/// Identifiers of items already retrieved.
pub struct Ledger {
    ids: StringSet,
}

impl View for Ledger {
    type V = Set<Seq<char>>;

    closed spec fn view(&self) -> Set<Seq<char>> {
        self.ids@
    }
}

impl Ledger {
    pub closed spec fn wf(&self) -> bool {
        self.ids.wf()
    }

    /// A ledger with no identifier.
    pub fn new() -> (r: Ledger)
        ensures
            r.wf(),
            r@ == Set::<Seq<char>>::empty(),
    {
        Ledger { ids: StringSet::new() }
    }

    /// The ledger recorded in `text`: the second token of every line that
    /// has at least two; other lines are ignored.
    pub fn from_text(text: &str) -> (r: Ledger)
        ensures
            r.wf(),
            r@ == ledger_ids(text@),
    {
        let s = chars_of(text);
        let mut r = Ledger::new();
        let mut i: usize = 0;
        loop
            invariant
                r.wf(),
                s@ == text@,
                i <= s@.len(),
                ledger_ids(s@) == r@.union(ids_from(s@, i as int)),
            decreases s@.len() - i,
        {
            let e = find_line_end(&s, i);
            let line = slice_chars(&s, i, e);
            let ghost prev = r@;
            if let Some(t) = second_token_of(&line) {
                r.record(t);
            }
            proof {
                assert(ids_from(s@, i as int) == match second_token(s@.subrange(i as int, e as int)) {
                    Some(t) => ids_from(s@, e + 1).insert(t),
                    None => ids_from(s@, e + 1),
                });
                assert(ledger_ids(s@) =~= r@.union(ids_from(s@, e + 1)));
            }
            if e >= s.len() {
                assert(ids_from(s@, e + 1) == Set::<Seq<char>>::empty());
                assert(r@.union(Set::<Seq<char>>::empty()) =~= r@);
                return r;
            }
            i = e + 1;
        }
    }

    /// The ledger read from a record that may be missing: a missing record
    /// gives the empty ledger.
    pub fn load(contents: Option<&str>) -> (r: Ledger)
        ensures
            r.wf(),
            r@ == match contents {
                Some(t) => ledger_ids(t@),
                None => Set::<Seq<char>>::empty(),
            },
    {
        match contents {
            Some(t) => Ledger::from_text(t),
            None => Ledger::new(),
        }
    }

    /// Whether `id` is recorded.
    pub fn contains(&self, id: &str) -> (r: bool)
        ensures
            r == self@.contains(id@),
    {
        self.ids.contains(id)
    }

    /// Records `id` as retrieved.
    pub fn record(&mut self, id: String)
        requires
            old(self).wf(),
        ensures
            final(self).wf(),
            final(self)@ == old(self)@.insert(id@),
    {
        self.ids.insert(id);
    }

    /// The number of recorded identifiers.
    pub fn len(&self) -> (r: usize)
        requires
            self.wf(),
        ensures
            r == self@.len(),
    {
        self.ids.len()
    }
}

} // verus!
