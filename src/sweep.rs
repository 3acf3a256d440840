//! The partial-artifact sweeper's pattern: which files under the output
//! directory are leftovers of interrupted downloads.

use vstd::prelude::*;
use crate::text::{chars_of, string_of};

verus! {

/// `s` with every backslash turned into a forward slash.
pub open spec fn forward_slashes(s: Seq<char>) -> Seq<char> {
    s.map_values(|c: char| if c == '\\' { '/' } else { c })
}

/// The glob pattern matching the partial files directly under `directory`.
pub open spec fn part_pattern(directory: Seq<char>) -> Seq<char> {
    forward_slashes(directory + "/*.part"@)
}

/// The glob pattern of the partial files directly under `directory`:
/// `<directory>/*.part`, written with forward slashes only.
pub fn part_file_pattern(directory: &str) -> (r: String)
    ensures
        r@ == part_pattern(directory@),
{
    let mut s = chars_of(directory);
    let mut tail = chars_of("/*.part");
    s.append(&mut tail);
    let ghost whole = s@;
    let mut out: Vec<char> = Vec::new();
    let mut i: usize = 0;
    while i < s.len()
        invariant
            s@ == whole,
            i <= s@.len(),
            out@ == forward_slashes(whole.subrange(0, i as int)),
        decreases s@.len() - i,
    {
        let c = s[i];
        out.push(if c == '\\' { '/' } else { c });
        i = i + 1;
        assert(out@ =~= forward_slashes(whole.subrange(0, i as int)));
    }
    assert(whole.subrange(0, i as int) =~= whole);
    string_of(&out)
}

} // verus!
