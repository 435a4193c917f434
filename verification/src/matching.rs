//! Literal, case-sensitive substring containment on byte lines.

use vstd::prelude::*;

verus! {

/// The pattern occurs in `text` starting at position `i`.
pub open spec fn match_at(text: Seq<u8>, pat: Seq<u8>, i: int) -> bool {
    &&& 0 <= i
    &&& i + pat.len() <= text.len()
    &&& forall|j: int| 0 <= j < pat.len() ==> text[i + j] == pat[j]
}

/// The pattern occurs somewhere in `text` as a contiguous substring.
pub open spec fn contains_pattern(text: Seq<u8>, pat: Seq<u8>) -> bool {
    exists|i: int| match_at(text, pat, i)
}

/// Whether the pattern occurs in `line` starting exactly at position `i`.
fn window_matches(line: &Vec<u8>, pattern: &Vec<u8>, i: usize) -> (r: bool)
    requires
        i + pattern@.len() <= line@.len(),
    ensures
        r == match_at(line@, pattern@, i as int),
{
    let plen = pattern.len();
    let llen = line.len();
    let mut j: usize = 0;
    while j < plen
        invariant
            plen == pattern@.len(),
            llen == line@.len(),
            i + plen <= llen,
            j <= plen,
            forall|q: int| 0 <= q < j ==> line@[i + q] == pattern@[q],
        decreases plen - j,
    {
        if line[i + j] != pattern[j] {
            assert(!match_at(line@, pattern@, i as int));
            return false;
        }
        j = j + 1;
    }
    true
}

/// Whether one line holds the pattern as a literal substring.
///
/// This is the match test of the line scanner: exact, case-sensitive,
/// unanchored; a line is either a match or not, however often the
/// pattern occurs within it.
pub fn line_contains(line: &Vec<u8>, pattern: &Vec<u8>) -> (r: bool)
    ensures
        r == contains_pattern(line@, pattern@),
{
    let plen = pattern.len();
    let llen = line.len();
    if plen == 0 {
        assert(match_at(line@, pattern@, 0));
        return true;
    }
    if plen > llen {
        assert(forall|i: int| !match_at(line@, pattern@, i));
        return false;
    }
    let last_start = llen - plen;
    let mut i: usize = 0;
    while i <= last_start
        invariant
            plen == pattern@.len(),
            llen == line@.len(),
            1 <= plen <= llen,
            last_start == llen - plen,
            i <= last_start + 1,
            forall|k: int| 0 <= k < i ==> !match_at(line@, pattern@, k),
        decreases last_start + 1 - i,
    {
        if window_matches(line, pattern, i) {
            return true;
        }
        i = i + 1;
    }
    assert forall|k: int| !match_at(line@, pattern@, k) by {
        if 0 <= k && k + pattern@.len() <= line@.len() {
            assert(k < i);
        }
    }
    false
}

} // verus!
