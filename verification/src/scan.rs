//! Scanning a character sequence while a predicate holds.
//!
//! `scan(s, i, p)` is the first index at or after `i` whose character fails
//! `p` (or the length of `s` if every remaining character passes).  Both the
//! numeric fields of the event protocol (runs of digits) and whitespace
//! tokenization are stated with it.

use vstd::prelude::*;

verus! {

/// The first index `j >= i` with `!p(s[j])`, or `s.len()` if none exists.
pub open spec fn scan(s: Seq<char>, i: int, p: spec_fn(char) -> bool) -> int
    decreases s.len() - i,
{
    if i < 0 || i >= s.len() {
        i
    } else if !p(s[i]) {
        i
    } else {
        scan(s, i + 1, p)
    }
}

/// Every character strictly before the scan's stop passes `p`; the stop
/// itself, when inside the sequence, fails `p`; and the stop stays within
/// `[i, s.len()]`.
pub proof fn lemma_scan_bounds(s: Seq<char>, i: int, p: spec_fn(char) -> bool)
    requires
        0 <= i <= s.len(),
    ensures
        i <= scan(s, i, p) <= s.len(),
        forall|m: int| i <= m < scan(s, i, p) ==> #[trigger] p(s[m]),
        scan(s, i, p) < s.len() ==> !p(s[scan(s, i, p)]),
    decreases s.len() - i,
{
    if i < s.len() && p(s[i]) {
        lemma_scan_bounds(s, i + 1, p);
    }
}

/// A scan stops exactly at `j` when everything in `[i, j)` passes `p` and
/// `j` is the end of the sequence or fails `p`.
pub proof fn lemma_scan_stop(s: Seq<char>, i: int, j: int, p: spec_fn(char) -> bool)
    requires
        0 <= i <= j <= s.len(),
        forall|m: int| i <= m < j ==> #[trigger] p(s[m]),
        j == s.len() || !p(s[j]),
    ensures
        scan(s, i, p) == j,
    decreases j - i,
{
    if i < j {
        lemma_scan_stop(s, i + 1, j, p);
    }
}

} // verus!
