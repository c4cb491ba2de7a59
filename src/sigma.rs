//! The Final_Sigma rule: whether a capital sigma ends a word, decided from
//! the scalar values of the input text around it.
use crate::unicode::{case_ignorable, cased, is_case_ignorable, is_cased};
use vstd::prelude::*;

verus! {

/// Scanning backwards from just before index `i` of `s` over case-ignorable
/// values, the first other value exists and is cased.
pub open spec fn cased_before(s: Seq<char>, i: int) -> bool
    decreases i,
{
    if i <= 0 || i > s.len() {
        false
    } else if is_case_ignorable(s[i - 1]) {
        cased_before(s, i - 1)
    } else {
        is_cased(s[i - 1])
    }
}

/// Scanning forwards from index `i` of `s` over case-ignorable values, the
/// first other value exists and is cased.
pub open spec fn cased_after(s: Seq<char>, i: int) -> bool
    decreases s.len() - i,
{
    if i < 0 || i >= s.len() {
        false
    } else if is_case_ignorable(s[i]) {
        cased_after(s, i + 1)
    } else {
        is_cased(s[i])
    }
}

/// The value at index `i` of `s` stands at the end of a word: a cased value
/// precedes it and none follows it, case-ignorable values skipped.
pub open spec fn is_final_sigma(s: Seq<char>, i: int) -> bool {
    cased_before(s, i) && !cased_after(s, i + 1)
}

/// `s` consists of the ASCII bytes `head[0..n]`, one scalar value each,
/// followed by the values of `tail`.
pub open spec fn split_text(s: Seq<char>, head: Seq<u8>, n: int, tail: Seq<char>) -> bool {
    &&& 0 <= n <= head.len()
    &&& s.len() == n + tail.len()
    &&& forall|j: int| 0 <= j < n ==> #[trigger] s[j] == (head[j] as char)
    &&& forall|k: int| 0 <= k < tail.len() ==> #[trigger] s[n + k] == tail[k]
}

/// Decides [`cased_before`] at tail index `k`: scans `tail` backwards, then
/// the ASCII head.
pub(crate) fn scan_cased_before(head: &[u8], n: usize, tail: &Vec<char>, k: usize, Ghost(s): Ghost<Seq<char>>) -> (r: bool)
    requires
        split_text(s, head@, n as int, tail@),
        k <= tail@.len(),
    ensures
        r == cased_before(s, n + k),
{
    let mut j: usize = k;
    while j > 0
        invariant
            split_text(s, head@, n as int, tail@),
            j <= k <= tail@.len(),
            cased_before(s, n + j) == cased_before(s, n + k),
        decreases j,
    {
        let c = tail[j - 1];
        assert(s[n + (j - 1)] == c);
        if !case_ignorable(c) {
            return cased(c);
        }
        j = j - 1;
    }
    let mut j: usize = n;
    while j > 0
        invariant
            split_text(s, head@, n as int, tail@),
            j <= n,
            cased_before(s, j as int) == cased_before(s, n + k),
        decreases j,
    {
        let c = head[j - 1] as char;
        assert(s[j - 1] == c);
        if !case_ignorable(c) {
            return cased(c);
        }
        j = j - 1;
    }
    false
}

/// Decides [`cased_after`] just past tail index `k`.
pub(crate) fn scan_cased_after(head: &[u8], n: usize, tail: &Vec<char>, k: usize, Ghost(s): Ghost<Seq<char>>) -> (r: bool)
    requires
        split_text(s, head@, n as int, tail@),
        k < tail@.len(),
    ensures
        r == cased_after(s, n + k + 1),
{
    let len = tail.len();
    let mut j: usize = k + 1;
    while j < len
        invariant
            len == tail@.len(),
            split_text(s, head@, n as int, tail@),
            k < j <= tail@.len(),
            cased_after(s, n + j) == cased_after(s, n + k + 1),
        decreases tail@.len() - j,
    {
        let c = tail[j];
        assert(s[n + j] == c);
        if !case_ignorable(c) {
            return cased(c);
        }
        j = j + 1;
    }
    false
}

/// Greek capital letter sigma.
pub const CAPITAL_SIGMA: char = '\u{3a3}';

/// Greek small letter sigma.
pub const SMALL_SIGMA: char = '\u{3c3}';

/// Greek small letter final sigma.
pub const SMALL_FINAL_SIGMA: char = '\u{3c2}';

/// The lowercase form of a capital sigma, given whether a cased value
/// precedes it and whether one follows it, case-ignorable values skipped:
/// the final form exactly when one precedes and none follows.
pub fn sigma_form(cased_before: bool, cased_after: bool) -> (r: char)
    ensures
        r == (if cased_before && !cased_after {
            SMALL_FINAL_SIGMA
        } else {
            SMALL_SIGMA
        }),
{
    if cased_before && !cased_after {
        SMALL_FINAL_SIGMA
    } else {
        SMALL_SIGMA
    }
}

} // verus!
