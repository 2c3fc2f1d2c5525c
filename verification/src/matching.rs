//! Substring containment: whether a pattern occurs contiguously in a text.

use vstd::prelude::*;
use vstd::string::*;

verus! {

/// The pattern occurs in `text` starting exactly at position `i`.
pub open spec fn contains_at(text: Seq<char>, pat: Seq<char>, i: int) -> bool {
    &&& 0 <= i
    &&& i + pat.len() <= text.len()
    &&& text.subrange(i, i + pat.len()) == pat
}

/// The pattern occurs somewhere in `text` as a contiguous run of characters.
/// An empty pattern occurs in every text, at position 0.
pub open spec fn has_match(text: Seq<char>, pat: Seq<char>) -> bool {
    exists|i: int| contains_at(text, pat, i)
}

/// The pattern occurs in `text` at position `offset`, checked character
/// by character.
fn match_at(text: &str, pat: &str, offset: usize) -> (r: bool)
    requires
        offset + pat@.len() <= text@.len(),
    ensures
        r == contains_at(text@, pat@, offset as int),
{
    let n = text.unicode_len();
    let m = pat.unicode_len();
    let mut k: usize = 0;
    while k < m
        invariant
            n == text@.len(),
            m == pat@.len(),
            offset + m <= n,
            k <= m,
            forall|j: int| 0 <= j < k ==> text@[offset + j] == pat@[j],
        decreases m - k,
    {
        let tc = text.get_char(offset + k);
        let pc = pat.get_char(k);
        if tc != pc {
            proof {
                let sub = text@.subrange(offset as int, offset + pat@.len());
                assert(sub[k as int] == text@[offset + k]);
            }
            return false;
        }
        k = k + 1;
    }
    proof {
        assert(text@.subrange(offset as int, offset + pat@.len()) =~= pat@);
    }
    true
}

/// Whether `pat` occurs anywhere in `text`, by trying every start position.
pub fn contains_pattern(text: &str, pat: &str) -> (r: bool)
    ensures
        r == has_match(text@, pat@),
{
    let n = text.unicode_len();
    let m = pat.unicode_len();
    if m > n {
        return false;
    }
    let end = n - m;
    let mut i: usize = 0;
    while i < end
        invariant
            n == text@.len(),
            m == pat@.len(),
            m <= n,
            end == n - m,
            i <= end,
            forall|j: int| 0 <= j < i ==> !contains_at(text@, pat@, j),
        decreases end - i,
    {
        if match_at(text, pat, i) {
            proof {
                assert(contains_at(text@, pat@, i as int));
            }
            return true;
        }
        i = i + 1;
    }
    if match_at(text, pat, end) {
        proof {
            assert(contains_at(text@, pat@, end as int));
        }
        return true;
    }
    proof {
        assert forall|j: int| !contains_at(text@, pat@, j) by {
            if 0 <= j < end {
                assert(!contains_at(text@, pat@, j));
            }
        }
    }
    false
}

} // verus!
