//! Properties of the line filters, stated and proved once and for all.

use vstd::prelude::*;
use crate::lines::spec_lines;
use crate::matching::contains_at;
use crate::matching::has_match;
use crate::search::ci_filter_matching;
use crate::search::ci_matching_lines;
use crate::search::filter_matching;
use crate::search::lower_of;
use crate::search::matching_lines;

verus! {

/// The elements of `a` appear in `b`, in the same order.
pub open spec fn subsequence_of(a: Seq<Seq<char>>, b: Seq<Seq<char>>) -> bool
    decreases a.len() + b.len(),
{
    if a.len() == 0 {
        true
    } else if b.len() == 0 {
        false
    } else if a.last() == b.last() {
        subsequence_of(a.drop_last(), b.drop_last())
    } else {
        subsequence_of(a, b.drop_last())
    }
}

/// Every line that the exact filter keeps contains the pattern and stands
/// in the filtered sequence of lines.
proof fn lemma_filter_matching_sound(ls: Seq<Seq<char>>, pat: Seq<char>)
    ensures
        forall|i: int| 0 <= i < filter_matching(ls, pat).len() ==> has_match(
            #[trigger] filter_matching(ls, pat)[i],
            pat,
        ) && ls.contains(filter_matching(ls, pat)[i]),
    decreases ls.len(),
{
    if ls.len() > 0 {
        let dl = ls.drop_last();
        lemma_filter_matching_sound(dl, pat);
        assert forall|j: int| 0 <= j < dl.len() implies ls.contains(dl[j]) by {
            assert(ls[j] == dl[j]);
        }
        let r = filter_matching(ls, pat);
        let rr = filter_matching(dl, pat);
        assert forall|i: int| 0 <= i < r.len() implies has_match(#[trigger] r[i], pat)
            && ls.contains(r[i]) by {
            if has_match(ls.last(), pat) {
                if i < rr.len() {
                    assert(r[i] == rr[i]);
                } else {
                    assert(r[i] == ls.last());
                    assert(ls.contains(ls.last()));
                }
            } else {
                assert(r[i] == rr[i]);
            }
        }
    }
}

/// Every line of `ls` that contains the pattern appears in the exact
/// filter's result.
proof fn lemma_filter_matching_complete(ls: Seq<Seq<char>>, pat: Seq<char>)
    ensures
        forall|i: int| 0 <= i < ls.len() && has_match(#[trigger] ls[i], pat) ==> filter_matching(
            ls,
            pat,
        ).contains(ls[i]),
    decreases ls.len(),
{
    if ls.len() > 0 {
        let dl = ls.drop_last();
        lemma_filter_matching_complete(dl, pat);
        let r = filter_matching(ls, pat);
        let rr = filter_matching(dl, pat);
        assert forall|i: int| 0 <= i < ls.len() && has_match(#[trigger] ls[i], pat) implies r
            .contains(ls[i]) by {
            if i < ls.len() - 1 {
                assert(dl[i] == ls[i]);
                assert(rr.contains(ls[i]));
                let w = choose|w: int| 0 <= w < rr.len() && rr[w] == ls[i];
                assert(r[w] == rr[w]);
            } else {
                assert(ls[i] == ls.last());
                assert(r[r.len() - 1] == ls.last());
            }
        }
    }
}

/// A line the exact filter keeps comes from `ls` and contains the pattern.
proof fn lemma_filter_matching_member(ls: Seq<Seq<char>>, pat: Seq<char>, l: Seq<char>)
    requires
        filter_matching(ls, pat).contains(l),
    ensures
        ls.contains(l),
        has_match(l, pat),
{
    lemma_filter_matching_sound(ls, pat);
    let i = choose|i: int|
        0 <= i < filter_matching(ls, pat).len() && filter_matching(ls, pat)[i] == l;
    assert(has_match(filter_matching(ls, pat)[i], pat));
}

/// Every line of `ls` whose lowercased text contains the lowercased
/// pattern appears in the case-insensitive filter's result.
proof fn lemma_ci_filter_matching_complete(ls: Seq<Seq<char>>, pat: Seq<char>)
    ensures
        forall|i: int| 0 <= i < ls.len() && has_match(
            lower_of(#[trigger] ls[i]),
            lower_of(pat),
        ) ==> ci_filter_matching(ls, pat).contains(ls[i]),
    decreases ls.len(),
{
    if ls.len() > 0 {
        let dl = ls.drop_last();
        lemma_ci_filter_matching_complete(dl, pat);
        let r = ci_filter_matching(ls, pat);
        let rr = ci_filter_matching(dl, pat);
        assert forall|i: int| 0 <= i < ls.len() && has_match(
            lower_of(#[trigger] ls[i]),
            lower_of(pat),
        ) implies r.contains(ls[i]) by {
            if i < ls.len() - 1 {
                assert(dl[i] == ls[i]);
                assert(rr.contains(ls[i]));
                let w = choose|w: int| 0 <= w < rr.len() && rr[w] == ls[i];
                assert(r[w] == rr[w]);
            } else {
                assert(ls[i] == ls.last());
                assert(r[r.len() - 1] == ls.last());
            }
        }
    }
}

/// The exact filter's result is a subsequence of the lines it was given.
proof fn lemma_filter_matching_subsequence(ls: Seq<Seq<char>>, pat: Seq<char>)
    ensures
        subsequence_of(filter_matching(ls, pat), ls),
    decreases ls.len(),
{
    if ls.len() > 0 {
        let dl = ls.drop_last();
        lemma_filter_matching_subsequence(dl, pat);
        let r = filter_matching(ls, pat);
        let rr = filter_matching(dl, pat);
        if has_match(ls.last(), pat) {
            assert(r == rr.push(ls.last()));
            assert(r.drop_last() =~= rr);
            assert(r.last() == ls.last());
        } else {
            assert(r == rr);
            if r.len() > 0 {
                lemma_filter_matching_sound(dl, pat);
                assert(has_match(r[r.len() - 1], pat));
                assert(r.last() != ls.last());
            }
        }
    }
}

/// The exact filter is sound, complete and order-preserving: every line it
/// returns contains the pattern, every line of the content that contains
/// the pattern is returned, and the returned lines form a subsequence of
/// the content's lines, in their original order.
pub proof fn lemma_exact_filter_correct(content: Seq<char>, pat: Seq<char>)
    ensures
        forall|i: int| 0 <= i < matching_lines(content, pat).len() ==> has_match(
            #[trigger] matching_lines(content, pat)[i],
            pat,
        ),
        forall|i: int| 0 <= i < spec_lines(content).len() && has_match(
            #[trigger] spec_lines(content)[i],
            pat,
        ) ==> matching_lines(content, pat).contains(spec_lines(content)[i]),
        subsequence_of(matching_lines(content, pat), spec_lines(content)),
{
    lemma_filter_matching_sound(spec_lines(content), pat);
    lemma_filter_matching_complete(spec_lines(content), pat);
    lemma_filter_matching_subsequence(spec_lines(content), pat);
}

/// Lowercasing can only add matches, never remove them: every line the
/// exact filter keeps, the case-insensitive filter keeps too.  Stated for
/// patterns and contents on which lowercasing preserves containment, line
/// by line; Unicode lowercasing does not grant that for every character.
pub proof fn lemma_case_insensitive_superset(content: Seq<char>, pat: Seq<char>)
    requires
        forall|i: int| 0 <= i < spec_lines(content).len() && has_match(
            #[trigger] spec_lines(content)[i],
            pat,
        ) ==> has_match(lower_of(spec_lines(content)[i]), lower_of(pat)),
    ensures
        forall|l: Seq<char>| #[trigger] matching_lines(content, pat).contains(l)
            ==> ci_matching_lines(content, pat).contains(l),
{
    let ls = spec_lines(content);
    lemma_ci_filter_matching_complete(ls, pat);
    assert forall|l: Seq<char>| #[trigger] matching_lines(content, pat).contains(l)
        implies ci_matching_lines(content, pat).contains(l) by {
        lemma_filter_matching_member(ls, pat, l);
        let i = choose|i: int| 0 <= i < ls.len() && ls[i] == l;
        assert(has_match(ls[i], pat));
        assert(has_match(lower_of(ls[i]), lower_of(pat)));
    }
}

/// An empty pattern matches every line: the exact filter returns all the
/// lines of the content, unchanged and in order.
pub proof fn lemma_empty_pattern_all_lines(content: Seq<char>)
    ensures
        matching_lines(content, Seq::<char>::empty()) == spec_lines(content),
{
    assert forall|l: Seq<char>| #[trigger] has_match(l, Seq::<char>::empty()) by {
        assert(l.subrange(0, 0) =~= Seq::<char>::empty());
        assert(contains_at(l, Seq::<char>::empty(), 0));
    }
    lemma_filter_matching_all(spec_lines(content), Seq::<char>::empty());
}

/// When every line matches, the exact filter is the identity.
proof fn lemma_filter_matching_all(ls: Seq<Seq<char>>, pat: Seq<char>)
    requires
        forall|i: int| 0 <= i < ls.len() ==> has_match(#[trigger] ls[i], pat),
    ensures
        filter_matching(ls, pat) == ls,
    decreases ls.len(),
{
    if ls.len() > 0 {
        let dl = ls.drop_last();
        assert forall|i: int| 0 <= i < dl.len() implies has_match(#[trigger] dl[i], pat) by {
            assert(dl[i] == ls[i]);
        }
        lemma_filter_matching_all(dl, pat);
        assert(has_match(ls[ls.len() - 1], pat));
        assert(filter_matching(ls, pat) =~= ls);
    }
}

} // verus!
