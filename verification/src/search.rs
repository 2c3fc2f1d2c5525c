//! The line filters: exact search and case-insensitive search.

use vstd::prelude::*;
use crate::config::Config;
use crate::lines::spec_lines;
use crate::lines::split_lines;
use crate::matching::contains_pattern;
use crate::matching::has_match;

verus! {

/// What `str::to_lowercase` returns for a given character sequence.
pub uninterp spec fn lower_of(s: Seq<char>) -> Seq<char>;

/// Relies on `str::to_lowercase`: full Unicode lowercasing, whose result
/// depends on the characters of `s` alone.
#[verifier::external_body]
fn lowercase(s: &str) -> (r: String)
    ensures
        r@ == lower_of(s@),
{
    s.to_lowercase()
}

/// The subsequence of `ls` whose lines contain `pat`, in order.
pub open spec fn filter_matching(ls: Seq<Seq<char>>, pat: Seq<char>) -> Seq<Seq<char>>
    decreases ls.len(),
{
    if ls.len() == 0 {
        Seq::empty()
    } else {
        let rest = filter_matching(ls.drop_last(), pat);
        if has_match(ls.last(), pat) {
            rest.push(ls.last())
        } else {
            rest
        }
    }
}

/// The subsequence of `ls` whose lowercased lines contain the lowercased
/// `pat`, in order.  The lines kept are the original ones.
pub open spec fn ci_filter_matching(ls: Seq<Seq<char>>, pat: Seq<char>) -> Seq<Seq<char>>
    decreases ls.len(),
{
    if ls.len() == 0 {
        Seq::empty()
    } else {
        let rest = ci_filter_matching(ls.drop_last(), pat);
        if has_match(lower_of(ls.last()), lower_of(pat)) {
            rest.push(ls.last())
        } else {
            rest
        }
    }
}

/// What the exact search returns: the lines of `content` that contain `pat`.
pub open spec fn matching_lines(content: Seq<char>, pat: Seq<char>) -> Seq<Seq<char>> {
    filter_matching(spec_lines(content), pat)
}

/// What the case-insensitive search returns: the lines of `content` whose
/// lowercased text contains the lowercased `pat`.
pub open spec fn ci_matching_lines(content: Seq<char>, pat: Seq<char>) -> Seq<Seq<char>> {
    ci_filter_matching(spec_lines(content), pat)
}

/// Extending the filtered lines by one line keeps the previous result and
/// appends the new line exactly when it matches.
proof fn lemma_filter_matching_snoc(ls: Seq<Seq<char>>, l: Seq<char>, pat: Seq<char>)
    ensures
        filter_matching(ls.push(l), pat) == if has_match(l, pat) {
            filter_matching(ls, pat).push(l)
        } else {
            filter_matching(ls, pat)
        },
{
    assert(ls.push(l).drop_last() =~= ls);
    assert(ls.push(l).last() == l);
}

/// The case-insensitive analogue of `lemma_filter_matching_snoc`.
proof fn lemma_ci_filter_matching_snoc(ls: Seq<Seq<char>>, l: Seq<char>, pat: Seq<char>)
    ensures
        ci_filter_matching(ls.push(l), pat) == if has_match(lower_of(l), lower_of(pat)) {
            ci_filter_matching(ls, pat).push(l)
        } else {
            ci_filter_matching(ls, pat)
        },
{
    assert(ls.push(l).drop_last() =~= ls);
    assert(ls.push(l).last() == l);
}

/// Every line of the file that contains the pattern, in file order.
pub fn search<'a>(pattern: &str, contents: &'a str) -> (r: Vec<&'a str>)
    ensures
        r.deep_view() == matching_lines(contents@, pattern@),
{
    let ls = split_lines(contents);
    let mut result: Vec<&'a str> = Vec::new();
    let mut i: usize = 0;
    while i < ls.len()
        invariant
            i <= ls.len(),
            ls.deep_view() == spec_lines(contents@),
            result.deep_view() == filter_matching(
                ls.deep_view().subrange(0, i as int),
                pattern@,
            ),
        decreases ls.len() - i,
    {
        let ghost prev = ls.deep_view().subrange(0, i as int);
        let line = ls[i];
        proof {
            assert(line@ == ls.deep_view()[i as int]);
            assert(ls.deep_view().subrange(0, i as int + 1) =~= prev.push(line@));
            lemma_filter_matching_snoc(prev, line@, pattern@);
        }
        if contains_pattern(line, pattern) {
            let ghost prev_result = result.deep_view();
            result.push(line);
            proof {
                assert(result.deep_view() =~= prev_result.push(line@));
            }
        }
        i = i + 1;
    }
    proof {
        assert(ls.deep_view().subrange(0, ls.deep_view().len() as int) =~= ls.deep_view());
    }
    result
}

/// Every line of the file whose lowercased text contains the lowercased
/// pattern, in file order.  The returned lines are the original ones.
pub fn search_case_insensitive<'a>(pattern: &str, contents: &'a str) -> (r: Vec<&'a str>)
    ensures
        r.deep_view() == ci_matching_lines(contents@, pattern@),
{
    let lowered_pattern = lowercase(pattern);
    let ls = split_lines(contents);
    let mut result: Vec<&'a str> = Vec::new();
    let mut i: usize = 0;
    while i < ls.len()
        invariant
            i <= ls.len(),
            ls.deep_view() == spec_lines(contents@),
            lowered_pattern@ == lower_of(pattern@),
            result.deep_view() == ci_filter_matching(
                ls.deep_view().subrange(0, i as int),
                pattern@,
            ),
        decreases ls.len() - i,
    {
        let ghost prev = ls.deep_view().subrange(0, i as int);
        let line = ls[i];
        proof {
            assert(line@ == ls.deep_view()[i as int]);
            assert(ls.deep_view().subrange(0, i as int + 1) =~= prev.push(line@));
            lemma_ci_filter_matching_snoc(prev, line@, pattern@);
        }
        let lowered_line = lowercase(line);
        if contains_pattern(lowered_line.as_str(), lowered_pattern.as_str()) {
            let ghost prev_result = result.deep_view();
            result.push(line);
            proof {
                assert(result.deep_view() =~= prev_result.push(line@));
            }
        }
        i = i + 1;
    }
    proof {
        assert(ls.deep_view().subrange(0, ls.deep_view().len() as int) =~= ls.deep_view());
    }
    result
}

/// The filter variant that the configuration selects, applied to the
/// file's contents: the exact filter when the configuration is
/// case-sensitive, the case-insensitive filter otherwise.
pub fn search_with_config<'a>(config: &Config, contents: &'a str) -> (r: Vec<&'a str>)
    ensures
        config.case_sensitive ==> r.deep_view() == matching_lines(
            contents@,
            config.pattern@,
        ),
        !config.case_sensitive ==> r.deep_view() == ci_matching_lines(
            contents@,
            config.pattern@,
        ),
{
    if config.case_sensitive {
        search(config.pattern.as_str(), contents)
    } else {
        search_case_insensitive(config.pattern.as_str(), contents)
    }
}

} // verus!
