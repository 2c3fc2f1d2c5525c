//! Splitting a text into lines.
//!
//! A line ends at a newline character; the final line needs no newline.
//! A carriage return standing directly before the newline belongs to the
//! line ending and is not part of the line.  A text that ends with a
//! newline has no empty final line, and the empty text has no lines.

use vstd::prelude::*;
use vstd::string::*;

verus! {

/// Position of the first newline at or after `i`, or the length of `s`
/// when no newline follows.
pub open spec fn next_newline(s: Seq<char>, i: int) -> int
    decreases s.len() - i,
{
    if i >= s.len() {
        s.len() as int
    } else if s[i] == '\n' {
        i
    } else {
        next_newline(s, i + 1)
    }
}

/// A line without its trailing carriage return, if it has one.
pub open spec fn strip_cr(l: Seq<char>) -> Seq<char> {
    if l.len() > 0 && l.last() == '\r' {
        l.drop_last()
    } else {
        l
    }
}

pub proof fn lemma_next_newline(s: Seq<char>, i: int)
    requires
        0 <= i <= s.len(),
    ensures
        i <= next_newline(s, i) <= s.len(),
        next_newline(s, i) < s.len() ==> s[next_newline(s, i)] == '\n',
        forall|j: int| i <= j < next_newline(s, i) ==> s[j] != '\n',
    decreases s.len() - i,
{
    if i < s.len() && s[i] != '\n' {
        lemma_next_newline(s, i + 1);
    }
}

/// `next_newline` is determined by what the scan that found `e` saw:
/// no newline strictly before `e`, and a newline (or the end) at `e`.
pub proof fn lemma_next_newline_is(s: Seq<char>, i: int, e: int)
    requires
        0 <= i <= e <= s.len(),
        forall|j: int| i <= j < e ==> s[j] != '\n',
        e == s.len() || s[e] == '\n',
    ensures
        next_newline(s, i) == e,
    decreases e - i,
{
    if i < e {
        lemma_next_newline_is(s, i + 1, e);
    }
}

/// The lines of `s` from position `start` on.
pub open spec fn lines_from(s: Seq<char>, start: int) -> Seq<Seq<char>>
    decreases s.len() - start,
{
    if start < 0 || start >= s.len() {
        Seq::empty()
    } else {
        let e = next_newline(s, start);
        proof {
            lemma_next_newline(s, start);
        }
        if e < s.len() {
            seq![strip_cr(s.subrange(start, e))] + lines_from(s, e + 1)
        } else {
            seq![strip_cr(s.subrange(start, s.len() as int))]
        }
    }
}

/// The lines of the whole text.
pub open spec fn spec_lines(s: Seq<char>) -> Seq<Seq<char>> {
    lines_from(s, 0)
}

/// The lines of `contents`, in order, as slices of `contents`.
pub fn split_lines<'a>(contents: &'a str) -> (r: Vec<&'a str>)
    ensures
        r.deep_view() == spec_lines(contents@),
{
    let n = contents.unicode_len();
    let mut result: Vec<&'a str> = Vec::new();
    let mut pos: usize = 0;
    while pos < n
        invariant
            n == contents@.len(),
            pos <= n,
            result.deep_view() + lines_from(contents@, pos as int) == spec_lines(contents@),
        decreases n - pos,
    {
        let ghost prev_result = result.deep_view();
        let mut e: usize = pos;
        while e < n && contents.get_char(e) != '\n'
            invariant
                n == contents@.len(),
                pos <= e <= n,
                forall|j: int| pos <= j < e ==> contents@[j] != '\n',
            decreases n - e,
        {
            e = e + 1;
        }
        proof {
            lemma_next_newline_is(contents@, pos as int, e as int);
        }
        let line_end = if e > pos && contents.get_char(e - 1) == '\r' {
            e - 1
        } else {
            e
        };
        let line = contents.substring_char(pos, line_end);
        proof {
            let raw = contents@.subrange(pos as int, e as int);
            if e > pos && contents@[e - 1] == '\r' {
                assert(raw.last() == contents@[e - 1]);
                assert(line@ =~= raw.drop_last());
            } else {
                assert(line@ =~= raw);
            }
            assert(line@ == strip_cr(raw));
        }
        result.push(line);
        proof {
            assert(result.deep_view() =~= prev_result + seq![line@]);
        }
        let ghost old_pos = pos as int;
        if e < n {
            pos = e + 1;
            proof {
                assert(lines_from(contents@, old_pos)
                    == seq![line@] + lines_from(contents@, pos as int));
                assert(result.deep_view() + lines_from(contents@, pos as int)
                    =~= prev_result + lines_from(contents@, old_pos));
            }
        } else {
            pos = n;
            proof {
                assert(lines_from(contents@, old_pos) == seq![line@]);
                assert(result.deep_view() + lines_from(contents@, pos as int)
                    =~= prev_result + lines_from(contents@, old_pos));
            }
        }
    }
    proof {
        assert(result.deep_view() =~= spec_lines(contents@));
    }
    result
}

} // verus!
