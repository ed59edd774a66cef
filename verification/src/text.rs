//! Word and line statistics over text.
//!
//! A word is a maximal run of non-whitespace characters; a line is a segment
//! as delimited by `'\n'`, where a trailing newline does not open a final
//! empty segment.  Both counts are zero for empty text.

use vstd::prelude::*;

verus! {

/// Whether `c` has the Unicode `White_Space` property, the class of
/// characters that separates words.
pub open spec fn is_space_char(c: char) -> bool {
    let u = c as u32;
    ||| u == 0x20
    ||| (0x09 <= u && u <= 0x0D)
    ||| u == 0x85
    ||| u == 0xA0
    ||| u == 0x1680
    ||| (0x2000 <= u && u <= 0x200A)
    ||| u == 0x2028
    ||| u == 0x2029
    ||| u == 0x202F
    ||| u == 0x205F
    ||| u == 0x3000
}

/// Whether `c` is a whitespace character in the sense of [`is_space_char`].
pub fn is_space(c: char) -> (r: bool)
    ensures
        r == is_space_char(c),
{
    let u = c as u32;
    u == 0x20 || (0x09 <= u && u <= 0x0D) || u == 0x85 || u == 0xA0 || u == 0x1680 || (0x2000
        <= u && u <= 0x200A) || u == 0x2028 || u == 0x2029 || u == 0x202F || u == 0x205F || u
        == 0x3000
}

/// The number of maximal runs of non-whitespace characters in `s`.
pub open spec fn spec_word_count(s: Seq<char>) -> nat
    decreases s.len(),
{
    if s.len() == 0 {
        0
    } else {
        spec_word_count(s.drop_last()) + if !is_space_char(s.last()) && (s.len() == 1
            || is_space_char(s[s.len() - 2])) {
            1nat
        } else {
            0nat
        }
    }
}

/// The number of `'\n'` characters in `s`.
pub open spec fn spec_newline_count(s: Seq<char>) -> nat
    decreases s.len(),
{
    if s.len() == 0 {
        0
    } else {
        spec_newline_count(s.drop_last()) + if s.last() == '\n' {
            1nat
        } else {
            0nat
        }
    }
}

proof fn lemma_newline_count_le(s: Seq<char>)
    ensures
        spec_newline_count(s) <= s.len(),
    decreases s.len(),
{
    if s.len() > 0 {
        lemma_newline_count_le(s.drop_last());
    }
}

/// The number of line segments in `s`: each `'\n'` closes a segment, and a
/// final segment not closed by `'\n'` still counts.  Empty text has none.
pub open spec fn spec_line_count(s: Seq<char>) -> nat {
    if s.len() == 0 {
        0
    } else {
        spec_newline_count(s) + if s.last() == '\n' {
            0nat
        } else {
            1nat
        }
    }
}

/// Counts the maximal runs of non-whitespace characters in `s`.
pub fn word_count(s: &str) -> (n: usize)
    ensures
        n == spec_word_count(s@),
{
    let total = s.unicode_len();
    let mut n: usize = 0;
    let mut prev_space = true;
    for c in it: s.chars()
        invariant
            it.seq() == s@,
            s@.len() == total,
            n == spec_word_count(s@.take(it.index())),
            n <= it.index(),
            prev_space == (it.index() == 0 || is_space_char(s@[it.index() - 1])),
    {
        proof {
            let i = it.index();
            assert(s@.take(i + 1).drop_last() =~= s@.take(i));
            assert(s@.take(i + 1).last() == s@[i]);
        }
        if !is_space(c) && prev_space {
            n += 1;
        }
        prev_space = is_space(c);
    }
    proof {
        assert(s@.take(s@.len() as int) =~= s@);
    }
    n
}

/// Counts the line segments of `s`.
pub fn line_count(s: &str) -> (n: usize)
    ensures
        n == spec_line_count(s@),
{
    let total = s.unicode_len();
    let mut newlines: usize = 0;
    let mut last_is_newline = false;
    for c in it: s.chars()
        invariant
            it.seq() == s@,
            s@.len() == total,
            newlines == spec_newline_count(s@.take(it.index())),
            newlines <= it.index(),
            it.index() > 0 ==> last_is_newline == (s@[it.index() - 1] == '\n'),
    {
        proof {
            let i = it.index();
            assert(s@.take(i + 1).drop_last() =~= s@.take(i));
            assert(s@.take(i + 1).last() == s@[i]);
        }
        if c == '\n' {
            newlines += 1;
            last_is_newline = true;
        } else {
            last_is_newline = false;
        }
    }
    proof {
        assert(s@.take(s@.len() as int) =~= s@);
    }
    if total == 0 {
        0
    } else if last_is_newline {
        newlines
    } else {
        proof {
            lemma_newline_count_le(s@.drop_last());
        }
        newlines + 1
    }
}

} // verus!
