//! Removal of comments from schema source text.
//!
//! A block comment runs from `/*` to the first `*/` that begins at least two
//! characters later, across line breaks. A block comment that is never closed
//! runs to the end of the text: all that follows its `/*` goes with it. A
//! line comment runs from `//` to the end of its line; the line break itself
//! is not part of it. Block comments are located first, over the whole text.
//! Line comments are then looked for only in the stretches between block
//! comments, each stretch on its own, so that a `//` inside a block comment
//! never counts and a `/*` inside what would be a line comment still opens a
//! block comment.

use vstd::prelude::*;
use vstd::slice::slice_subrange;
use crate::text::{chars_of, string_of};

verus! {

/// The characters `a`, `b` stand at positions `i` and `i + 1` of `text`.
pub open spec fn pair_at(text: Seq<char>, i: int, a: char, b: char) -> bool {
    0 <= i && i + 1 < text.len() && text[i] == a && text[i + 1] == b
}

/// `/*` stands at position `i`.
pub open spec fn opens_block(text: Seq<char>, i: int) -> bool {
    pair_at(text, i, '/', '*')
}

/// `*/` stands at position `i`.
pub open spec fn closes_block(text: Seq<char>, i: int) -> bool {
    pair_at(text, i, '*', '/')
}

/// `//` stands at position `i`.
pub open spec fn opens_line(text: Seq<char>, i: int) -> bool {
    pair_at(text, i, '/', '/')
}

/// The positions `start..end` are a block comment that is closed: `/*` at
/// `start`, and the last two positions hold the first `*/` that begins at
/// `start + 2` or later.
pub open spec fn closed_comment_at(text: Seq<char>, start: int, end: int) -> bool {
    &&& opens_block(text, start)
    &&& start + 2 <= end - 2
    &&& closes_block(text, end - 2)
    &&& forall|k: int| start + 2 <= k < end - 2 ==> !closes_block(text, k)
}

/// The positions `start..end` are a block comment that is never closed: `/*`
/// at `start`, no `*/` begins at `start + 2` or later, and `end` is the end
/// of the text.
pub open spec fn unclosed_comment_at(text: Seq<char>, start: int, end: int) -> bool {
    &&& opens_block(text, start)
    &&& end == text.len()
    &&& forall|k: int| start + 2 <= k ==> !closes_block(text, k)
}

/// The positions `start..end` are a block comment, closed or not.
pub open spec fn block_comment_at(text: Seq<char>, start: int, end: int) -> bool {
    closed_comment_at(text, start, end) || unclosed_comment_at(text, start, end)
}

/// `start..end` is the leftmost block comment that starts at `from` or later:
/// the one that the first `/*` at or after `from` opens.
pub open spec fn next_block(text: Seq<char>, from: int, start: int, end: int) -> bool {
    &&& from <= start
    &&& block_comment_at(text, start, end)
    &&& forall|k: int| from <= k < start ==> !opens_block(text, k)
}

/// The line that position `from` is on ends at `end`: no line feed stands in
/// `from..end`, and `end` holds a line feed or is the end of the text.
pub open spec fn line_ends_at(text: Seq<char>, from: int, end: int) -> bool {
    &&& from <= end <= text.len()
    &&& (end < text.len() ==> text[end] == '\n')
    &&& forall|k: int| from <= k < end ==> text[k] != '\n'
}

/// The positions `start..end` are a line comment: `//` at `start`, and the
/// line ends at `end`.
pub open spec fn line_comment_at(text: Seq<char>, start: int, end: int) -> bool {
    &&& opens_line(text, start)
    &&& line_ends_at(text, start, end)
}

/// `start..end` is the leftmost line comment that starts at `from` or later.
pub open spec fn next_line_comment(text: Seq<char>, from: int, start: int, end: int) -> bool {
    &&& from <= start
    &&& line_comment_at(text, start, end)
    &&& forall|k: int| from <= k < start ==> !opens_line(text, k)
}

/// `text` from position `from` on, without its line comments.
pub open spec fn strip_lines_from(text: Seq<char>, from: int) -> Seq<char>
    decreases text.len() - from,
{
    if exists|s: int, e: int| next_line_comment(text, from, s, e) {
        let (s, e) = choose|s: int, e: int| next_line_comment(text, from, s, e);
        text.subrange(from, s) + strip_lines_from(text, e)
    } else {
        text.subrange(from, text.len() as int)
    }
}

/// `text` without its line comments; block comments are not looked at.
pub open spec fn strip_line_comments(text: Seq<char>) -> Seq<char> {
    strip_lines_from(text, 0)
}

/// `text` from position `from` on, without its block comments and without the
/// line comments of each stretch between them.
pub open spec fn strip_from(text: Seq<char>, from: int) -> Seq<char>
    decreases text.len() - from,
{
    if exists|s: int, e: int| next_block(text, from, s, e) {
        let (s, e) = choose|s: int, e: int| next_block(text, from, s, e);
        strip_line_comments(text.subrange(from, s)) + strip_from(text, e)
    } else {
        strip_line_comments(text.subrange(from, text.len() as int))
    }
}

/// `text` without its comments.
pub open spec fn strip(text: Seq<char>) -> Seq<char> {
    strip_from(text, 0)
}

/// `text` holds no comment of either kind: neither `//` nor `/*` stands
/// anywhere in it.
pub open spec fn comment_free(text: Seq<char>) -> bool {
    &&& forall|i: int| !opens_line(text, i)
    &&& forall|i: int| !opens_block(text, i)
}

/// At most one range is the leftmost block comment from a position.
pub proof fn lemma_next_block_unique(
    text: Seq<char>,
    from: int,
    s1: int,
    e1: int,
    s2: int,
    e2: int,
)
    requires
        next_block(text, from, s1, e1),
        next_block(text, from, s2, e2),
    ensures
        s1 == s2,
        e1 == e2,
{
    assert(opens_block(text, s1));
    assert(opens_block(text, s2));
    assert(s1 == s2);
    if closed_comment_at(text, s1, e1) {
        assert(closes_block(text, e1 - 2));
    }
    if closed_comment_at(text, s2, e2) {
        assert(closes_block(text, e2 - 2));
    }
}

/// At most one range is the leftmost line comment from a position.
pub proof fn lemma_next_line_comment_unique(
    text: Seq<char>,
    from: int,
    s1: int,
    e1: int,
    s2: int,
    e2: int,
)
    requires
        next_line_comment(text, from, s1, e1),
        next_line_comment(text, from, s2, e2),
    ensures
        s1 == s2,
        e1 == e2,
{
}

/// Stripping from `from` skips the leftmost block comment and strips the line
/// comments of the stretch before it.
pub proof fn lemma_strip_step(text: Seq<char>, from: int, s: int, e: int)
    requires
        next_block(text, from, s, e),
    ensures
        strip_from(text, from) == strip_line_comments(text.subrange(from, s)) + strip_from(
            text,
            e,
        ),
{
    let (s2, e2) = choose|s: int, e: int| next_block(text, from, s, e);
    lemma_next_block_unique(text, from, s, e, s2, e2);
}

/// Where no block comment starts at `from` or later, only line comments go.
pub proof fn lemma_strip_last(text: Seq<char>, from: int)
    requires
        forall|s: int, e: int| !next_block(text, from, s, e),
    ensures
        strip_from(text, from) == strip_line_comments(text.subrange(from, text.len() as int)),
{
}

/// Stripping line comments from `from` copies the text up to the leftmost
/// line comment and goes on behind it.
pub proof fn lemma_strip_lines_step(text: Seq<char>, from: int, s: int, e: int)
    requires
        next_line_comment(text, from, s, e),
    ensures
        strip_lines_from(text, from) == text.subrange(from, s) + strip_lines_from(text, e),
{
    let (s2, e2) = choose|s: int, e: int| next_line_comment(text, from, s, e);
    lemma_next_line_comment_unique(text, from, s, e, s2, e2);
}

/// Where no `//` stands at `from` or later, the rest is kept as it is.
pub proof fn lemma_strip_lines_last(text: Seq<char>, from: int)
    requires
        forall|k: int| from <= k ==> !opens_line(text, k),
    ensures
        strip_lines_from(text, from) == text.subrange(from, text.len() as int),
{
}

/// The first position at or after `from` where `a`, `b` stand side by side.
fn find_pair(text: &[char], from: usize, a: char, b: char) -> (r: Option<usize>)
    ensures
        match r {
            Some(i) => {
                &&& from <= i
                &&& pair_at(text@, i as int, a, b)
                &&& forall|k: int| from <= k < i ==> !pair_at(text@, k, a, b)
            },
            None => forall|k: int| from <= k ==> !pair_at(text@, k, a, b),
        },
{
    let n = text.len();
    if n < 2 {
        return None;
    }
    let mut i: usize = from;
    while i < n - 1
        invariant
            n == text.len(),
            n >= 2,
            from <= i,
            forall|k: int| from <= k < i ==> !pair_at(text@, k, a, b),
        decreases n - i,
    {
        if text[i] == a && text[i + 1] == b {
            return Some(i);
        }
        i = i + 1;
    }
    None
}

/// The first position at or after `from` that holds a line feed, or the
/// length of `text` if none does.
pub fn find_line_end(text: &[char], from: usize) -> (end: usize)
    requires
        from <= text.len(),
    ensures
        line_ends_at(text@, from as int, end as int),
{
    let mut i: usize = from;
    while i < text.len() && text[i] != '\n'
        invariant
            from <= i <= text.len(),
            forall|k: int| from <= k < i ==> text@[k] != '\n',
        decreases text.len() - i,
    {
        i = i + 1;
    }
    i
}

/// The leftmost block comment that starts at `from` or later, as the
/// positions of its first character and of the one behind its last.
fn find_block(text: &[char], from: usize) -> (r: Option<(usize, usize)>)
    ensures
        match r {
            Some((s, e)) => next_block(text@, from as int, s as int, e as int) && e <= text.len(),
            None => forall|s: int, e: int| !next_block(text@, from as int, s, e),
        },
{
    let n = text.len();
    match find_pair(text, from, '/', '*') {
        None => None,
        Some(open) => {
            match find_pair(text, open + 2, '*', '/') {
                None => {
                    assert(unclosed_comment_at(text@, open as int, n as int));
                    Some((open, n))
                },
                Some(close) => {
                    assert(closed_comment_at(text@, open as int, close + 2));
                    Some((open, close + 2))
                },
            }
        },
    }
}

/// Appends the characters `lo..hi` of `src` to `out`.
fn push_range(src: &[char], lo: usize, hi: usize, out: &mut Vec<char>)
    requires
        lo <= hi <= src.len(),
    ensures
        final(out)@ == old(out)@ + src@.subrange(lo as int, hi as int),
{
    let mut i: usize = lo;
    while i < hi
        invariant
            lo <= i <= hi <= src.len(),
            out@ == old(out)@ + src@.subrange(lo as int, i as int),
        decreases hi - i,
    {
        out.push(src[i]);
        i = i + 1;
    }
}

/// Appends `gap` without its line comments to `out`.
fn strip_lines_into(gap: &[char], out: &mut Vec<char>)
    ensures
        final(out)@ == old(out)@ + strip_line_comments(gap@),
{
    let n = gap.len();
    let mut from: usize = 0;
    loop
        invariant_except_break
            out@ + strip_lines_from(gap@, from as int) == old(out)@ + strip_line_comments(gap@),
        invariant
            n == gap.len(),
            from <= n,
        ensures
            out@ == old(out)@ + strip_line_comments(gap@),
        decreases n - from,
    {
        match find_pair(gap, from, '/', '/') {
            None => {
                proof {
                    lemma_strip_lines_last(gap@, from as int);
                }
                push_range(gap, from, n, out);
                break ;
            },
            Some(start) => {
                let end = find_line_end(gap, start);
                proof {
                    lemma_strip_lines_step(gap@, from as int, start as int, end as int);
                }
                push_range(gap, from, start, out);
                from = end;
            },
        }
    }
}

/// `text` without its comments, as characters.
fn strip_chars(text: &[char]) -> (out: Vec<char>)
    ensures
        out@ == strip(text@),
{
    let n = text.len();
    let mut out: Vec<char> = Vec::new();
    let mut from: usize = 0;
    loop
        invariant_except_break
            out@ + strip_from(text@, from as int) == strip(text@),
        invariant
            n == text.len(),
            from <= n,
        ensures
            out@ == strip(text@),
        decreases n - from,
    {
        match find_block(text, from) {
            None => {
                proof {
                    lemma_strip_last(text@, from as int);
                }
                strip_lines_into(slice_subrange(text, from, n), &mut out);
                break ;
            },
            Some((start, end)) => {
                proof {
                    lemma_strip_step(text@, from as int, start as int, end as int);
                }
                strip_lines_into(slice_subrange(text, from, start), &mut out);
                from = end;
            },
        }
    }
    out
}

/// Removes every block comment and every line comment from `schema` and
/// leaves all other characters, line breaks included, as they are. A block
/// comment that is never closed is removed up to the end of the text.
pub fn strip_comments(schema: String) -> (out: String)
    ensures
        out@ == strip(schema@),
{
    let text = chars_of(schema.as_str());
    let kept = strip_chars(text.as_slice());
    string_of(&kept)
}

} // verus!
