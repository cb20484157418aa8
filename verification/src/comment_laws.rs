//! What holds of comment stripping on every text.

use vstd::prelude::*;
use crate::comments::{
    block_comment_at, closed_comment_at, closes_block, comment_free, lemma_strip_last,
    lemma_strip_lines_last, lemma_strip_step, line_ends_at, next_block, next_line_comment,
    opens_block, opens_line, pair_at, strip, strip_from, strip_line_comments, strip_lines_from,
    unclosed_comment_at,
};

verus! {

/// Among the closers at `from` or later there is a first one, as soon as
/// there is one at all.
proof fn lemma_first_closer(text: Seq<char>, from: int, at: int) -> (first: int)
    requires
        from <= at,
        closes_block(text, at),
    ensures
        from <= first <= at,
        closes_block(text, first),
        forall|k: int| from <= k < first ==> !closes_block(text, k),
    decreases at - from,
{
    if closes_block(text, from) {
        from
    } else {
        lemma_first_closer(text, from + 1, at)
    }
}

/// Every `/*` opens a block comment: one that ends with the first `*/` behind
/// it, or one that runs to the end of the text.
pub proof fn lemma_opener_opens_comment(text: Seq<char>, start: int)
    requires
        opens_block(text, start),
    ensures
        exists|end: int| block_comment_at(text, start, end),
{
    let behind = start + 2;
    if exists|k: int| behind <= k && closes_block(text, k) {
        let k = choose|k: int| behind <= k && closes_block(text, k);
        let first = lemma_first_closer(text, behind, k);
        assert(closed_comment_at(text, start, first + 2));
        assert(block_comment_at(text, start, first + 2));
    } else {
        assert(unclosed_comment_at(text, start, text.len() as int));
        assert(block_comment_at(text, start, text.len() as int));
    }
}

/// Among the block comments that start at `from` or later there is a
/// leftmost one, as soon as `/*` stands anywhere at or after `from`.
pub proof fn lemma_leftmost_block(text: Seq<char>, from: int, at: int)
    requires
        from <= at,
        opens_block(text, at),
    ensures
        exists|s: int, e: int| next_block(text, from, s, e),
    decreases at - from,
{
    if opens_block(text, from) {
        lemma_opener_opens_comment(text, from);
        let e = choose|e: int| block_comment_at(text, from, e);
        assert(next_block(text, from, from, e));
    } else {
        let next = from + 1;
        lemma_leftmost_block(text, next, at);
        let (s, e) = choose|s: int, e: int| next_block(text, next, s, e);
        assert(next_block(text, from, s, e));
    }
}

/// Every position has a line end at or after it: the next line feed, or the
/// end of the text.
pub proof fn lemma_line_end_exists(text: Seq<char>, from: int)
    requires
        0 <= from <= text.len(),
    ensures
        exists|end: int| line_ends_at(text, from, end),
    decreases text.len() - from,
{
    if from == text.len() || text[from] == '\n' {
        assert(line_ends_at(text, from, from));
    } else {
        let next = from + 1;
        lemma_line_end_exists(text, next);
        let end = choose|end: int| line_ends_at(text, next, end);
        assert(line_ends_at(text, from, end));
    }
}

/// Among the line comments that start at `from` or later there is a leftmost
/// one, as soon as `//` stands anywhere at or after `from`.
pub proof fn lemma_leftmost_line_comment(text: Seq<char>, from: int, at: int)
    requires
        from <= at,
        opens_line(text, at),
    ensures
        exists|s: int, e: int| next_line_comment(text, from, s, e),
    decreases at - from,
{
    if opens_line(text, from) {
        lemma_line_end_exists(text, from);
        let end = choose|end: int| line_ends_at(text, from, end);
        assert(next_line_comment(text, from, from, end));
    } else {
        let next = from + 1;
        lemma_leftmost_line_comment(text, next, at);
        let (s, e) = choose|s: int, e: int| next_line_comment(text, next, s, e);
        assert(next_line_comment(text, from, s, e));
    }
}

/// Removing line comments never makes the text longer, and makes it shorter
/// where there is one to remove.
pub proof fn lemma_strip_lines_len(text: Seq<char>, from: int)
    requires
        0 <= from <= text.len(),
    ensures
        strip_lines_from(text, from).len() <= text.len() - from,
        (exists|s: int, e: int| next_line_comment(text, from, s, e)) ==> strip_lines_from(
            text,
            from,
        ).len() < text.len() - from,
    decreases text.len() - from,
{
    if exists|s: int, e: int| next_line_comment(text, from, s, e) {
        let (s, e) = choose|s: int, e: int| next_line_comment(text, from, s, e);
        lemma_strip_lines_len(text, e);
    }
}

/// Stripping never makes the text longer, and makes it shorter where a block
/// comment starts at `from` or later.
pub proof fn lemma_strip_from_len(text: Seq<char>, from: int)
    requires
        0 <= from <= text.len(),
    ensures
        strip_from(text, from).len() <= text.len() - from,
        (exists|s: int, e: int| next_block(text, from, s, e)) ==> strip_from(text, from).len()
            < text.len() - from,
    decreases text.len() - from,
{
    if exists|s: int, e: int| next_block(text, from, s, e) {
        let (s, e) = choose|s: int, e: int| next_block(text, from, s, e);
        lemma_strip_lines_len(text.subrange(from, s), 0);
        lemma_strip_from_len(text, e);
    } else {
        lemma_strip_lines_len(text.subrange(from, text.len() as int), 0);
    }
}

/// The stripped text is never longer than the text.
pub proof fn lemma_strip_len(text: Seq<char>)
    ensures
        strip(text).len() <= text.len(),
{
    lemma_strip_from_len(text, 0);
}

/// Text without comments is left as it is.
pub proof fn lemma_strip_comment_free(text: Seq<char>)
    requires
        comment_free(text),
    ensures
        strip(text) == text,
{
    assert forall|s: int, e: int| !next_block(text, 0, s, e) by {
        if next_block(text, 0, s, e) {
            assert(opens_block(text, s));
        }
    }
    lemma_strip_last(text, 0);
    assert(text.subrange(0, text.len() as int) =~= text);
    lemma_strip_lines_last(text, 0);
}

/// Text that holds a comment gets shorter.
pub proof fn lemma_strip_shrinks(text: Seq<char>)
    requires
        !comment_free(text),
    ensures
        strip(text).len() < text.len(),
{
    if exists|i: int| opens_block(text, i) {
        let i = choose|i: int| opens_block(text, i);
        lemma_leftmost_block(text, 0, i);
        lemma_strip_from_len(text, 0);
    } else {
        let i = choose|i: int| opens_line(text, i);
        assert forall|s: int, e: int| !next_block(text, 0, s, e) by {
            if next_block(text, 0, s, e) {
                assert(opens_block(text, s));
            }
        }
        lemma_strip_last(text, 0);
        assert(text.subrange(0, text.len() as int) =~= text);
        lemma_leftmost_line_comment(text, 0, i);
        lemma_strip_lines_len(text, 0);
    }
}

/// Stripping the stripped text changes nothing exactly where the stripped
/// text holds no comment. It can hold one: removing a block comment may bring
/// a `/` to stand before a `/` or a `*`.
pub proof fn lemma_strip_twice(text: Seq<char>)
    ensures
        strip(strip(text)) == strip(text) <==> comment_free(strip(text)),
{
    if comment_free(strip(text)) {
        lemma_strip_comment_free(strip(text));
    } else {
        lemma_strip_shrinks(strip(text));
    }
}

/// Stripping is idempotent wherever the stripped text holds no comment.
pub proof fn lemma_strip_idempotent(text: Seq<char>)
    requires
        comment_free(strip(text)),
    ensures
        strip(strip(text)) == strip(text),
{
    lemma_strip_twice(text);
}

/// Where the character at position `p` of the line-stripped rest of `text`
/// from `from` on stood in `text`.
pub open spec fn origin(text: Seq<char>, from: int, p: int) -> int
    decreases text.len() - from,
{
    if exists|s: int, e: int| next_line_comment(text, from, s, e) {
        let (s, e) = choose|s: int, e: int| next_line_comment(text, from, s, e);
        if p < s - from {
            from + p
        } else {
            origin(text, e, p - (s - from))
        }
    } else {
        from + p
    }
}

/// A character that is kept stood in the text at its origin, where no `//`
/// stands; and the character kept after it stood directly behind it, or is a
/// line feed from further on.
proof fn lemma_origin(text: Seq<char>, from: int, p: int)
    requires
        0 <= from <= text.len(),
        0 <= p < strip_lines_from(text, from).len(),
    ensures
        from + p <= origin(text, from, p) < text.len(),
        strip_lines_from(text, from)[p] == text[origin(text, from, p)],
        !opens_line(text, origin(text, from, p)),
        p + 1 < strip_lines_from(text, from).len() ==> {
            ||| origin(text, from, p + 1) == origin(text, from, p) + 1
            ||| (origin(text, from, p + 1) > origin(text, from, p) && text[origin(
                text,
                from,
                p + 1,
            )] == '\n')
        },
    decreases text.len() - from,
{
    if exists|s: int, e: int| next_line_comment(text, from, s, e) {
        let (s, e) = choose|s: int, e: int| next_line_comment(text, from, s, e);
        let kept = s - from;
        lemma_strip_lines_len(text, e);
        if p < kept {
            if p + 1 == kept && p + 1 < strip_lines_from(text, from).len() {
                lemma_origin(text, e, 0);
                assert(text[e] == '\n');
                assert(origin(text, e, 0) == e);
            }
        } else {
            lemma_origin(text, e, p - kept);
        }
    } else {
        assert(!opens_line(text, from + p)) by {
            if opens_line(text, from + p) {
                lemma_leftmost_line_comment(text, from, from + p);
            }
        }
    }
}

/// Removing line comments from a text without `/*` leaves no comment
/// behind: a line comment ends before a line feed or at the end of the text,
/// so its removal brings no `/` to stand before a `/` or a `*`.
pub proof fn lemma_line_stripped_is_comment_free(text: Seq<char>)
    requires
        forall|i: int| !opens_block(text, i),
    ensures
        strip(text) == strip_line_comments(text),
        comment_free(strip(text)),
{
    assert forall|s: int, e: int| !next_block(text, 0, s, e) by {
        if next_block(text, 0, s, e) {
            assert(opens_block(text, s));
        }
    }
    lemma_strip_last(text, 0);
    assert(text.subrange(0, text.len() as int) =~= text);
    let out = strip_lines_from(text, 0);
    assert forall|p: int| !opens_line(out, p) by {
        if opens_line(out, p) {
            lemma_origin(text, 0, p);
            lemma_origin(text, 0, p + 1);
            assert(opens_line(text, origin(text, 0, p)));
        }
    }
    assert forall|p: int| !opens_block(out, p) by {
        if opens_block(out, p) {
            lemma_origin(text, 0, p);
            lemma_origin(text, 0, p + 1);
            assert(opens_block(text, origin(text, 0, p)));
        }
    }
}

/// Stripping is idempotent on every text that holds no block comment.
pub proof fn lemma_strip_idempotent_without_blocks(text: Seq<char>)
    requires
        forall|i: int| !opens_block(text, i),
    ensures
        strip(strip(text)) == strip(text),
{
    lemma_line_stripped_is_comment_free(text);
    lemma_strip_twice(text);
}

/// A pair of characters stands in `b` where it stands in `a + b`, moved by
/// the length of `a`.
proof fn lemma_pair_shift(a: Seq<char>, b: Seq<char>, k: int, x: char, y: char)
    requires
        k >= 0,
    ensures
        pair_at(a + b, a.len() + k, x, y) == pair_at(b, k, x, y),
{
}

proof fn lemma_block_comment_shift(a: Seq<char>, b: Seq<char>, s: int, e: int)
    requires
        s >= 0,
    ensures
        closed_comment_at(a + b, a.len() + s, a.len() + e) == closed_comment_at(b, s, e),
        unclosed_comment_at(a + b, a.len() + s, a.len() + e) == unclosed_comment_at(b, s, e),
        block_comment_at(a + b, a.len() + s, a.len() + e) == block_comment_at(b, s, e),
{
    let w = a + b;
    let l = a.len() as int;
    lemma_pair_shift(a, b, s, '/', '*');
    if e - 2 >= 0 {
        lemma_pair_shift(a, b, e - 2, '*', '/');
    }
    if closed_comment_at(b, s, e) {
        assert forall|k: int| l + s + 2 <= k < l + e - 2 implies !closes_block(w, k) by {
            lemma_pair_shift(a, b, k - l, '*', '/');
            assert(!closes_block(b, k - l));
        }
    }
    if closed_comment_at(w, l + s, l + e) {
        assert forall|k: int| s + 2 <= k < e - 2 implies !closes_block(b, k) by {
            lemma_pair_shift(a, b, k, '*', '/');
            assert(!closes_block(w, l + k));
        }
    }
    if unclosed_comment_at(b, s, e) {
        assert forall|k: int| l + s + 2 <= k implies !closes_block(w, k) by {
            lemma_pair_shift(a, b, k - l, '*', '/');
            assert(!closes_block(b, k - l));
        }
    }
    if unclosed_comment_at(w, l + s, l + e) {
        assert forall|k: int| s + 2 <= k implies !closes_block(b, k) by {
            lemma_pair_shift(a, b, k, '*', '/');
            assert(!closes_block(w, l + k));
        }
    }
}

proof fn lemma_next_block_shift(a: Seq<char>, b: Seq<char>, from: int, s: int, e: int)
    requires
        from >= 0,
    ensures
        next_block(a + b, a.len() + from, a.len() + s, a.len() + e) == next_block(b, from, s, e),
{
    let w = a + b;
    let l = a.len() as int;
    if s >= from {
        lemma_block_comment_shift(a, b, s, e);
        if next_block(b, from, s, e) {
            assert forall|k: int| l + from <= k < l + s implies !opens_block(w, k) by {
                lemma_pair_shift(a, b, k - l, '/', '*');
                assert(!opens_block(b, k - l));
            }
        }
        if next_block(w, l + from, l + s, l + e) {
            assert forall|k: int| from <= k < s implies !opens_block(b, k) by {
                lemma_pair_shift(a, b, k, '/', '*');
                assert(!opens_block(w, l + k));
            }
        }
    }
}

/// Stripping the end of a text does not look at what stands before it:
/// from a position where no block comment is open, `a + b` is stripped as
/// `b` is.
pub proof fn lemma_strip_from_shift(a: Seq<char>, b: Seq<char>, from: int)
    requires
        0 <= from <= b.len(),
    ensures
        strip_from(a + b, a.len() + from) == strip_from(b, from),
    decreases b.len() - from,
{
    let w = a + b;
    let l = a.len() as int;
    if exists|s: int, e: int| next_block(b, from, s, e) {
        let (s, e) = choose|s: int, e: int| next_block(b, from, s, e);
        lemma_next_block_shift(a, b, from, s, e);
        lemma_strip_step(b, from, s, e);
        lemma_strip_step(w, l + from, l + s, l + e);
        assert(w.subrange(l + from, l + s) =~= b.subrange(from, s));
        lemma_strip_from_shift(a, b, e);
    } else {
        let moved = l + from;
        assert forall|s: int, e: int| !next_block(w, moved, s, e) by {
            lemma_next_block_shift(a, b, from, s - l, e - l);
        }
        lemma_strip_last(w, moved);
        lemma_strip_last(b, from);
        assert(w.subrange(l + from, w.len() as int) =~= b.subrange(from, b.len() as int));
    }
}

/// A block comment goes as a whole, and nothing inside it is looked at: a
/// `//` between its `/*` and `*/` removes nothing of what follows. With no
/// `/*` in `before`, the text `before + comment + after` is stripped to the
/// line-stripped `before` followed by the stripped `after`.
pub proof fn lemma_strip_block_comment(before: Seq<char>, comment: Seq<char>, after: Seq<char>)
    requires
        forall|i: int| !opens_block(before, i),
        closed_comment_at(comment, 0, comment.len() as int),
    ensures
        strip(before + comment + after) == strip_line_comments(before) + strip(after),
{
    let w = before + comment + after;
    let l = before.len() as int;
    let b = comment.len() as int;
    let tail = comment + after;
    assert(w =~= before + tail);
    assert(closed_comment_at(tail, 0, b)) by {
        assert forall|k: int| 2 <= k < b - 2 implies !closes_block(tail, k) by {
            assert(!closes_block(comment, k));
        }
    }
    lemma_block_comment_shift(before, tail, 0, b);
    assert forall|k: int| 0 <= k < l implies !opens_block(w, k) by {
        assert(!opens_block(before, k));
    }
    assert(next_block(w, 0, l, l + b));
    lemma_strip_step(w, 0, l, l + b);
    assert(w.subrange(0, l) =~= before);
    lemma_strip_from_shift(before + comment, after, 0);
}

/// A block comment that is never closed takes all that follows it: with no
/// `/*` in `before`, and `rest` opening with a `/*` that no `*/` closes, the
/// text `before + rest` is stripped to the line-stripped `before`.
pub proof fn lemma_strip_unclosed_comment(before: Seq<char>, rest: Seq<char>)
    requires
        forall|i: int| !opens_block(before, i),
        unclosed_comment_at(rest, 0, rest.len() as int),
    ensures
        strip(before + rest) == strip_line_comments(before),
{
    let w = before + rest;
    let l = before.len() as int;
    lemma_block_comment_shift(before, rest, 0, rest.len() as int);
    assert forall|k: int| 0 <= k < l implies !opens_block(w, k) by {
        assert(!opens_block(before, k));
    }
    assert(next_block(w, 0, l, w.len() as int));
    lemma_strip_step(w, 0, l, w.len() as int);
    assert(w.subrange(0, l) =~= before);
    assert forall|s: int, e: int| !next_block(w, w.len() as int, s, e) by {
        if next_block(w, w.len() as int, s, e) {
            assert(opens_block(w, s));
        }
    }
    lemma_strip_last(w, w.len() as int);
    assert(w.subrange(w.len() as int, w.len() as int) =~= Seq::<char>::empty());
    assert forall|s: int, e: int| !next_line_comment(Seq::<char>::empty(), 0, s, e) by {
        if next_line_comment(Seq::<char>::empty(), 0, s, e) {
            assert(opens_line(Seq::<char>::empty(), s));
        }
    }
    assert(strip_line_comments(Seq::<char>::empty()) =~= Seq::<char>::empty());
}

} // verus!
