//! Text as a sequence of characters.

use vstd::prelude::*;
use vstd::std_specs::iter::IteratorSpec;

verus! {

broadcast use vstd::string::group_string_axioms;

/// The characters of `s`, in order.
pub fn chars_of(s: &str) -> (out: Vec<char>)
    ensures
        out@ == s@,
{
    let n: usize = s.unicode_len();
    let mut it = s.chars();
    let mut out: Vec<char> = Vec::new();
    while out.len() < n
        invariant
            n == s@.len(),
            out@ + it.remaining() == s@,
        decreases n - out@.len(),
    {
        match it.next() {
            Some(c) => {
                out.push(c);
                assert(out@ + it.remaining() =~= s@);
            },
            None => {
                assert(out@ =~= s@);
            },
        }
    }
    assert(out@ =~= s@);
    out
}

/// Whether `c` is white space, as std's `char::is_whitespace` decides it.
pub uninterp spec fn is_whitespace(c: char) -> bool;

/// `char::is_whitespace`: the answer depends on the character alone, and
/// is the one that `is_whitespace` names.
#[verifier::external_body]
fn is_space(c: char) -> (b: bool)
    ensures
        b == is_whitespace(c),
{
    c.is_whitespace()
}

/// `text` without the white space at its front.
pub open spec fn trim_start(text: Seq<char>) -> Seq<char>
    decreases text.len(),
{
    if text.len() > 0 && is_whitespace(text[0]) {
        trim_start(text.drop_first())
    } else {
        text
    }
}

/// `text` without the white space at its end.
pub open spec fn trim_end(text: Seq<char>) -> Seq<char>
    decreases text.len(),
{
    if text.len() > 0 && is_whitespace(text.last()) {
        trim_end(text.drop_last())
    } else {
        text
    }
}

/// `text` without the white space at either end.
pub open spec fn trim(text: Seq<char>) -> Seq<char> {
    trim_end(trim_start(text))
}

/// The pieces of `text` between occurrences of `sep`, in order. There is
/// one piece more than there are separators, so the empty text has one
/// empty piece, and a separator at the very end is followed by an empty
/// piece.
pub open spec fn split(text: Seq<char>, sep: char) -> Seq<Seq<char>>
    decreases text.len(),
{
    if text.len() == 0 {
        seq![Seq::<char>::empty()]
    } else {
        let before = split(text.drop_last(), sep);
        if text.last() == sep {
            before.push(Seq::<char>::empty())
        } else {
            before.drop_last().push(before.last().push(text.last()))
        }
    }
}

/// The texts that a vector of character vectors holds.
pub open spec fn texts(pieces: Seq<Vec<char>>) -> Seq<Seq<char>> {
    pieces.map_values(|piece: Vec<char>| piece@)
}

/// Computes `trim`.
pub fn trim_chars(text: &Vec<char>) -> (out: Vec<char>)
    ensures
        out@ == trim(text@),
{
    let n: usize = text.len();
    let mut start: usize = 0;
    assert(text@.subrange(0, n as int) =~= text@);
    while start < n && is_space(text[start])
        invariant
            n == text@.len(),
            start <= n,
            trim_start(text@) == trim_start(text@.subrange(start as int, n as int)),
        decreases n - start,
    {
        assert(text@.subrange(start as int, n as int).drop_first() =~= text@.subrange(
            start + 1,
            n as int,
        ));
        start += 1;
    }
    let mut end: usize = n;
    while end > start && is_space(text[end - 1])
        invariant
            n == text@.len(),
            start <= end <= n,
            trim(text@) == trim_end(text@.subrange(start as int, end as int)),
        decreases end - start,
    {
        assert(text@.subrange(start as int, end as int).drop_last() =~= text@.subrange(
            start as int,
            end - 1,
        ));
        end -= 1;
    }
    let mut out: Vec<char> = Vec::new();
    let mut i: usize = start;
    while i < end
        invariant
            start <= i <= end <= text@.len(),
            out@ == text@.subrange(start as int, i as int),
        decreases end - i,
    {
        out.push(text[i]);
        i += 1;
        assert(out@ =~= text@.subrange(start as int, i as int));
    }
    out
}

/// Computes `split`.
pub fn split_chars(text: &Vec<char>, sep: char) -> (out: Vec<Vec<char>>)
    ensures
        texts(out@) == split(text@, sep),
{
    let mut out: Vec<Vec<char>> = Vec::new();
    let mut piece: Vec<char> = Vec::new();
    let mut i: usize = 0;
    assert(text@.take(0) =~= Seq::<char>::empty());
    assert(texts(out@).push(piece@) =~= seq![Seq::<char>::empty()]);
    while i < text.len()
        invariant
            i <= text@.len(),
            texts(out@).push(piece@) == split(text@.take(i as int), sep),
        decreases text@.len() - i,
    {
        let c: char = text[i];
        let ghost before = texts(out@).push(piece@);
        assert(text@.take(i + 1).drop_last() =~= text@.take(i as int));
        assert(text@.take(i + 1).last() == c);
        if c == sep {
            out.push(piece);
            piece = Vec::new();
            assert(texts(out@) =~= before);
            assert(texts(out@).push(piece@) =~= before.push(Seq::<char>::empty()));
        } else {
            piece.push(c);
            assert(texts(out@).push(piece@) =~= before.drop_last().push(before.last().push(c)));
        }
        i += 1;
    }
    assert(text@.take(i as int) =~= text@);
    let ghost before = texts(out@);
    let ghost last = piece@;
    out.push(piece);
    assert(texts(out@) =~= before.push(last));
    out
}

} // verus!
