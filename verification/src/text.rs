//! Searching and splitting text, seen as a sequence of characters.
//!
//! The decoded body of a container is not well-formed markup, so it is taken
//! apart with two plain operations: finding the first occurrence of a literal
//! and splitting on a literal delimiter.

use vstd::prelude::*;
use vstd::utf8::*;

verus! {

broadcast use vstd::string::group_string_axioms;

/// The text that `bytes` hold, where they are valid UTF-8.
pub open spec fn text_in(bytes: Seq<u8>) -> Option<Seq<char>> {
    if valid_utf8(bytes) {
        Some(decode_utf8(bytes))
    } else {
        None
    }
}

/// `pattern` stands in `text` at position `at`.
pub open spec fn occurs_at(text: Seq<char>, pattern: Seq<char>, at: int) -> bool {
    &&& 0 <= at
    &&& at + pattern.len() <= text.len()
    &&& text.subrange(at, at + pattern.len()) == pattern
}

/// The least position at or after `from` at which `pattern` stands in `text`.
pub open spec fn first_occurrence(text: Seq<char>, pattern: Seq<char>, from: int) -> Option<int>
    decreases text.len() - from + 1,
{
    if from < 0 || from + pattern.len() > text.len() {
        None
    } else if occurs_at(text, pattern, from) {
        Some(from)
    } else {
        first_occurrence(text, pattern, from + 1)
    }
}

/// The pieces of `text` from position `start` on, cut at each occurrence of
/// `delim`, scanning from the left; occurrences do not overlap.
pub open spec fn pieces_from(text: Seq<char>, delim: Seq<char>, start: int) -> Seq<Seq<char>>
    decreases text.len() - start,
    via pieces_from_terminates
{
    match first_occurrence(text, delim, start) {
        Some(at) if delim.len() > 0 => seq![text.subrange(start, at)] + pieces_from(
            text,
            delim,
            at + delim.len(),
        ),
        _ => seq![text.subrange(start, text.len() as int)],
    }
}

#[via_fn]
proof fn pieces_from_terminates(text: Seq<char>, delim: Seq<char>, start: int) {
    first_occurrence_is_least(text, delim, start);
}

/// `text` split on `delim`: at least one piece, an empty one between two
/// adjacent delimiters and at either end. An empty delimiter splits nothing.
pub open spec fn split_on(text: Seq<char>, delim: Seq<char>) -> Seq<Seq<char>> {
    pieces_from(text, delim, 0)
}

/// What `first_occurrence` finds is an occurrence, and no occurrence at or
/// after `from` comes before it; it finds none only where there is none.
pub proof fn first_occurrence_is_least(text: Seq<char>, pattern: Seq<char>, from: int)
    ensures
        match first_occurrence(text, pattern, from) {
            Some(at) => {
                &&& from <= at
                &&& occurs_at(text, pattern, at)
                &&& forall|j: int| from <= j < at ==> !occurs_at(text, pattern, j)
            },
            None => from < 0 || forall|j: int| from <= j ==> !occurs_at(text, pattern, j),
        },
    decreases text.len() - from + 1,
{
    if from < 0 || from + pattern.len() > text.len() {
    } else if occurs_at(text, pattern, from) {
    } else {
        first_occurrence_is_least(text, pattern, from + 1);
    }
}

/// An occurrence at or after `from` with none between `from` and it is the
/// one that `first_occurrence` finds.
pub proof fn first_occurrence_unique(text: Seq<char>, pattern: Seq<char>, from: int, at: int)
    requires
        0 <= from <= at,
        occurs_at(text, pattern, at),
        forall|j: int| from <= j < at ==> !occurs_at(text, pattern, j),
    ensures
        first_occurrence(text, pattern, from) == Some(at),
    decreases at - from,
{
    if from < at {
        first_occurrence_unique(text, pattern, from + 1, at);
    }
}

/// Text without the delimiter is a single piece.
pub proof fn split_without_delimiter(text: Seq<char>, delim: Seq<char>)
    requires
        first_occurrence(text, delim, 0) is None,
    ensures
        split_on(text, delim) == seq![text],
{
    assert(text.subrange(0, text.len() as int) == text);
}

/// The pieces put together again, with `delim` between each two.
pub open spec fn joined(pieces: Seq<Seq<char>>, delim: Seq<char>) -> Seq<char>
    decreases pieces.len(),
{
    if pieces.len() == 0 {
        Seq::empty()
    } else if pieces.len() == 1 {
        pieces[0]
    } else {
        pieces[0] + delim + joined(pieces.drop_first(), delim)
    }
}

proof fn pieces_from_join(text: Seq<char>, delim: Seq<char>, start: int)
    requires
        0 <= start <= text.len(),
    ensures
        pieces_from(text, delim, start).len() >= 1,
        joined(pieces_from(text, delim, start), delim) == text.skip(start),
    decreases text.len() - start,
{
    first_occurrence_is_least(text, delim, start);
    match first_occurrence(text, delim, start) {
        Some(at) if delim.len() > 0 => {
            let head = text.subrange(start, at);
            let rest = pieces_from(text, delim, at + delim.len());
            pieces_from_join(text, delim, at + delim.len());
            let all = seq![head] + rest;
            assert(all.drop_first() =~= rest);
            assert(head + delim + text.skip(at + delim.len()) =~= text.skip(start));
        },
        _ => {},
    }
}

proof fn pieces_from_hold_no_delimiter(text: Seq<char>, delim: Seq<char>, start: int, i: int)
    requires
        0 <= start <= text.len(),
        delim.len() > 0,
        0 <= i < pieces_from(text, delim, start).len(),
    ensures
        first_occurrence(pieces_from(text, delim, start)[i], delim, 0) is None,
    decreases text.len() - start,
{
    first_occurrence_is_least(text, delim, start);
    let end = match first_occurrence(text, delim, start) {
        Some(at) => at,
        None => text.len() as int,
    };
    if i == 0 {
        let head = text.subrange(start, end);
        first_occurrence_is_least(head, delim, 0);
        if let Some(inside) = first_occurrence(head, delim, 0) {
            assert(text.subrange(start + inside, start + inside + delim.len()) =~= head.subrange(
                inside,
                inside + delim.len(),
            ));
            assert(occurs_at(text, delim, start + inside));
        }
    } else {
        let at = first_occurrence(text, delim, start)->0;
        pieces_from_hold_no_delimiter(text, delim, at + delim.len(), i - 1);
    }
}

/// Joining the pieces of a split with the delimiter gives the text back.
pub proof fn split_then_join(text: Seq<char>, delim: Seq<char>)
    ensures
        joined(split_on(text, delim), delim) == text,
{
    pieces_from_join(text, delim, 0);
}

/// No piece of a split holds the delimiter.
pub proof fn pieces_hold_no_delimiter(text: Seq<char>, delim: Seq<char>)
    requires
        delim.len() > 0,
    ensures
        forall|i: int|
            0 <= i < split_on(text, delim).len() ==> first_occurrence(
                #[trigger] split_on(text, delim)[i],
                delim,
                0,
            ) is None,
{
    assert forall|i: int| 0 <= i < split_on(text, delim).len() implies first_occurrence(
        #[trigger] split_on(text, delim)[i],
        delim,
        0,
    ) is None by {
        pieces_from_hold_no_delimiter(text, delim, 0, i);
    }
}

/// Splitting gives at least one piece.
pub proof fn split_has_a_piece(text: Seq<char>, delim: Seq<char>)
    ensures
        split_on(text, delim).len() >= 1,
{
}

/// The characters of a string, one by one.
pub fn chars_of(s: &str) -> (r: Vec<char>)
    ensures
        r@ == s@,
{
    let mut out: Vec<char> = Vec::new();
    for c in it: s.chars()
        invariant
            it.seq() == s@,
            out@ == it.seq().take(it.index() as int),
    {
        out.push(c);
    }
    out
}

/// The text that `bytes` hold.
pub fn read_text(bytes: &[u8]) -> (r: Option<String>)
    ensures
        match r {
            Some(text) => text_in(bytes@) == Some(text@),
            None => text_in(bytes@) is None,
        },
{
    match core::str::from_utf8(bytes) {
        Ok(text) => Some(text.to_owned()),
        Err(_) => None,
    }
}

/// The string made of the given characters.
pub fn text_of(chars: &[char]) -> (r: String)
    ensures
        r@ == chars@,
{
    let mut out = String::new();
    let mut i: usize = 0;
    while i < chars.len()
        invariant
            i <= chars.len(),
            out@ == chars@.take(i as int),
        decreases chars.len() - i,
    {
        out.push(chars[i]);
        i += 1;
    }
    out
}

/// A copy of the characters of `text` from `from` up to `to`.
pub fn copy_range(text: &[char], from: usize, to: usize) -> (r: Vec<char>)
    requires
        from <= to <= text@.len(),
    ensures
        r@ == text@.subrange(from as int, to as int),
{
    let mut out: Vec<char> = Vec::new();
    let mut i: usize = from;
    while i < to
        invariant
            from <= i <= to <= text@.len(),
            out@ == text@.subrange(from as int, i as int),
        decreases to - i,
    {
        out.push(text[i]);
        i += 1;
    }
    out
}

/// Whether `pattern` stands in `text` at position `at`.
pub fn stands_at(text: &[char], pattern: &[char], at: usize) -> (r: bool)
    ensures
        r == occurs_at(text@, pattern@, at as int),
{
    if pattern.len() > text.len() || at > text.len() - pattern.len() {
        return false;
    }
    let mut k: usize = 0;
    while k < pattern.len()
        invariant
            k <= pattern@.len(),
            at + pattern@.len() <= text@.len() <= usize::MAX,
            forall|j: int| 0 <= j < k ==> text@[at + j] == pattern@[j],
        decreases pattern.len() - k,
    {
        if text[at + k] != pattern[k] {
            proof {
                let window = text@.subrange(at as int, at + pattern@.len());
                assert(window[k as int] != pattern@[k as int]);
            }
            return false;
        }
        k += 1;
    }
    assert(text@.subrange(at as int, at + pattern@.len()) =~= pattern@);
    true
}

/// The first position at or after `from` at which `pattern` stands in `text`.
pub fn find_from(text: &[char], pattern: &[char], from: usize) -> (r: Option<usize>)
    ensures
        match r {
            Some(at) => first_occurrence(text@, pattern@, from as int) == Some(at as int),
            None => first_occurrence(text@, pattern@, from as int) is None,
        },
{
    if pattern.len() > text.len() || from > text.len() - pattern.len() {
        return None;
    }
    let last: usize = text.len() - pattern.len();
    let mut i: usize = from;
    loop
        invariant
            from <= i <= last,
            last == text@.len() - pattern@.len(),
            first_occurrence(text@, pattern@, from as int) == first_occurrence(
                text@,
                pattern@,
                i as int,
            ),
        decreases last - i,
    {
        if stands_at(text, pattern, i) {
            return Some(i);
        }
        if i == last {
            assert(first_occurrence(text@, pattern@, i + 1) is None);
            return None;
        }
        i += 1;
    }
}

/// The sequences of characters held by a list of pieces.
pub open spec fn piece_views(pieces: Seq<Vec<char>>) -> Seq<Seq<char>> {
    pieces.map_values(|p: Vec<char>| p@)
}

/// Splits `text` on `delim`.
pub fn split(text: &[char], delim: &[char]) -> (r: Vec<Vec<char>>)
    ensures
        piece_views(r@) == split_on(text@, delim@),
{
    let mut out: Vec<Vec<char>> = Vec::new();
    let mut start: usize = 0;
    let total: usize = text.len();
    if delim.len() > 0 {
        loop
            invariant_except_break
                delim@.len() > 0,
                start <= total == text@.len(),
                split_on(text@, delim@) == piece_views(out@) + pieces_from(
                    text@,
                    delim@,
                    start as int,
                ),
            ensures
                start <= text@.len(),
                split_on(text@, delim@) == piece_views(out@) + seq![
                    text@.subrange(start as int, text@.len() as int),
                ],
            decreases text@.len() - start,
        {
            match find_from(text, delim, start) {
                Some(at) => {
                    proof {
                        first_occurrence_is_least(text@, delim@, start as int);
                    }
                    let piece = copy_range(text, start, at);
                    out.push(piece);
                    start = at + delim.len();
                },
                None => {
                    break ;
                },
            }
        }
    }
    let piece = copy_range(text, start, total);
    out.push(piece);
    out
}

} // verus!
