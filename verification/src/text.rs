//! Byte strings as text: the parts between separators, and the words that occur in them.

use vstd::prelude::*;
use vstd::slice::slice_subrange;
use vstd::slice::slice_to_vec;

verus! {

/// The place of the first `separator` in `text`, or the length of `text` where it has none.
pub open spec fn first_separator(text: Seq<u8>, separator: u8) -> nat
    decreases text.len(),
{
    if text.len() == 0 || text[0] == separator {
        0
    } else {
        1 + first_separator(text.drop_first(), separator)
    }
}

/// The parts of `text` between its separators, in order. A text without a separator is one
/// part, and a separator at the end is followed by an empty part.
pub open spec fn split(text: Seq<u8>, separator: u8) -> Seq<Seq<u8>>
    decreases text.len(),
{
    let end = first_separator(text, separator);
    if end >= text.len() {
        seq![text]
    } else {
        seq![text.take(end as int)] + split(text.skip(end + 1int), separator)
    }
}

/// Whether `word` stands in `text` at the place `at`.
pub open spec fn occurs_at(text: Seq<u8>, word: Seq<u8>, at: int) -> bool {
    0 <= at && at + word.len() <= text.len() && text.subrange(at, at + word.len()) == word
}

/// Whether `word` stands somewhere in `text`.
pub open spec fn contains(text: Seq<u8>, word: Seq<u8>) -> bool {
    exists|at: int| occurs_at(text, word, at)
}

/// The first of `parts` in which `word` stands, if there is one.
pub open spec fn first_with(parts: Seq<Seq<u8>>, word: Seq<u8>) -> Option<Seq<u8>>
    decreases parts.len(),
{
    if parts.len() == 0 {
        None
    } else if contains(parts[0], word) {
        Some(parts[0])
    } else {
        first_with(parts.drop_first(), word)
    }
}

/// The byte strings that byte vectors hold.
pub open spec fn part_views(parts: Seq<Vec<u8>>) -> Seq<Seq<u8>> {
    Seq::new(parts.len(), |i: int| parts[i]@)
}

/// Where the first `end` bytes of a text are no separator and the text ends there or has
/// a separator there, `end` is the place of its first separator.
proof fn lemma_first_separator(text: Seq<u8>, separator: u8, end: int)
    requires
        0 <= end <= text.len(),
        forall|j: int| 0 <= j < end ==> text[j] != separator,
        end == text.len() || text[end] == separator,
    ensures
        first_separator(text, separator) == end,
    decreases end,
{
    if end > 0 {
        lemma_first_separator(text.drop_first(), separator, end - 1);
    }
}

/// Whether two byte strings are the same.
pub fn same_bytes(a: &[u8], b: &[u8]) -> (same: bool)
    ensures
        same == (a@ == b@),
{
    if a.len() != b.len() {
        return false;
    }
    let mut i: usize = 0;
    while i < a.len()
        invariant
            i <= a.len(),
            a.len() == b.len(),
            forall|j: int| 0 <= j < i ==> a@[j] == b@[j],
        decreases a.len() - i,
    {
        if a[i] != b[i] {
            return false;
        }
        i += 1;
    }
    assert(a@ =~= b@);
    true
}

/// Whether `word` stands somewhere in `text`.
pub fn contains_bytes(text: &[u8], word: &[u8]) -> (found: bool)
    ensures
        found == contains(text@, word@),
{
    if word.len() > text.len() {
        return false;
    }
    let last = text.len() - word.len();
    let mut at: usize = 0;
    loop
        invariant
            at <= last,
            last == text.len() - word.len(),
            forall|before: int| 0 <= before < at ==> !occurs_at(text@, word@, before),
        decreases last - at,
    {
        if same_bytes(slice_subrange(text, at, at + word.len()), word) {
            assert(occurs_at(text@, word@, at as int));
            return true;
        }
        if at == last {
            return false;
        }
        at += 1;
    }
}

/// The parts of `text` between its separators, in order.
pub fn split_bytes(text: &[u8], separator: u8) -> (parts: Vec<Vec<u8>>)
    ensures
        part_views(parts@) == split(text@, separator),
{
    let mut parts: Vec<Vec<u8>> = Vec::new();
    let mut start: usize = 0;
    assert(text@.skip(0) =~= text@);
    assert(part_views(parts@) + split(text@, separator) =~= split(text@, separator));
    loop
        invariant
            start <= text.len(),
            split(text@, separator) == part_views(parts@) + split(
                text@.skip(start as int),
                separator,
            ),
        decreases text.len() - start,
    {
        let ghost rest = text@.skip(start as int);
        let ghost before = part_views(parts@);
        let mut end: usize = start;
        while end < text.len() && text[end] != separator
            invariant
                start <= end <= text.len(),
                forall|j: int| start <= j < end ==> text@[j] != separator,
            decreases text.len() - end,
        {
            end += 1;
        }
        proof {
            lemma_first_separator(rest, separator, end - start);
        }
        let part = slice_to_vec(slice_subrange(text, start, end));
        assert(part@ =~= rest.take(end - start));
        parts.push(part);
        assert(part_views(parts@) =~= before.push(part@));
        if end == text.len() {
            assert(rest.take(end - start) =~= rest);
            return parts;
        }
        assert(rest.skip(end - start + 1) =~= text@.skip(end + 1));
        assert(before + (seq![part@] + split(text@.skip(end + 1), separator)) =~= before.push(
            part@,
        ) + split(text@.skip(end + 1), separator));
        start = end + 1;
    }
}

} // verus!
