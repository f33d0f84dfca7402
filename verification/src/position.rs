//! Lines and columns of a source text.
//!
//! Lines count from 1. A line break belongs to the line it opens and sits at
//! column 0 of it; every other character sits one column after the character
//! before it, so the first character of the text is at line 1, column 1.
//! Indices past the end of the text stand for the end of input and count as
//! further columns of the last line.

use vstd::prelude::*;

verus! {

/// The character at index `pos`, or `None` outside the text.
pub open spec fn char_at(src: Seq<char>, pos: int) -> Option<char> {
    if 0 <= pos < src.len() {
        Some(src[pos])
    } else {
        None
    }
}

/// The line of index `pos`: one more than the number of line breaks at
/// indices `0..=pos`.
pub open spec fn line_of(src: Seq<char>, pos: int) -> nat
    decreases pos + 1,
{
    if pos < 0 {
        1
    } else if char_at(src, pos) == Some('\n') {
        line_of(src, pos - 1) + 1
    } else {
        line_of(src, pos - 1)
    }
}

/// The column of index `pos`: the distance to the nearest line break at or
/// before `pos`, or to the index before the text if there is none.
pub open spec fn column_of(src: Seq<char>, pos: int) -> nat
    decreases pos + 1,
{
    if pos < 0 || char_at(src, pos) == Some('\n') {
        0
    } else {
        column_of(src, pos - 1) + 1
    }
}

/// The column is the distance to the line break before: if `from` holds
/// the last line break at or before `pos`, or is `-1` where there is none,
/// the column of `pos` is `pos - from`.
pub proof fn lemma_column_is_distance(src: Seq<char>, from: int, pos: int)
    requires
        -1 <= from <= pos,
        from >= 0 ==> char_at(src, from) == Some('\n'),
        forall|i: int| from < i <= pos ==> char_at(src, i) != Some('\n'),
    ensures
        column_of(src, pos) == pos - from,
    decreases pos - from,
{
    if from < pos {
        lemma_column_is_distance(src, from, pos - 1);
    }
}

/// The line is one more than the number of line breaks among the
/// characters up to and with the one at `pos`.
pub proof fn lemma_line_counts_breaks(src: Seq<char>, pos: int)
    requires
        -1 <= pos < src.len(),
    ensures
        line_of(src, pos) == 1 + src.take(pos + 1).filter(|c: char| c == '\n').len(),
    decreases pos + 1,
{
    reveal(Seq::filter);
    if pos >= 0 {
        lemma_line_counts_breaks(src, pos - 1);
        assert(src.take(pos + 1).drop_last() =~= src.take(pos));
    }
}

/// Lines and columns are bounded by the index and by the length of the text.
pub proof fn lemma_position_bounds(src: Seq<char>, pos: int)
    requires
        -1 <= pos,
    ensures
        1 <= line_of(src, pos) <= pos + 2,
        line_of(src, pos) <= src.len() + 1,
        column_of(src, pos) <= pos + 1,
    decreases pos + 1,
{
    if pos >= 0 {
        lemma_position_bounds(src, pos - 1);
        if pos >= src.len() {
            lemma_line_past_end(src, pos);
        } else {
            lemma_line_counts_at_most(src, pos);
        }
    }
}

/// Past the end of the text the line no longer changes.
pub proof fn lemma_line_past_end(src: Seq<char>, pos: int)
    requires
        src.len() - 1 <= pos,
    ensures
        line_of(src, pos) == line_of(src, src.len() - 1),
    decreases pos + 1,
{
    if pos > src.len() - 1 {
        lemma_line_past_end(src, pos - 1);
    }
}

/// Inside the text there are no more line breaks than characters read.
pub proof fn lemma_line_counts_at_most(src: Seq<char>, pos: int)
    requires
        -1 <= pos < src.len(),
    ensures
        line_of(src, pos) <= pos + 2,
    decreases pos + 1,
{
    if pos >= 0 {
        lemma_line_counts_at_most(src, pos - 1);
    }
}

} // verus!
