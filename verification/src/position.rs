//! Line/column coordinates over UTF-8 encoded text.
//!
//! A position is derived from a byte offset: the row counts line feeds before
//! the offset, and the column counts UTF-16 code units from the start of the
//! row, so that one column unit stands for one encoded code unit rather than
//! one byte.

use vstd::prelude::*;
use vstd::utf8::{encode_scalar, encode_utf8};

verus! {

broadcast use vstd::slice::group_slice_axioms;

/// One encoded character occupies between one and four bytes.
pub proof fn lemma_encode_scalar_len(v: u32)
    ensures
        1 <= encode_scalar(v).len() <= 4,
{
}

/// A character sequence and its UTF-8 encoding are empty together; the
/// encoding is at least as long as the character sequence and at most four
/// times as long.
pub proof fn lemma_encode_utf8_len(s: Seq<char>)
    ensures
        s.len() <= encode_utf8(s).len() <= 4 * s.len(),
    decreases s.len(),
{
    if s.len() == 0 {
    } else {
        lemma_encode_scalar_len(s[0] as u32);
        lemma_encode_utf8_len(s.drop_first());
    }
}

/// The number of line feeds strictly before byte offset `i`: the zero-based
/// row of the offset.
pub open spec fn row_of(text: Seq<u8>, i: int) -> int
    decreases i when 0 <= i
{
    if i <= 0 {
        0
    } else {
        row_of(text, i - 1) + if text[i - 1] == 10u8 { 1int } else { 0int }
    }
}

/// The byte offset at which the row holding offset `i` begins: zero, or the
/// offset just past the nearest line feed before `i`.
pub open spec fn line_start_of(text: Seq<u8>, i: int) -> int
    decreases i when 0 <= i
{
    if i <= 0 {
        0
    } else if text[i - 1] == 10u8 {
        i
    } else {
        line_start_of(text, i - 1)
    }
}

/// How many UTF-16 code units one byte contributes: one for an ASCII byte or
/// the leading byte of a two- or three-byte character, two for the leading
/// byte of a four-byte character, and none for continuation bytes.
pub open spec fn utf16_width(b: u8) -> int {
    if b < 0x80 {
        1
    } else if b < 0xC0 {
        0
    } else if b < 0xF0 {
        1
    } else {
        2
    }
}

/// The number of UTF-16 code units contributed by the bytes in `[lo, hi)`.
pub open spec fn utf16_units(text: Seq<u8>, lo: int, hi: int) -> int
    decreases hi - lo when lo <= hi
{
    if hi <= lo {
        0
    } else {
        utf16_units(text, lo, hi - 1) + utf16_width(text[hi - 1])
    }
}

/// The UTF-16 column of byte offset `i`: code units from the start of its row.
pub open spec fn column_of(text: Seq<u8>, i: int) -> int {
    utf16_units(text, line_start_of(text, i), i)
}

/// The column reported for a span: the floor of the mean of the two end
/// columns when the span starts and ends on one row (its visual center), and
/// the start column when it crosses rows.
pub open spec fn center_column_of(text: Seq<u8>, start: int, end: int) -> int {
    if row_of(text, start) == row_of(text, end) {
        (column_of(text, start) + column_of(text, end)) / 2
    } else {
        column_of(text, start)
    }
}

fn utf16_width_of(b: u8) -> (w: usize)
    ensures
        w == utf16_width(b),
{
    if b < 0x80 {
        1
    } else if b < 0xC0 {
        0
    } else if b < 0xF0 {
        1
    } else {
        2
    }
}

/// The zero-based row and UTF-16 column of the given byte offset.
pub fn position_of(text: &[u8], offset: usize) -> (r: (usize, usize))
    requires
        offset <= text@.len(),
        text@.len() <= usize::MAX / 2,
    ensures
        r.0 == row_of(text@, offset as int),
        r.1 == column_of(text@, offset as int),
        r.1 <= 2 * text@.len(),
{
    let mut i: usize = 0;
    let mut row: usize = 0;
    let mut col: usize = 0;
    let ghost mut ls: int = 0int;
    while i < offset
        invariant
            offset <= text@.len() <= usize::MAX / 2,
            0 <= i <= offset,
            row == row_of(text@, i as int),
            row <= i,
            ls == line_start_of(text@, i as int),
            0 <= ls <= i,
            col == utf16_units(text@, ls, i as int),
            col <= 2 * (i - ls),
        decreases offset - i,
    {
        let b = text[i];
        if b == 10 {
            row += 1;
            col = 0;
            proof {
                ls = i + 1;
            }
        } else {
            let w = utf16_width_of(b);
            col += w;
        }
        i += 1;
    }
    (row, col)
}

/// The row of the span's start, and the span's reported column: the center of
/// the span when it sits on one row, else the start column.
pub fn center_position(text: &[u8], start: usize, end: usize) -> (r: (usize, usize))
    requires
        start <= end <= text@.len(),
        text@.len() <= usize::MAX / 4,
    ensures
        r.0 == row_of(text@, start as int),
        r.1 == center_column_of(text@, start as int, end as int),
{
    let (srow, scol) = position_of(text, start);
    let (erow, ecol) = position_of(text, end);
    if srow == erow {
        (srow, (scol + ecol) / 2)
    } else {
        (srow, scol)
    }
}

} // verus!
