//! Two-phase resolution of a contextual anchor against one immutable text
//! snapshot.
//!
//! Phase one locates the anchor's context snippet in the whole snapshot and
//! demands exactly one occurrence. Phase two locates the token inside the
//! matched context span and selects one occurrence, by the anchor's one-based
//! index when the token repeats. The selected span is returned together with
//! a derived center position for downstream position-based lookups.

use vstd::prelude::*;
use vstd::slice::slice_subrange;
use vstd::utf8::encode_utf8;

use crate::anchor::ContextualAnchor;
use crate::position::{center_column_of, center_position, lemma_encode_utf8_len, row_of};
use crate::search::{
    byte_match_offsets, is_match_at, lemma_match_offsets_nonempty_iff_contains,
    lemma_match_offsets_ordered, match_offsets,
};

verus! {

broadcast use vstd::slice::group_slice_axioms;

/// A span the resolver selected: byte offsets into the snapshot, plus the
/// derived center position (zero-based row, UTF-16 column units).
#[derive(Clone, Debug, PartialEq, Eq, Structural)]
pub struct ResolvedSpan {
    /// Byte offset of the selected token occurrence.
    pub start: usize,
    /// Byte offset just past the selected token occurrence.
    pub end: usize,
    /// Zero-based row of the token's start.
    pub row: usize,
    /// Center column: the floor of the mean of the start and end columns when
    /// the token sits on one row, else the start column.
    pub column: usize,
}

/// Why the resolver could not select exactly one span.
#[derive(Clone, Debug, PartialEq, Eq, Structural)]
pub enum ResolveError {
    /// The context snippet occurs nowhere in the snapshot.
    NoContextMatch,
    /// The context snippet occurs more than once in the snapshot.
    AmbiguousContextMatch { count: usize },
    /// The token does not occur inside the matched context span.
    NoTokenMatch,
    /// The token occurs more than once inside the context span and the anchor
    /// supplies no index to pick one occurrence.
    AmbiguousTokenMatch { count: usize },
    /// The anchor's one-based index exceeds the number of token occurrences
    /// inside the context span.
    IndexOutOfRange { index: usize, count: usize },
}

/// `base + len`, clamped to `limit`.
pub open spec fn clamp_add(base: int, len: int, limit: int) -> int {
    if base + len <= limit {
        base + len
    } else {
        limit
    }
}

/// Byte offsets of the non-overlapping occurrences of the anchor's context
/// snippet in the snapshot.
pub open spec fn context_occurrences(text: Seq<char>, a: ContextualAnchor) -> Seq<int> {
    match_offsets(encode_utf8(text), a.context_bytes())
}

/// The byte sub-range of the snapshot covered by the first context
/// occurrence, clamped to the snapshot's length.
pub open spec fn context_span(text: Seq<char>, a: ContextualAnchor) -> (int, int) {
    let start = context_occurrences(text, a)[0];
    (
        start,
        clamp_add(start, a.context_bytes().len() as int, encode_utf8(text).len() as int),
    )
}

/// Byte offsets, into the whole snapshot, of the non-overlapping occurrences
/// of the anchor's token inside the matched context span.
pub open spec fn token_occurrences(text: Seq<char>, a: ContextualAnchor) -> Seq<int> {
    let (s, e) = context_span(text, a);
    match_offsets(encode_utf8(text).subrange(s, e), a.token_bytes()).map_values(|x: int| x + s)
}

/// The zero-based selection among the token occurrences: one less than the
/// anchor's one-based index when present, else the first occurrence.
pub open spec fn selection_of(index: Option<usize>) -> int {
    match index {
        Some(ix) => ix - 1,
        None => 0,
    }
}

/// For a valid anchor whose context occurs exactly once in the snapshot, the
/// token phase cannot come up empty: the matched context span is the context
/// itself, and a valid anchor's context contains its token. Resolution then
/// fails only for ambiguity or an out-of-range index, never for a missing
/// token.
pub proof fn lemma_valid_anchor_finds_token(text: Seq<char>, a: ContextualAnchor)
    requires
        a.is_valid(),
        context_occurrences(text, a).len() == 1,
    ensures
        token_occurrences(text, a).len() >= 1,
{
    let tb = encode_utf8(text);
    let cb = a.context_bytes();
    let tk = a.token_bytes();
    lemma_encode_utf8_len(a.context_str@);
    lemma_encode_utf8_len(a.token@);
    lemma_match_offsets_ordered(tb, cb);
    let s = context_occurrences(text, a)[0];
    assert(is_match_at(tb, cb, s));
    let (cs, ce) = context_span(text, a);
    assert(ce == s + cb.len());
    assert(tb.subrange(cs, ce) == cb);
    lemma_match_offsets_nonempty_iff_contains(cb, tk);
}

/// Resolves a validated anchor against one snapshot: exactly one context
/// occurrence is demanded, then exactly one token occurrence is selected
/// inside it. Every failure names its cause; no partial span is returned.
pub fn resolve_anchor(text: &str, anchor: &ContextualAnchor) -> (r: Result<
    ResolvedSpan,
    ResolveError,
>)
    requires
        anchor.is_valid(),
        encode_utf8(text@).len() <= usize::MAX / 4,
    ensures
        r matches Err(ResolveError::NoContextMatch)
            <==> context_occurrences(text@, *anchor).len() == 0,
        r matches Err(ResolveError::AmbiguousContextMatch { .. })
            <==> context_occurrences(text@, *anchor).len() > 1,
        r matches Err(ResolveError::AmbiguousContextMatch { count })
            ==> count == context_occurrences(text@, *anchor).len(),
        r matches Err(ResolveError::NoTokenMatch)
            <==> (context_occurrences(text@, *anchor).len() == 1
                && token_occurrences(text@, *anchor).len() == 0),
        r matches Err(ResolveError::AmbiguousTokenMatch { .. })
            <==> (context_occurrences(text@, *anchor).len() == 1
                && token_occurrences(text@, *anchor).len() > 1 && anchor.index is None),
        r matches Err(ResolveError::AmbiguousTokenMatch { count })
            ==> count == token_occurrences(text@, *anchor).len(),
        r matches Err(ResolveError::IndexOutOfRange { .. })
            <==> (context_occurrences(text@, *anchor).len() == 1
                && token_occurrences(text@, *anchor).len() >= 1
                && selection_of(anchor.index) >= token_occurrences(text@, *anchor).len()),
        r matches Err(ResolveError::IndexOutOfRange { index, count })
            ==> index == selection_of(anchor.index) + 1
                && count == token_occurrences(text@, *anchor).len(),
        r is Ok <==> (context_occurrences(text@, *anchor).len() == 1
            && token_occurrences(text@, *anchor).len() >= 1
            && (token_occurrences(text@, *anchor).len() == 1 || anchor.index is Some)
            && selection_of(anchor.index) < token_occurrences(text@, *anchor).len()),
        r matches Ok(span) ==> {
            let occ = token_occurrences(text@, *anchor);
            let tb = encode_utf8(text@);
            &&& span.start == occ[selection_of(anchor.index)]
            &&& span.end == clamp_add(span.start as int, anchor.token_bytes().len() as int,
                tb.len() as int)
            &&& span.start <= span.end <= tb.len()
            &&& is_match_at(tb, anchor.token_bytes(), span.start as int)
            &&& span.end == span.start + anchor.token_bytes().len()
            &&& span.row == row_of(tb, span.start as int)
            &&& span.column == center_column_of(tb, span.start as int, span.end as int)
        },
{
    let tb: &[u8] = text.as_bytes();
    let cb: &[u8] = anchor.context_str.as_str().as_bytes();
    let tk: &[u8] = anchor.token.as_str().as_bytes();

    let ctx_occ = byte_match_offsets(tb, cb);
    if ctx_occ.len() == 0 {
        return Err(ResolveError::NoContextMatch);
    }
    if ctx_occ.len() > 1 {
        return Err(ResolveError::AmbiguousContextMatch { count: ctx_occ.len() });
    }

    let start = ctx_occ[0];
    proof {
        assert(ctx_occ@.map_values(|x: usize| x as int)[0] == start as int);
        assert(start as int == context_occurrences(text@, *anchor)[0]);
    }
    let end = if cb.len() <= tb.len() - start {
        start + cb.len()
    } else {
        tb.len()
    };
    let window = slice_subrange(tb, start, end);
    let rel_occ = byte_match_offsets(window, tk);
    proof {
        assert(window@ == encode_utf8(text@).subrange(
            context_span(text@, *anchor).0,
            context_span(text@, *anchor).1,
        ));
        assert(rel_occ@.map_values(|x: usize| x as int)
            == match_offsets(window@, anchor.token_bytes()));
        assert(token_occurrences(text@, *anchor).len() == rel_occ@.len());
    }
    if rel_occ.len() == 0 {
        return Err(ResolveError::NoTokenMatch);
    }
    if rel_occ.len() > 1 && anchor.index.is_none() {
        return Err(ResolveError::AmbiguousTokenMatch { count: rel_occ.len() });
    }
    let sel = match anchor.index {
        Some(ix) => ix - 1,
        None => 0,
    };
    if sel >= rel_occ.len() {
        return Err(ResolveError::IndexOutOfRange { index: sel + 1, count: rel_occ.len() });
    }

    let tok_start = start + rel_occ[sel];
    proof {
        assert(rel_occ@.map_values(|x: usize| x as int)[sel as int] == rel_occ@[sel as int] as int);
        assert(token_occurrences(text@, *anchor)[sel as int] == rel_occ@[sel as int] + start);
        // The selected offset is a real match of the token: first within the
        // context window, hence within the whole snapshot.
        let tb_s = encode_utf8(text@);
        let tk_s = anchor.token_bytes();
        let rel = rel_occ@[sel as int] as int;
        lemma_encode_utf8_len(anchor.token@);
        lemma_match_offsets_ordered(window@, tk_s);
        assert(is_match_at(window@, tk_s, rel));
        assert(tb_s.subrange(tok_start as int, tok_start + tk_s.len()) =~= window@.subrange(
            rel,
            rel + tk_s.len(),
        ));
        assert(is_match_at(tb_s, tk_s, tok_start as int));
    }
    let tok_end = if tk.len() <= tb.len() - tok_start {
        tok_start + tk.len()
    } else {
        tb.len()
    };
    let (row, column) = center_position(tb, tok_start, tok_end);
    Ok(ResolvedSpan { start: tok_start, end: tok_end, row, column })
}

} // verus!
