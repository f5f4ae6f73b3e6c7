//! The find-references flow: validating and resolving a contextual anchor
//! into a lookup position, and mapping the lookup collaborator's matches into
//! reportable locations.
//!
//! Validation and resolution failures are not hard errors: they become a
//! diagnostic message relayed to the caller, who refines the anchor and
//! retries. Only infrastructure failures (a document that cannot be opened, a
//! lookup service error) abort the enclosing call, and those stay with the
//! caller of this library.

use vstd::prelude::*;
use vstd::string::StringExecFns;
use vstd::utf8::encode_utf8;

use crate::anchor::ContextualAnchor;
use crate::number::{decimal_of, u64_to_string};
use crate::resolve::{
    clamp_add, context_occurrences, resolve_anchor, selection_of, token_occurrences, ResolveError,
    ResolvedSpan,
};
use crate::position::{center_column_of, row_of};
use crate::search::is_match_at;
use crate::textutil::{trim_line_ends, trim_trailing_newlines};

verus! {

/// Input to the find-references tool: the anchor naming the symbol.
#[derive(Clone, Debug)]
pub struct FindReferencesToolInput {
    pub contextual_anchor: ContextualAnchor,
}

/// One reported reference: a display path, zero-based line/character bounds,
/// and an optional one-line excerpt of the line the reference starts on.
#[derive(Clone, Debug)]
pub struct FindReferencesLocation {
    pub path: String,
    pub start_line: u32,
    pub start_character: u32,
    pub end_line: u32,
    pub end_character: u32,
    pub excerpt: Option<String>,
}

/// The find-references result: every location the lookup collaborator
/// reported, mapped into reportable form.
#[derive(Clone, Debug)]
pub struct FindReferencesToolOutput {
    pub locations: Vec<FindReferencesLocation>,
}

/// The diagnostic text for an anchor that fails structural validation: the
/// message of the first check to fail.
pub open spec fn validation_message(a: ContextualAnchor) -> Seq<char> {
    if a.context_str@.len() == 0 {
        "context_str is empty"@
    } else if a.token@.len() == 0 {
        "token is empty"@
    } else if !a.context_has_token() {
        "context_str does not contain token `"@ + a.token@ + "`"@
    } else {
        "index must be 1-based and >= 1 (got "@ + decimal_of(0) + ")"@
    }
}

/// The diagnostic text for a validated anchor that the resolver rejects: the
/// message of the first resolution phase to fail.
pub open spec fn resolve_failure_message(text: Seq<char>, a: ContextualAnchor) -> Seq<char> {
    let n_ctx = context_occurrences(text, a).len();
    let n_tok = token_occurrences(text, a).len();
    if n_ctx == 0 {
        "No occurrences of the provided context_str were found"@
    } else if n_ctx > 1 {
        "Multiple occurrences of the provided context_str were found; contextual anchors must be unique"@
    } else if n_tok == 0 {
        "Token `"@ + a.token@ + "` not found inside the provided context_str"@
    } else if n_tok > 1 && a.index is None {
        "Multiple occurrences of token `"@ + a.token@
            + "` found inside context; provide index to disambiguate"@
    } else {
        "selection_index "@ + decimal_of(selection_of(a.index) + 1)
            + " out of range: token occurrences inside context = "@ + decimal_of(n_tok as int)
    }
}

fn resolve_error_message(e: &ResolveError, token: &str) -> (m: String)
    ensures
        m@ == match e {
            ResolveError::NoContextMatch => "No occurrences of the provided context_str were found"@,
            ResolveError::AmbiguousContextMatch { .. } =>
                "Multiple occurrences of the provided context_str were found; contextual anchors must be unique"@,
            ResolveError::NoTokenMatch => "Token `"@ + token@
                + "` not found inside the provided context_str"@,
            ResolveError::AmbiguousTokenMatch { .. } => "Multiple occurrences of token `"@ + token@
                + "` found inside context; provide index to disambiguate"@,
            ResolveError::IndexOutOfRange { index, count } => "selection_index "@ + decimal_of(
                *index as int,
            ) + " out of range: token occurrences inside context = "@ + decimal_of(*count as int),
        },
{
    match e {
        ResolveError::NoContextMatch => {
            "No occurrences of the provided context_str were found".to_owned()
        },
        ResolveError::AmbiguousContextMatch { .. } => {
            "Multiple occurrences of the provided context_str were found; contextual anchors must be unique".to_owned()
        },
        ResolveError::NoTokenMatch => {
            let mut m = "Token `".to_owned();
            m.append(token);
            m.append("` not found inside the provided context_str");
            proof {
                assert(m@ =~= "Token `"@ + token@
                    + "` not found inside the provided context_str"@);
            }
            m
        },
        ResolveError::AmbiguousTokenMatch { .. } => {
            let mut m = "Multiple occurrences of token `".to_owned();
            m.append(token);
            m.append("` found inside context; provide index to disambiguate");
            proof {
                assert(m@ =~= "Multiple occurrences of token `"@ + token@
                    + "` found inside context; provide index to disambiguate"@);
            }
            m
        },
        ResolveError::IndexOutOfRange { index, count } => {
            let mut m = "selection_index ".to_owned();
            let d1 = u64_to_string(*index as u64);
            m.append(d1.as_str());
            m.append(" out of range: token occurrences inside context = ");
            let d2 = u64_to_string(*count as u64);
            m.append(d2.as_str());
            proof {
                assert(m@ =~= "selection_index "@ + decimal_of(*index as int)
                    + " out of range: token occurrences inside context = "@ + decimal_of(
                    *count as int));
            }
            m
        },
    }
}

/// Validates the anchor and resolves it against the snapshot. A resolved span
/// carries the position handed to the reference-lookup collaborator. Any
/// validation or resolution failure becomes the diagnostic message that the
/// enclosing tool call relays before returning an empty, successful result.
pub fn prepare_reference_lookup(text: &str, anchor: &ContextualAnchor) -> (r: Result<
    ResolvedSpan,
    String,
>)
    requires
        encode_utf8(text@).len() <= usize::MAX / 4,
    ensures
        r is Ok <==> (anchor.is_valid() && context_occurrences(text@, *anchor).len() == 1
            && token_occurrences(text@, *anchor).len() >= 1 && (token_occurrences(
            text@,
            *anchor,
        ).len() == 1 || anchor.index is Some) && selection_of(anchor.index) < token_occurrences(
            text@,
            *anchor,
        ).len()),
        r matches Ok(span) ==> {
            let occ = token_occurrences(text@, *anchor);
            let tb = encode_utf8(text@);
            &&& span.start == occ[selection_of(anchor.index)]
            &&& span.end == clamp_add(span.start as int, anchor.token_bytes().len() as int,
                tb.len() as int)
            &&& span.start <= span.end <= tb.len()
            &&& is_match_at(tb, anchor.token_bytes(), span.start as int)
            &&& span.row == row_of(tb, span.start as int)
            &&& span.column == center_column_of(tb, span.start as int, span.end as int)
        },
        r matches Err(m) ==> m@ == (if !anchor.is_valid() {
            "Contextual anchor validation failed: "@ + validation_message(*anchor)
        } else {
            resolve_failure_message(text@, *anchor)
        }),
{
    match anchor.validate_basic() {
        Err(e) => {
            let mut m = "Contextual anchor validation failed: ".to_owned();
            let em = e.message();
            m.append(em.as_str());
            proof {
                assert(em@ == validation_message(*anchor));
            }
            Err(m)
        },
        Ok(()) => {
            match resolve_anchor(text, anchor) {
                Ok(span) => Ok(span),
                Err(e) => {
                    let m = resolve_error_message(&e, anchor.token.as_str());
                    proof {
                        assert(m@ == resolve_failure_message(text@, *anchor));
                    }
                    Err(m)
                },
            }
        },
    }
}

/// The rows shown around a resolved token in the diagnostic snippet:
/// seventeen rows above to fourteen rows below, clamped at both ends.
pub fn snippet_window(row: usize) -> (r: (usize, usize))
    ensures
        r.0 == if row >= 17 {
            row - 17
        } else {
            0
        },
        r.1 == if row <= usize::MAX - 14 {
            row + 14
        } else {
            usize::MAX as int
        },
{
    let start = if row >= 17 {
        row - 17
    } else {
        0
    };
    let end = if row <= usize::MAX - 14 {
        row + 14
    } else {
        usize::MAX
    };
    (start, end)
}

/// The one-line excerpt for a reported location: the text of the line the
/// match starts on, without its trailing line terminators, omitted when
/// nothing remains.
pub fn excerpt_from_line(line: &str) -> (r: Option<String>)
    ensures
        r is Some <==> trim_line_ends(line@).len() > 0,
        r matches Some(t) ==> t@ == trim_line_ends(line@),
{
    let t = trim_trailing_newlines(line);
    if t.as_str().is_empty() {
        None
    } else {
        Some(t)
    }
}

/// Assembles one reported location from a match the lookup collaborator
/// returned: the display path, the match's zero-based bounds, and an excerpt
/// derived from the raw text of the line the match starts on.
pub fn make_location(
    path: &str,
    start_line: u32,
    start_character: u32,
    end_line: u32,
    end_character: u32,
    line_text: &str,
) -> (r: FindReferencesLocation)
    ensures
        r.path@ == path@,
        r.start_line == start_line,
        r.start_character == start_character,
        r.end_line == end_line,
        r.end_character == end_character,
        r.excerpt is Some <==> trim_line_ends(line_text@).len() > 0,
        r.excerpt matches Some(t) ==> t@ == trim_line_ends(line_text@),
{
    FindReferencesLocation {
        path: path.to_owned(),
        start_line,
        start_character,
        end_line,
        end_character,
        excerpt: excerpt_from_line(line_text),
    }
}

/// One rendered location line: path, zero-based start and end coordinates,
/// and the excerpt when there is one.
pub open spec fn location_line(loc: FindReferencesLocation) -> Seq<char> {
    "\n- "@ + loc.path@ + ":"@ + decimal_of(loc.start_line as int) + ":"@ + decimal_of(
        loc.start_character as int,
    ) + " - "@ + decimal_of(loc.end_line as int) + ":"@ + decimal_of(loc.end_character as int)
        + match loc.excerpt {
        Some(e) => ": "@ + e@,
        None => Seq::empty(),
    }
}

/// The rendered location lines, in order.
pub open spec fn locations_text(locs: Seq<FindReferencesLocation>) -> Seq<char>
    decreases locs.len(),
{
    if locs.len() == 0 {
        Seq::empty()
    } else {
        locations_text(locs.drop_last()) + location_line(locs.last())
    }
}

fn append_location_line(out: &mut String, loc: &FindReferencesLocation)
    ensures
        final(out)@ == old(out)@ + location_line(*loc),
{
    let ghost base = out@;
    out.append("\n- ");
    out.append(loc.path.as_str());
    out.append(":");
    let a = u64_to_string(loc.start_line as u64);
    out.append(a.as_str());
    out.append(":");
    let b = u64_to_string(loc.start_character as u64);
    out.append(b.as_str());
    out.append(" - ");
    let c = u64_to_string(loc.end_line as u64);
    out.append(c.as_str());
    out.append(":");
    let d = u64_to_string(loc.end_character as u64);
    out.append(d.as_str());
    match &loc.excerpt {
        Some(e) => {
            out.append(": ");
            out.append(e.as_str());
        },
        None => {},
    }
    proof {
        assert(out@ =~= base + location_line(*loc));
    }
}

impl FindReferencesToolOutput {
    /// The human-readable rendering: a fixed sentence when no references were
    /// found, else a count line followed by one line per location.
    pub open spec fn rendered(&self) -> Seq<char> {
        if self.locations@.len() == 0 {
            "No references found"@
        } else {
            "Found "@ + decimal_of(self.locations@.len() as int) + " references:"@
                + locations_text(self.locations@)
        }
    }

    /// Renders the output for the model or the user.
    pub fn to_text(&self) -> (r: String)
        ensures
            r@ == self.rendered(),
    {
        if self.locations.len() == 0 {
            return "No references found".to_owned();
        }
        let mut out = "Found ".to_owned();
        let d = u64_to_string(self.locations.len() as u64);
        out.append(d.as_str());
        out.append(" references:");
        proof {
            assert(out@ =~= "Found "@ + decimal_of(self.locations@.len() as int)
                + " references:"@);
        }
        let ghost head = out@;
        let mut k: usize = 0;
        while k < self.locations.len()
            invariant
                0 <= k <= self.locations@.len(),
                out@ == head + locations_text(self.locations@.take(k as int)),
            decreases self.locations@.len() - k,
        {
            append_location_line(&mut out, &self.locations[k]);
            proof {
                assert(self.locations@.take(k + 1).drop_last() =~= self.locations@.take(k as int));
                assert(self.locations@.take(k + 1).last() == self.locations@[k as int]);
                assert(out@ =~= head + locations_text(self.locations@.take(k + 1)));
            }
            k += 1;
        }
        proof {
            assert(self.locations@.take(self.locations@.len() as int) =~= self.locations@);
        }
        out
    }
}

} // verus!
