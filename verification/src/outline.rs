//! Size-adaptive document content selection and outline rendering.
//!
//! Documents at or under a size threshold are handed over verbatim. Larger
//! documents are summarised: their symbol items are rendered as an indented,
//! paginated outline, or, when no outline exists, a short prefix of the
//! document is returned under an explanatory header.

use vstd::prelude::*;
use vstd::string::{StrSliceExecFns, StringExecFns};
use vstd::utf8::{encode_scalar, encode_utf8};

use crate::number::{decimal_of, u64_to_string};
use crate::textutil::{first_line, first_line_of, trim_of, trim_str};

verus! {

broadcast use vstd::slice::group_slice_axioms;

/// For documents over this many encoded size units, a symbol outline is
/// provided instead of the full content.
pub const AUTO_OUTLINE_SIZE: usize = 16384;

/// When an oversized document has no outline, a prefix of at most this many
/// encoded size units is returned instead.
pub const FALLBACK_PREFIX_SIZE: usize = 1024;

/// Result of reading a document: either its full text or a rendered outline.
pub struct BufferContent {
    /// The actual content (either full text or outline).
    pub text: String,
    /// Whether this is an outline (true) or full content (false).
    pub is_outline: bool,
}

/// One symbol of a document outline, as the outline-extraction collaborator
/// hands it over: a display text, a nesting depth, the zero-based rows on
/// which the symbol starts and ends, and optionally the raw text at the start
/// of its source range, from which a one-line signature snippet is derived.
#[derive(Debug)]
pub struct SymbolItem {
    pub display_text: String,
    pub depth: usize,
    pub start_row: u32,
    pub end_row: u32,
    pub snippet: Option<String>,
}

/// The filter pattern handed to the outline renderer does not compile as a
/// regular expression.
#[derive(Clone, Copy, Debug, PartialEq, Eq, Structural)]
pub struct InvalidFilter;

/// Whether the pattern of the outline filter compiles as a regular
/// expression: what `regex::Regex::new` decides for it.
pub uninterp spec fn regex_valid(pattern: Seq<char>) -> bool;

/// Whether a haystack matches a filter pattern: what `regex::Regex::is_match`
/// decides for the compiled pattern.
pub uninterp spec fn regex_is_match(pattern: Seq<char>, text: Seq<char>) -> bool;

/// Relies on regex::Regex::new and regex::Regex::is_match: whether the
/// pattern compiles is a function of the pattern alone, and whether a given
/// haystack matches is a function of the pattern and the haystack alone. The
/// two calls live in one wrapper because a compiled pattern cannot be related
/// to its source text once it crosses this boundary as an opaque value.
#[verifier::external_body]
fn regex_match(pattern: &str, text: &str) -> (r: Option<bool>)
    ensures
        r is Some <==> regex_valid(pattern@),
        r matches Some(b) ==> b == regex_is_match(pattern@, text@),
{
    match regex::Regex::new(pattern) {
        Ok(re) => Some(re.is_match(text)),
        Err(_) => None,
    }
}

fn filter_passes(pattern: &str, text: &str) -> (r: bool)
    requires
        regex_valid(pattern@),
    ensures
        r == regex_is_match(pattern@, text@),
{
    match regex_match(pattern, text) {
        Some(b) => b,
        None => vstd::pervasive::unreached(),
    }
}

/// Whether one item passes the filter: no filter admits every item; a pattern
/// admits the items whose display text it matches.
pub open spec fn passes_filter(filter: Option<Seq<char>>, item: SymbolItem) -> bool {
    match filter {
        None => true,
        Some(p) => regex_is_match(p, item.display_text@),
    }
}

/// `n` spaces.
pub open spec fn spaces(n: int) -> Seq<char>
    decreases n,
{
    if n <= 0 {
        Seq::empty()
    } else {
        spaces(n - 1).push(' ')
    }
}

/// What one rendered entry shows before its line indicator: the re-trimmed
/// first line of its signature snippet when it carries one (possibly nothing,
/// when that trims to empty), else its display text.
pub open spec fn entry_body(item: SymbolItem) -> Seq<char> {
    match item.snippet {
        Some(sig) => trim_of(first_line_of(sig@)),
        None => item.display_text@,
    }
}

/// The one-based line indicator of an entry: `[Ln]` when the symbol starts
/// and ends on one row, else `[Lstart-end]`, followed by the line break that
/// ends the entry.
pub open spec fn line_marker(item: SymbolItem) -> Seq<char> {
    if item.start_row == item.end_row {
        " [L"@ + decimal_of(item.start_row as int + 1) + "]\n"@
    } else {
        " [L"@ + decimal_of(item.start_row as int + 1) + "-"@ + decimal_of(
            item.end_row as int + 1,
        ) + "]\n"@
    }
}

/// One rendered outline entry: indentation, body, line indicator.
pub open spec fn entry_line(item: SymbolItem) -> Seq<char> {
    spaces(item.depth as int) + entry_body(item) + line_marker(item)
}

/// The rendered entries, in order.
pub open spec fn entries_text(items: Seq<SymbolItem>) -> Seq<char>
    decreases items.len(),
{
    if items.len() == 0 {
        Seq::empty()
    } else {
        entries_text(items.drop_last()) + entry_line(items.last())
    }
}

/// The items one page shows: scanning from position `i`, the first `want`
/// items that pass the filter.
pub open spec fn page_items(
    items: Seq<SymbolItem>,
    filter: Option<Seq<char>>,
    i: int,
    want: int,
) -> Seq<SymbolItem>
    decreases items.len() - i when 0 <= i
{
    if i >= items.len() || want <= 0 {
        Seq::empty()
    } else if passes_filter(filter, items[i]) {
        seq![items[i]] + page_items(items, filter, i + 1, want - 1)
    } else {
        page_items(items, filter, i + 1, want)
    }
}

/// The scan position just past the item that filled the page — what decides
/// whether more items remain beyond the page.
pub open spec fn page_end_index(
    items: Seq<SymbolItem>,
    filter: Option<Seq<char>>,
    i: int,
    want: int,
) -> int
    decreases items.len() - i when 0 <= i
{
    if i >= items.len() || want <= 0 {
        i
    } else if passes_filter(filter, items[i]) {
        if want == 1 {
            i + 1
        } else {
            page_end_index(items, filter, i + 1, want - 1)
        }
    } else {
        page_end_index(items, filter, i + 1, want)
    }
}

/// The pagination footer: the one-based range of symbols shown, then either
/// an instruction to resume at the offset of the last shown symbol, or the
/// exact total count.
pub open spec fn footer_text(page_start: int, page_end: int, has_more: bool) -> Seq<char> {
    if has_more {
        "\nShowing symbols "@ + decimal_of(page_start) + "-"@ + decimal_of(page_end)
            + " (there were more symbols found; use offset: "@ + decimal_of(page_end)
            + " to see next page)\n"@
    } else {
        "\nShowing symbols "@ + decimal_of(page_start) + "-"@ + decimal_of(page_end)
            + " (total symbols: "@ + decimal_of(page_end) + ")\n"@
    }
}

/// The full rendering of one outline page: the entries the page shows, then
/// the pagination footer.
pub open spec fn outline_text(
    items: Seq<SymbolItem>,
    filter: Option<Seq<char>>,
    offset: int,
    results_per_page: int,
) -> Seq<char> {
    let shown = page_items(items, filter, offset, results_per_page);
    let has_more = page_end_index(items, filter, offset, results_per_page) < items.len();
    entries_text(shown) + footer_text(offset + 1, offset + shown.len(), has_more)
}

fn append_number(output: &mut String, n: u64)
    ensures
        final(output)@ == old(output)@ + decimal_of(n as int),
{
    let d = u64_to_string(n);
    output.append(d.as_str());
}

/// Renders one outline entry: `depth` spaces of indentation, then the item's
/// signature snippet (re-trimmed to one line, when it trims to something)
/// or its plain display text, then a one-based line indicator.
pub fn render_entry(output: &mut String, item: &SymbolItem)
    ensures
        final(output)@ == old(output)@ + entry_line(*item),
{
    let ghost base = output@;
    let mut j: usize = 0;
    while j < item.depth
        invariant
            0 <= j <= item.depth,
            output@ == base + spaces(j as int),
        decreases item.depth - j,
    {
        output.append(" ");
        proof {
            reveal_strlit(" ");
            assert(" "@ =~= seq![' ']);
            assert(spaces(j as int).push(' ') =~= spaces(j as int) + seq![' ']);
            assert(base + spaces(j as int) + seq![' '] =~= base + spaces(j + 1));
        }
        j += 1;
    }
    match &item.snippet {
        Some(sig) => {
            let fl = first_line(sig.as_str());
            let t = trim_str(fl.as_str());
            if !t.as_str().is_empty() {
                output.append(t.as_str());
            } else {
                proof {
                    assert(output@ + entry_body(*item) =~= output@);
                }
            }
        },
        None => {
            output.append(item.display_text.as_str());
        },
    }
    proof {
        assert(output@ =~= base + (spaces(item.depth as int) + entry_body(*item)));
    }
    let ghost mid = output@;
    output.append(" [L");
    append_number(output, item.start_row as u64 + 1);
    if item.start_row == item.end_row {
        output.append("]\n");
        proof {
            assert(output@ =~= mid + line_marker(*item));
        }
    } else {
        output.append("-");
        append_number(output, item.end_row as u64 + 1);
        output.append("]\n");
        proof {
            assert(output@ =~= mid + line_marker(*item));
        }
    }
    proof {
        assert(output@ =~= base + entry_line(*item));
    }
}

/// Renders every entry in order, appending to `output`; returns how many
/// entries were rendered.
pub fn render_entries(output: &mut String, items: &Vec<SymbolItem>) -> (n: usize)
    ensures
        final(output)@ == old(output)@ + entries_text(items@),
        n == items@.len(),
{
    let ghost base = output@;
    let mut k: usize = 0;
    while k < items.len()
        invariant
            0 <= k <= items@.len(),
            output@ == base + entries_text(items@.take(k as int)),
        decreases items@.len() - k,
    {
        render_entry(output, &items[k]);
        proof {
            assert(items@.take(k + 1).drop_last() =~= items@.take(k as int));
            assert(items@.take(k + 1).last() == items@[k as int]);
            assert(output@ =~= base + entries_text(items@.take(k + 1)));
        }
        k += 1;
    }
    proof {
        assert(items@.take(items@.len() as int) =~= items@);
    }
    k
}

fn append_footer(output: &mut String, page_start: u64, page_end: u64, has_more: bool)
    ensures
        final(output)@ == old(output)@ + footer_text(page_start as int, page_end as int, has_more),
{
    let ghost base = output@;
    output.append("\nShowing symbols ");
    append_number(output, page_start);
    output.append("-");
    append_number(output, page_end);
    if has_more {
        output.append(" (there were more symbols found; use offset: ");
        append_number(output, page_end);
        output.append(" to see next page)\n");
    } else {
        output.append(" (total symbols: ");
        append_number(output, page_end);
        output.append(")\n");
    }
    proof {
        assert(output@ =~= base + footer_text(page_start as int, page_end as int, has_more));
    }
}

/// Renders one page of the outline: skips `offset` items, keeps those whose
/// display text the filter pattern matches (all of them when there is no
/// filter), renders up to `results_per_page` of them, and appends a
/// pagination footer that tells the caller whether and where to resume.
/// Fails only when the filter pattern does not compile.
pub fn render_outline(
    items: &Vec<SymbolItem>,
    filter: Option<&str>,
    offset: usize,
    results_per_page: usize,
) -> (r: Result<String, InvalidFilter>)
    requires
        offset < usize::MAX,
    ensures
        r is Err <==> (filter matches Some(p) && !regex_valid(p@)),
        r matches Ok(s) ==> s@ == outline_text(
            items@,
            match filter {
                Some(p) => Some(p@),
                None => None,
            },
            offset as int,
            results_per_page as int,
        ),
{
    let ghost gfilter: Option<Seq<char>> = match filter {
        Some(p) => Some(p@),
        None => None,
    };
    match filter {
        Some(p) => {
            if regex_match(p, "").is_none() {
                return Err(InvalidFilter);
            }
        },
        None => {},
    }

    let mut output = String::new();
    let mut count: usize = 0;
    let mut has_more: bool = false;
    if offset < items.len() {
        let mut i: usize = offset;
        loop
            invariant
                offset <= i <= items@.len(),
                count <= results_per_page,
                count <= i - offset,
                gfilter == (match filter {
                    Some(p) => Some(p@),
                    None => None,
                }),
                filter matches Some(p) ==> regex_valid(p@),
                count <= page_items(items@, gfilter, offset as int, results_per_page as int).len(),
                page_items(items@, gfilter, offset as int, results_per_page as int)
                    == page_items(items@, gfilter, offset as int, results_per_page as int).take(
                        count as int,
                    ) + page_items(items@, gfilter, i as int, results_per_page - count),
                page_end_index(items@, gfilter, offset as int, results_per_page as int)
                    == (if count < results_per_page {
                        page_end_index(items@, gfilter, i as int, results_per_page - count)
                    } else {
                        i as int
                    }),
                output@ == entries_text(
                    page_items(items@, gfilter, offset as int, results_per_page as int).take(
                        count as int,
                    ),
                ),
            ensures
                count == page_items(items@, gfilter, offset as int, results_per_page as int).len(),
                output@ == entries_text(
                    page_items(items@, gfilter, offset as int, results_per_page as int),
                ),
                page_end_index(items@, gfilter, offset as int, results_per_page as int) == i as int,
                offset <= i <= items@.len(),
            decreases items@.len() - i,
        {
            if i >= items.len() || count >= results_per_page {
                proof {
                    let full = page_items(items@, gfilter, offset as int, results_per_page as int);
                    assert(page_items(items@, gfilter, i as int, results_per_page - count)
                        =~= Seq::<SymbolItem>::empty());
                    assert(full.take(count as int) + Seq::<SymbolItem>::empty() =~= full.take(
                        count as int));
                    assert(full.take(count as int) =~= full);
                }
                break ;
            }
            let item = &items[i];
            let passes = match filter {
                Some(p) => filter_passes(p, item.display_text.as_str()),
                None => true,
            };
            if passes {
                proof {
                    let full = page_items(items@, gfilter, offset as int, results_per_page as int);
                    let restw = results_per_page - count;
                    assert(page_items(items@, gfilter, i as int, restw)
                        == seq![items@[i as int]] + page_items(
                            items@, gfilter, i + 1, restw - 1));
                    assert(full[count as int] == items@[i as int]);
                    assert(full.take(count + 1) =~= full.take(count as int) + seq![
                        items@[i as int]]);
                    assert(full.take(count as int) + (seq![items@[i as int]] + page_items(
                        items@, gfilter, i + 1, restw - 1)) =~= full.take(count + 1) + page_items(
                        items@, gfilter, i + 1, restw - 1));
                    assert(full.take(count + 1).drop_last() =~= full.take(count as int));
                    assert(full.take(count + 1).last() == items@[i as int]);
                }
                render_entry(&mut output, item);
                count += 1;
            }
            i += 1;
        }
        has_more = i < items.len();
    } else {
        proof {
            let full = page_items(items@, gfilter, offset as int, results_per_page as int);
            assert(full =~= Seq::<SymbolItem>::empty());
            assert(entries_text(full) =~= Seq::<char>::empty());
            assert(page_end_index(items@, gfilter, offset as int, results_per_page as int)
                == offset as int);
        }
    }
    let page_start = offset as u64 + 1;
    let page_end = offset as u64 + count as u64;
    append_footer(&mut output, page_start, page_end, has_more);
    proof {
        assert(output@ =~= outline_text(
            items@, gfilter, offset as int, results_per_page as int));
    }
    Ok(output)
}

/// The view of an optional display path.
pub open spec fn opt_str_view(o: Option<&str>) -> Option<Seq<char>> {
    match o {
        Some(p) => Some(p@),
        None => None,
    }
}

/// How many leading characters of `s` have a UTF-8 encoding that fits within
/// `budget` bytes: truncation at this count never splits an encoded character.
pub open spec fn chars_fitting(s: Seq<char>, budget: int) -> int
    decreases s.len(),
{
    if s.len() == 0 {
        0
    } else {
        let w = encode_scalar(s[0] as u32).len();
        if w > budget {
            0
        } else {
            1 + chars_fitting(s.drop_first(), budget - w)
        }
    }
}

/// The text returned for an oversized document without an outline: a header
/// (naming the document when a display path is known), then the longest
/// prefix of the document whose encoding fits in the fallback budget.
pub open spec fn fallback_text(text: Seq<char>, path: Option<Seq<char>>) -> Seq<char> {
    let content = text.take(chars_fitting(text, FALLBACK_PREFIX_SIZE as int));
    match path {
        Some(p) => "# First 1KB of "@ + p
            + " (file too large to show full content, and no outline available)\n\n"@ + content,
        None =>
            "# First 1KB of file (file too large to show full content, and no outline available)\n\n"@
            + content,
    }
}

/// The heading prepended to a rendered outline, naming the document when a
/// display path is known.
pub open spec fn outline_header(path: Option<Seq<char>>) -> Seq<char> {
    match path {
        Some(p) => "# File outline for "@ + p + "\n\n"@,
        None => "# File outline\n\n"@,
    }
}

fn char_utf8_width(c: char) -> (w: usize)
    ensures
        w == encode_scalar(c as u32).len(),
{
    proof {
        vstd::utf8::char_is_scalar(c);
    }
    let u = c as u32;
    if u < 0x80 {
        1
    } else if u < 0x800 {
        2
    } else if u < 0x10000 {
        3
    } else {
        4
    }
}

fn prefix_chars_fitting(s: &str, budget: usize) -> (k: usize)
    ensures
        k == chars_fitting(s@, budget as int),
        k <= s@.len(),
{
    let n = s.unicode_len();
    let mut i: usize = 0;
    let mut rem: usize = budget;
    proof {
        assert(s@.skip(0) =~= s@);
    }
    loop
        invariant
            n == s@.len(),
            0 <= i <= n,
            rem <= budget,
            chars_fitting(s@, budget as int) == i + chars_fitting(s@.skip(i as int), rem as int),
        ensures
            0 <= i <= n,
            chars_fitting(s@, budget as int) == i as int,
        decreases n - i,
    {
        if i >= n {
            proof {
                assert(s@.skip(i as int) =~= Seq::<char>::empty());
            }
            break ;
        }
        let c = s.get_char(i);
        proof {
            assert(s@.skip(i as int)[0] == s@[i as int]);
        }
        let w = char_utf8_width(c);
        if w > rem {
            break ;
        }
        rem -= w;
        proof {
            assert(s@.skip(i as int).drop_first() =~= s@.skip(i + 1));
        }
        i += 1;
    }
    i
}

/// Returns either the full content of a document or its outline, depending on
/// size. A document at or under the size threshold is returned verbatim. Over
/// the threshold, its symbol items are rendered as an outline under a header;
/// when it has none, a short prefix under an explanatory header is returned
/// instead, truncated only at a character boundary.
pub fn get_buffer_content_or_outline(
    text: &String,
    path: Option<&str>,
    items: &Vec<SymbolItem>,
) -> (r: BufferContent)
    ensures
        r.is_outline <==> (encode_utf8(text@).len() > AUTO_OUTLINE_SIZE as int && items@.len()
            > 0),
        encode_utf8(text@).len() <= AUTO_OUTLINE_SIZE as int ==> r.text@ == text@,
        encode_utf8(text@).len() > AUTO_OUTLINE_SIZE as int && items@.len() == 0 ==> r.text@
            == fallback_text(text@, opt_str_view(path)),
        encode_utf8(text@).len() > AUTO_OUTLINE_SIZE as int && items@.len() > 0 ==> r.text@
            == outline_header(opt_str_view(path)) + outline_text(
            items@,
            None,
            0,
            usize::MAX as int,
        ),
{
    let file_size = text.as_str().as_bytes().len();
    proof {
        assert(file_size == encode_utf8(text@).len());
    }
    if file_size > AUTO_OUTLINE_SIZE {
        if items.len() == 0 {
            let k = prefix_chars_fitting(text.as_str(), FALLBACK_PREFIX_SIZE);
            let content = text.as_str().substring_char(0, k);
            let mut out: String;
            match path {
                Some(p) => {
                    out = "# First 1KB of ".to_owned();
                    out.append(p);
                    out.append(
                        " (file too large to show full content, and no outline available)\n\n",
                    );
                },
                None => {
                    out =
                    "# First 1KB of file (file too large to show full content, and no outline available)\n\n".to_owned();
                },
            }
            out.append(content);
            proof {
                assert(content@ == text@.take(chars_fitting(text@, FALLBACK_PREFIX_SIZE as int)));
                assert(out@ =~= fallback_text(text@, opt_str_view(path)));
            }
            BufferContent { text: out, is_outline: false }
        } else {
            let mut out: String;
            match path {
                Some(p) => {
                    out = "# File outline for ".to_owned();
                    out.append(p);
                    out.append("\n\n");
                },
                None => {
                    out = "# File outline\n\n".to_owned();
                },
            }
            proof {
                assert(out@ =~= outline_header(opt_str_view(path)));
            }
            match render_outline(items, None, 0, usize::MAX) {
                Ok(rendered) => {
                    out.append(rendered.as_str());
                    BufferContent { text: out, is_outline: true }
                },
                Err(_) => vstd::pervasive::unreached(),
            }
        }
    } else {
        BufferContent { text: text.clone(), is_outline: false }
    }
}

} // verus!
