use contextual_anchor::anchor::ContextualAnchor;
use contextual_anchor::resolve::{resolve_anchor, ResolveError, ResolvedSpan};

fn anchor(context_str: &str, token: &str, index: Option<usize>) -> ContextualAnchor {
    ContextualAnchor {
        path: "a.rs".into(),
        context_str: context_str.into(),
        token: token.into(),
        index,
    }
}

#[test]
fn unique_context_unique_token_resolves() {
    let doc = "let alpha = beta;\nlet gamma = alpha;\n";
    let a = anchor("let gamma = alpha;", "gamma", None);
    let span = resolve_anchor(doc, &a).unwrap();
    // "gamma" starts at byte 22, on row 1, columns 4..9, center (4 + 9) / 2.
    assert_eq!(
        span,
        ResolvedSpan { start: 22, end: 27, row: 1, column: 6 }
    );
}

#[test]
fn ambiguous_context_is_rejected_regardless_of_token() {
    let doc = "foo bar\nbaz\nfoo bar\n";
    let a = anchor("foo bar", "bar", Some(1));
    assert_eq!(
        resolve_anchor(doc, &a).unwrap_err(),
        ResolveError::AmbiguousContextMatch { count: 2 }
    );
}

#[test]
fn missing_context_is_rejected() {
    let doc = "nothing interesting here";
    let a = anchor("absent snippet", "snippet", None);
    assert_eq!(
        resolve_anchor(doc, &a).unwrap_err(),
        ResolveError::NoContextMatch
    );
}

#[test]
fn repeated_token_without_index_is_ambiguous() {
    let doc = "fn example(foo: i32) -> i32 { foo + 1 }";
    let a = anchor(doc, "foo", None);
    assert_eq!(
        resolve_anchor(doc, &a).unwrap_err(),
        ResolveError::AmbiguousTokenMatch { count: 2 }
    );
}

#[test]
fn index_selects_second_occurrence_and_out_of_range_is_rejected() {
    let doc = "fn example(foo: i32) -> i32 { foo + 1 }";
    let second = resolve_anchor(doc, &anchor(doc, "foo", Some(2))).unwrap();
    assert_eq!(second.start, 30);
    assert_eq!(second.end, 33);
    assert_eq!(
        resolve_anchor(doc, &anchor(doc, "foo", Some(3))).unwrap_err(),
        ResolveError::IndexOutOfRange { index: 3, count: 2 }
    );
}

#[test]
fn end_to_end_second_token_in_larger_document() {
    let context = "fn example(foo: i32) -> i32 { foo + 1 }";
    let doc = format!("// header\n{}\n// tail\n", context);
    let a = anchor(context, "foo", Some(2));
    let span = resolve_anchor(&doc, &a).unwrap();
    // The second `foo` (inside the body), not the parameter.
    assert_eq!(span.start, 40);
    assert_eq!(span.end, 43);
    assert_eq!(span.row, 1);
    assert_eq!(span.column, 31);
}

#[test]
fn columns_count_utf16_units_not_bytes() {
    // Each euro sign is three bytes but one UTF-16 unit.
    let doc = "\u{20AC}\u{20AC} foo";
    let a = anchor("\u{20AC}\u{20AC} foo", "foo", None);
    let span = resolve_anchor(doc, &a).unwrap();
    assert_eq!(span.start, 7);
    assert_eq!(span.end, 10);
    assert_eq!(span.row, 0);
    // Columns 3..6, center (3 + 6) / 2.
    assert_eq!(span.column, 4);
}

#[test]
fn four_byte_characters_count_two_units() {
    // The emoji is four bytes and two UTF-16 units.
    let doc = "\u{1F600} foo";
    let a = anchor("\u{1F600} foo", "foo", None);
    let span = resolve_anchor(doc, &a).unwrap();
    assert_eq!(span.start, 5);
    assert_eq!(span.end, 8);
    // Columns 3..6, center 4.
    assert_eq!(span.column, 4);
}

#[test]
fn multi_row_token_reports_start_column() {
    let doc = "xx a\nb yy";
    let a = anchor("a\nb", "a\nb", None);
    let span = resolve_anchor(doc, &a).unwrap();
    assert_eq!(span.start, 3);
    assert_eq!(span.end, 6);
    assert_eq!(span.row, 0);
    assert_eq!(span.column, 3);
}
