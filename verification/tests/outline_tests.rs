use contextual_anchor::outline::{
    get_buffer_content_or_outline, render_entries, render_outline, InvalidFilter, SymbolItem,
    AUTO_OUTLINE_SIZE, FALLBACK_PREFIX_SIZE,
};

fn item(text: &str, depth: usize, start_row: u32, end_row: u32) -> SymbolItem {
    SymbolItem {
        display_text: text.into(),
        depth,
        start_row,
        end_row,
        snippet: None,
    }
}

fn five_items() -> Vec<SymbolItem> {
    vec![
        item("one", 0, 0, 0),
        item("two", 0, 1, 1),
        item("three", 0, 2, 2),
        item("four", 0, 3, 3),
        item("five", 0, 4, 4),
    ]
}

#[test]
fn first_page_footer_points_at_next_offset() {
    let out = render_outline(&five_items(), None, 0, 3).unwrap();
    assert_eq!(
        out,
        "one [L1]\ntwo [L2]\nthree [L3]\n\nShowing symbols 1-3 (there were more symbols found; use offset: 3 to see next page)\n"
    );
}

#[test]
fn last_page_footer_reports_total() {
    let out = render_outline(&five_items(), None, 3, 3).unwrap();
    assert_eq!(
        out,
        "four [L4]\nfive [L5]\n\nShowing symbols 4-5 (total symbols: 5)\n"
    );
}

#[test]
fn offset_beyond_end_renders_empty_page() {
    let out = render_outline(&five_items(), None, 9, 3).unwrap();
    assert_eq!(out, "\nShowing symbols 10-9 (total symbols: 9)\n");
}

#[test]
fn filter_keeps_matching_display_texts() {
    let items = vec![item("alpha", 0, 0, 0), item("beta", 0, 1, 1), item("alphabet", 0, 2, 2)];
    let out = render_outline(&items, Some("alph"), 0, 10).unwrap();
    assert_eq!(
        out,
        "alpha [L1]\nalphabet [L3]\n\nShowing symbols 1-2 (total symbols: 2)\n"
    );
}

#[test]
fn filter_page_stops_after_requested_results() {
    let items = vec![item("alpha", 0, 0, 0), item("beta", 0, 1, 1), item("alphabet", 0, 2, 2)];
    let out = render_outline(&items, Some("a"), 0, 1).unwrap();
    assert_eq!(
        out,
        "alpha [L1]\n\nShowing symbols 1-1 (there were more symbols found; use offset: 1 to see next page)\n"
    );
}

#[test]
fn invalid_filter_pattern_is_rejected() {
    assert_eq!(render_outline(&five_items(), Some("("), 0, 3), Err(InvalidFilter));
}

#[test]
fn entries_render_snippets_depth_and_row_ranges() {
    let mut items = vec![item("f", 2, 4, 9)];
    items[0].snippet = Some("  fn f(x: u32) {  \nrest of the source".into());
    let mut out = String::new();
    let n = render_entries(&mut out, &items);
    assert_eq!(n, 1);
    assert_eq!(out, "  fn f(x: u32) { [L5-10]\n");
}

#[test]
fn blank_snippet_renders_nothing_in_place_of_the_body() {
    let mut items = vec![item("name", 1, 0, 0)];
    items[0].snippet = Some("   \nlater content".into());
    let mut out = String::new();
    render_entries(&mut out, &items);
    assert_eq!(out, "  [L1]\n");
}

#[test]
fn small_document_returns_verbatim_text() {
    let text = String::from("fn main() {}\n");
    let items = five_items();
    let r = get_buffer_content_or_outline(&text, Some("src/main.rs"), &items);
    assert!(!r.is_outline);
    assert_eq!(r.text, text);
}

#[test]
fn document_at_threshold_returns_verbatim_text() {
    let text = "a".repeat(AUTO_OUTLINE_SIZE);
    let r = get_buffer_content_or_outline(&text, None, &Vec::new());
    assert!(!r.is_outline);
    assert_eq!(r.text, text);
}

#[test]
fn large_document_with_outline_renders_it_under_a_header() {
    let text = "x".repeat(AUTO_OUTLINE_SIZE + 1);
    let items = vec![item("one", 0, 0, 0)];
    let r = get_buffer_content_or_outline(&text, Some("src/x.rs"), &items);
    assert!(r.is_outline);
    assert_eq!(
        r.text,
        "# File outline for src/x.rs\n\none [L1]\n\nShowing symbols 1-1 (total symbols: 1)\n"
    );
}

#[test]
fn large_document_without_outline_falls_back_to_prefix() {
    let mut text = "a".repeat(1023);
    text.push_str(&"\u{26A1}".repeat(6000));
    assert!(text.len() > AUTO_OUTLINE_SIZE);
    let r = get_buffer_content_or_outline(&text, None, &Vec::new());
    assert!(!r.is_outline);
    // The lightning bolt is three bytes, so the prefix stops at 1023 bytes
    // rather than splitting it.
    let expected = format!(
        "# First 1KB of file (file too large to show full content, and no outline available)\n\n{}",
        "a".repeat(1023)
    );
    assert_eq!(r.text, expected);
}

#[test]
fn fallback_prefix_names_the_document_when_a_path_is_known() {
    let text = "b".repeat(AUTO_OUTLINE_SIZE + 100);
    let r = get_buffer_content_or_outline(&text, Some("big.txt"), &Vec::new());
    assert!(!r.is_outline);
    let expected = format!(
        "# First 1KB of big.txt (file too large to show full content, and no outline available)\n\n{}",
        "b".repeat(FALLBACK_PREFIX_SIZE)
    );
    assert_eq!(r.text, expected);
}

#[test]
fn test_large_file_fallback_to_subset() {
    let content = "\u{26A1}".repeat(100 * 1024);
    let content_len = content.len();
    let result = get_buffer_content_or_outline(&content, None, &Vec::new());

    assert!(
        result.text.contains("\u{26A1}\u{26A1}\u{26A1}\u{26A1}\u{26A1}\u{26A1}\u{26A1}"),
        "Result did not contain content subset"
    );
    assert!(
        !result.is_outline,
        "Large file without outline should not be marked as outline"
    );
    assert!(
        result.text.len() < 50 * 1024,
        "Result size {} should be smaller than 50KB",
        result.text.len()
    );
    assert!(
        result.text.len() < content_len / 10,
        "Result should be much smaller than original content"
    );
}
