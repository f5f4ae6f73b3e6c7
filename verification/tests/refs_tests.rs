use contextual_anchor::anchor::ContextualAnchor;
use contextual_anchor::refs::{
    excerpt_from_line, make_location, prepare_reference_lookup, snippet_window,
    FindReferencesLocation, FindReferencesToolOutput,
};

fn anchor(context_str: &str, token: &str, index: Option<usize>) -> ContextualAnchor {
    ContextualAnchor {
        path: "a.rs".into(),
        context_str: context_str.into(),
        token: token.into(),
        index,
    }
}

#[test]
fn lookup_position_for_end_to_end_anchor() {
    let context = "fn example(foo: i32) -> i32 { foo + 1 }";
    let doc = format!("// header\n{}\n// tail\n", context);
    let span = prepare_reference_lookup(&doc, &anchor(context, "foo", Some(2))).unwrap();
    assert_eq!(span.start, 40);
    assert_eq!(span.row, 1);
    assert_eq!(span.column, 31);
}

#[test]
fn invalid_anchor_becomes_a_validation_diagnostic() {
    let doc = "something";
    let msg = prepare_reference_lookup(&doc, &anchor("something", "", None)).unwrap_err();
    assert_eq!(msg, "Contextual anchor validation failed: token is empty");
}

#[test]
fn unmatched_context_becomes_a_diagnostic() {
    let doc = "nothing interesting here";
    let msg =
        prepare_reference_lookup(&doc, &anchor("absent snippet", "snippet", None)).unwrap_err();
    assert_eq!(msg, "No occurrences of the provided context_str were found");
}

#[test]
fn repeated_context_becomes_a_diagnostic() {
    let doc = "foo bar\nfoo bar\n";
    let msg = prepare_reference_lookup(&doc, &anchor("foo bar", "bar", None)).unwrap_err();
    assert_eq!(
        msg,
        "Multiple occurrences of the provided context_str were found; contextual anchors must be unique"
    );
}

#[test]
fn repeated_token_without_index_becomes_a_diagnostic() {
    let doc = "fn example(foo: i32) -> i32 { foo + 1 }";
    let msg = prepare_reference_lookup(&doc, &anchor(doc, "foo", None)).unwrap_err();
    assert_eq!(
        msg,
        "Multiple occurrences of token `foo` found inside context; provide index to disambiguate"
    );
}

#[test]
fn out_of_range_index_becomes_a_diagnostic() {
    let doc = "fn example(foo: i32) -> i32 { foo + 1 }";
    let msg = prepare_reference_lookup(&doc, &anchor(doc, "foo", Some(3))).unwrap_err();
    assert_eq!(
        msg,
        "selection_index 3 out of range: token occurrences inside context = 2"
    );
}

#[test]
fn snippet_window_clamps_at_document_start() {
    assert_eq!(snippet_window(20), (3, 34));
    assert_eq!(snippet_window(5), (0, 19));
    assert_eq!(snippet_window(0), (0, 14));
}

#[test]
fn excerpts_drop_trailing_line_terminators() {
    assert_eq!(
        excerpt_from_line("let x = 1;\r\n"),
        Some(String::from("let x = 1;"))
    );
    assert_eq!(excerpt_from_line("\r\n"), None);
    assert_eq!(excerpt_from_line(""), None);
}

#[test]
fn locations_carry_bounds_and_excerpt() {
    let loc = make_location("src/lib.rs", 3, 7, 3, 12, "    let value = 42;\n");
    assert_eq!(loc.path, "src/lib.rs");
    assert_eq!(loc.start_line, 3);
    assert_eq!(loc.start_character, 7);
    assert_eq!(loc.end_line, 3);
    assert_eq!(loc.end_character, 12);
    assert_eq!(loc.excerpt, Some(String::from("    let value = 42;")));
}

#[test]
fn empty_output_renders_fixed_sentence() {
    let out = FindReferencesToolOutput { locations: Vec::new() };
    assert_eq!(out.to_text(), "No references found");
}

#[test]
fn output_renders_one_line_per_location() {
    let out = FindReferencesToolOutput {
        locations: vec![
            FindReferencesLocation {
                path: "src/lib.rs".into(),
                start_line: 3,
                start_character: 7,
                end_line: 3,
                end_character: 12,
                excerpt: Some("let value = 42;".into()),
            },
            FindReferencesLocation {
                path: "src/other.rs".into(),
                start_line: 10,
                start_character: 0,
                end_line: 11,
                end_character: 4,
                excerpt: None,
            },
        ],
    };
    assert_eq!(
        out.to_text(),
        "Found 2 references:\n- src/lib.rs:3:7 - 3:12: let value = 42;\n- src/other.rs:10:0 - 11:4"
    );
}
