use contextual_anchor::number::u64_to_string;
use contextual_anchor::textutil::{first_line, signature_snippet, trim_str, trim_trailing_newlines};

#[test]
fn decimal_rendering_is_exact() {
    assert_eq!(u64_to_string(0), "0");
    assert_eq!(u64_to_string(7), "7");
    assert_eq!(u64_to_string(10), "10");
    assert_eq!(u64_to_string(12345), "12345");
    assert_eq!(u64_to_string(u64::MAX), "18446744073709551615");
}

#[test]
fn trimming_matches_std() {
    assert_eq!(trim_str("  fn f() {  "), "fn f() {");
    assert_eq!(trim_str("\t\r\n x \u{a0}"), "x");
    assert_eq!(trim_str("   "), "");
    assert_eq!(trim_str(""), "");
    assert_eq!(trim_str("already"), "already");
}

#[test]
fn first_line_matches_std_lines() {
    assert_eq!(first_line("one\ntwo"), "one");
    assert_eq!(first_line("one\r\ntwo"), "one");
    assert_eq!(first_line("single"), "single");
    assert_eq!(first_line(""), "");
}

#[test]
fn snippets_take_the_trimmed_first_line() {
    assert_eq!(
        signature_snippet("  fn f(x: u32) {\n    body\n"),
        Some(String::from("fn f(x: u32) {"))
    );
    assert_eq!(signature_snippet("   \nlater"), None);
    assert_eq!(signature_snippet(""), None);
}

#[test]
fn trailing_newline_trimming_keeps_inner_breaks() {
    assert_eq!(trim_trailing_newlines("a\nb\r\n\r\n"), "a\nb");
    assert_eq!(trim_trailing_newlines("plain"), "plain");
}
