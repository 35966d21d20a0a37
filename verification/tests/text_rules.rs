//! Tests of the pure text rules.

use vimdoc::utils::{
    fix_url, ignore_invalid, ignore_parse_error, is_blank, is_noise, str_eq, trim_indent,
    truncate_str, usize_to_string,
};

#[test]
fn blank_detection() {
    assert!(is_blank(""));
    assert!(is_blank(" \t \t"));
    assert!(!is_blank(" a "));
    assert!(!is_blank("\n"));
}

#[test]
fn noise_title_line() {
    assert!(is_noise("NVIM REFERENCE MANUAL    by The Neovim Project"));
    assert!(is_noise("VIM REFERENCE MANUAL"));
    assert!(is_noise("   NVIM  REFERENCE  MANUAL"));
}

#[test]
fn noise_help_first_line() {
    assert!(is_noise("*api.txt*   Nvim"));
    assert!(is_noise("*help.txt*\tNvim"));
    assert!(is_noise("api.txt   vim  "));
}

#[test]
fn noise_toc_hint() {
    assert!(is_noise("Type |gO| to see the table of contents."));
    assert!(is_noise("Type  gO  to see the table of contents"));
    assert!(!is_noise("Type something else entirely"));
}

#[test]
fn noise_modeline() {
    assert!(is_noise(" vim:tw=78:ts=8:sw=4:sts=4:et:ft=help:norl:"));
    assert!(is_noise("vi:filetype=help"));
    assert!(is_noise("see *local-additions* for more"));
    assert!(!is_noise("vim is a text editor"));
}

#[test]
fn noise_rejects_prose() {
    assert!(!is_noise("An ordinary prose sentence about editing."));
    assert!(!is_noise(""));
}

#[test]
fn url_trailing_punctuation() {
    let (head, tail) = fix_url("https://example.com).");
    assert_eq!(head, "https://example.com");
    assert_eq!(tail, ").");
}

#[test]
fn url_single_trailers() {
    assert_eq!(fix_url("https://a.b."), ("https://a.b", "."));
    assert_eq!(fix_url("https://a.b)"), ("https://a.b", ")"));
    assert_eq!(fix_url("https://a.b"), ("https://a.b", ""));
    assert_eq!(fix_url(""), ("", ""));
    // The `.` test comes first, then `)` against the shortened string.
    assert_eq!(fix_url("x.)"), ("x.", ")"));
    assert_eq!(fix_url("x)."), ("x", ")."));
}

#[test]
fn indent_trimming() {
    assert_eq!(trim_indent("  a\n    b\n  c", 8), "a\n  b\nc");
}

#[test]
fn indent_trimming_crlf() {
    // A carriage return before a newline is dropped with it, as a CRLF
    // line ending; a lone final carriage return is kept.
    assert_eq!(trim_indent("  a\r\n  b", 8), "a\nb");
    assert_eq!(trim_indent("a\r\nb\r\n", 4), "a\nb");
}

#[test]
fn indent_trimming_tabs() {
    // A tab becomes two spaces here, so the common indent is two.
    assert_eq!(trim_indent("\ta\n  b", 2), "a\nb");
    assert_eq!(trim_indent("", 8), "");
    // An unindented line keeps every other line as it is.
    assert_eq!(trim_indent("a\n  b", 8), "a\n  b");
}

#[test]
fn truncation_is_character_based() {
    assert_eq!(truncate_str("hello world", 10), "hello worl");
    assert_eq!(truncate_str("short", 10), "short");
    assert_eq!(truncate_str("ééééééééééé", 10), "éééééééééé");
}

#[test]
fn parse_error_ignoring() {
    assert!(ignore_parse_error("`code"));
    assert!(ignore_parse_error("'opt"));
    assert!(ignore_parse_error("|link"));
    assert!(ignore_parse_error("*tag"));
    assert!(!ignore_parse_error("plain"));
    assert!(!ignore_parse_error(""));
}

#[test]
fn invalid_tag_ignoring() {
    assert!(ignore_invalid("'previewpopup'"));
    assert!(ignore_invalid("vim.treesitter.start()"));
    assert!(ignore_invalid("=== ruler ==="));
    assert!(ignore_invalid("----"));
    assert!(!ignore_invalid("some-tag"));
}

#[test]
fn string_comparison() {
    assert!(str_eq("abc", "abc"));
    assert!(!str_eq("abc", "abd"));
    assert!(!str_eq("abc", "ab"));
}

#[test]
fn number_formatting() {
    assert_eq!(usize_to_string(0), "0");
    assert_eq!(usize_to_string(42), "42");
    assert_eq!(usize_to_string(1007), "1007");
}
