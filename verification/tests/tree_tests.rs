//! Tests of the typed-tree builder and the renderers, on trees built by
//! hand.

use vimdoc::types::{Codeblock, FromCursorError, HelpFile, LineLiChild, Report, H3};
use vimdoc::types::Argument;
use vimdoc::{CstNode, DebugString, HtmlString, Point};
use vimdoc::convert::{pretty_print, tree_into_debug_string};
use vimdoc::NodeType;
use vimdoc::{Converter, ConverterOpt, StringJoiner};
use vimdoc::convert::DebugRenderer;

fn pt(row: usize, column: usize) -> Point {
    Point { row, column }
}

fn leaf(kind: &str, text: &str) -> CstNode {
    CstNode {
        kind: kind.to_string(),
        named: true,
        error: false,
        missing: false,
        start: pt(0, 0),
        end: pt(0, text.chars().count()),
        text: text.to_string(),
        children: Vec::new(),
    }
}

fn node(kind: &str, text: &str, children: Vec<CstNode>) -> CstNode {
    CstNode {
        kind: kind.to_string(),
        named: true,
        error: false,
        missing: false,
        start: pt(0, 0),
        end: pt(0, 0),
        text: text.to_string(),
        children,
    }
}

fn error_node(kind: &str, text: &str) -> CstNode {
    let mut n = leaf(kind, text);
    n.error = true;
    n
}

#[test]
fn h3_without_name_is_missing_field() {
    let h3 = node("h3", "", Vec::new());
    let mut diag: Vec<Report> = Vec::new();
    match H3::from_cursor(&h3, &mut diag) {
        Err(FromCursorError::MissingField { name, node_kind, .. }) => {
            assert_eq!(name, "name");
            assert_eq!(node_kind, "h3");
        },
        other => panic!("expected MissingField, got {:?}", other),
    }
    assert!(diag.is_empty());
}

#[test]
fn argument_with_two_children_is_too_many() {
    let arg = node("argument", "", vec![leaf("word", "a"), leaf("word", "b")]);
    match Argument::from_cursor(&arg) {
        Err(FromCursorError::TooManyChildren { expected, actual, node_kind, .. }) => {
            assert_eq!(expected, 1);
            assert_eq!(actual, 2);
            assert_eq!(node_kind, "argument");
        },
        other => panic!("expected TooManyChildren, got {:?}", other),
    }
}

#[test]
fn argument_without_children_is_missing_field() {
    let arg = node("argument", "", Vec::new());
    match Argument::from_cursor(&arg) {
        Err(FromCursorError::MissingField { name, .. }) => {
            assert_eq!(name, "text");
        },
        other => panic!("expected MissingField, got {:?}", other),
    }
}

#[test]
fn argument_with_wrong_child_is_type_error() {
    let arg = node("argument", "", vec![leaf("tag", "*x*")]);
    match Argument::from_cursor(&arg) {
        Err(FromCursorError::TypeError { expected, actual, .. }) => {
            assert_eq!(expected, "word");
            assert_eq!(actual, "tag");
        },
        other => panic!("expected TypeError, got {:?}", other),
    }
}

#[test]
fn wrong_kind_is_type_error() {
    let n = leaf("banana", "?");
    let mut diag: Vec<Report> = Vec::new();
    match HelpFile::from_cursor(&n, &mut diag) {
        Err(FromCursorError::TypeError { expected, actual, .. }) => {
            assert_eq!(expected, "help_file");
            assert_eq!(actual, "banana");
        },
        other => panic!("expected TypeError, got {:?}", other),
    }
}

#[test]
fn codeblock_with_language() {
    let cb = node(
        "codeblock",
        "",
        vec![leaf("language", "vim"), node("line", "", vec![leaf("word", "set")]), node(
            "line",
            "",
            vec![leaf("word", "rtp")],
        )],
    );
    let mut diag: Vec<Report> = Vec::new();
    let built = Codeblock::from_cursor(&cb, &mut diag).expect("build failed");
    assert!(diag.is_empty());
    match built.language {
        Some(l) => assert_eq!(l.0, "vim"),
        None => panic!("language expected"),
    }
    assert_eq!(built.children.len(), 2);
}

#[test]
fn codeblock_without_language() {
    let cb = node(
        "codeblock",
        "",
        vec![node("line", "", vec![leaf("word", "a")]), node("line", "", vec![leaf("word", "b")])],
    );
    let mut diag: Vec<Report> = Vec::new();
    let built = Codeblock::from_cursor(&cb, &mut diag).expect("build failed");
    assert!(built.language.is_none());
    assert_eq!(built.children.len(), 2);
}

#[test]
fn malformed_children_are_skipped_and_reported() {
    let hf = node(
        "help_file",
        "",
        vec![
            node("block", "", vec![node("line", "", vec![leaf("word", "ok")])]),
            error_node("ERROR", "broken"),
            node("block", "", vec![node("line", "", vec![leaf("word", "fine")])]),
        ],
    );
    let mut diag: Vec<Report> = Vec::new();
    let built = HelpFile::from_cursor(&hf, &mut diag).expect("build failed");
    assert_eq!(built.children.len(), 2);
    assert_eq!(diag.len(), 1);
    assert_eq!(diag[0].kind, "ERROR");
    assert_eq!(diag[0].text, "broken");
}

#[test]
fn builder_succeeds_on_valid_tree() {
    let hf = node(
        "help_file",
        "",
        vec![node(
            "block",
            "",
            vec![node("line", "", vec![leaf("word", "alpha"), leaf("word", "beta")])],
        )],
    );
    let mut diag: Vec<Report> = Vec::new();
    let built = HelpFile::from_cursor(&hf, &mut diag).expect("build failed");
    assert!(diag.is_empty());
    assert_eq!(built.children.len(), 1);
    assert_eq!(built.children[0].children.len(), 1);
}

#[test]
fn line_li_child_alternatives() {
    let li = node("line_li", "", vec![node("line", "", vec![leaf("word", "item")])]);
    let mut diag: Vec<Report> = Vec::new();
    let built = vimdoc::types::LineLi::from_cursor(&li, &mut diag).expect("build failed");
    assert_eq!(built.children.len(), 1);
    match &built.children[0] {
        LineLiChild::Line(l) => assert_eq!(l.children.len(), 1),
        other => panic!("expected a line child, got {:?}", other),
    }
}

#[test]
fn html_simple_paragraph() {
    let hf = node(
        "help_file",
        "",
        vec![node("block", "", vec![node("line", "", vec![leaf("word", "hello")])])],
    );
    let html = HtmlString::render(&hf, false);
    assert_eq!(html.as_str(), "<div class=\"help-para\">\nhello\n\n</div>\n");
}

#[test]
fn html_escapes_raw_text() {
    let hf = node(
        "help_file",
        "",
        vec![node("block", "", vec![node("line", "", vec![leaf("word", "a<b&c>d")])])],
    );
    let html = HtmlString::render(&hf, false);
    assert_eq!(html.as_str(), "<div class=\"help-para\">\na&lt;b&amp;c&gt;d\n\n</div>\n");
}

#[test]
fn html_url_splits_trailing_punctuation() {
    let url = node("url", "", vec![leaf("word", "https://example.com).")]);
    let line = node("line", "", vec![url]);
    let hf = node("help_file", "", vec![node("block", "", vec![line])]);
    let html = HtmlString::render(&hf, false);
    assert_eq!(
        html.as_str(),
        "<div class=\"help-para\">\n<a href=\"https://example.com\">https://example.com</a>).\n\n</div>\n"
    );
}

#[test]
fn html_rendering_is_idempotent() {
    let hf = node(
        "help_file",
        "",
        vec![node("block", "", vec![node("line", "", vec![leaf("word", "stable")])])],
    );
    let first = HtmlString::render(&hf, false);
    let second = HtmlString::render(&hf, false);
    assert_eq!(first.as_str(), second.as_str());
}

#[test]
fn html_noise_heading_is_suppressed() {
    let heading = node("h1", "", vec![leaf("word", "NVIM REFERENCE MANUAL")]);
    let line = node("line", "", vec![heading]);
    let hf = node("help_file", "", vec![node("block", "", vec![line])]);
    let html = HtmlString::render(&hf, false);
    // The heading renders empty; the line around it is blank and renders
    // empty too, so only the enclosing block remains, itself blank.
    assert_eq!(html.as_str(), "");
}

#[test]
fn html_heading_anchor_from_tag() {
    let heading = node(
        "h1",
        "",
        vec![leaf("word", "Intro"), node("tag", "*intro*", vec![leaf("word", "intro")])],
    );
    let line = node("line", "", vec![heading]);
    let hf = node("help_file", "", vec![node("block", "", vec![line])]);
    let html = HtmlString::render(&hf, false);
    assert_eq!(
        html.as_str(),
        "<div class=\"help-para\">\n<a name=\"intro\"></a><h2 class=\"help-heading\">Intro <code>intro</code></h2>\n\n</div>\n"
    );
}

#[test]
fn html_code_consumes_language() {
    let cb = node(
        "codeblock",
        "",
        vec![leaf("language", "vim"), leaf("code", "    set rtp\n")],
    );
    let line = node("line", "", vec![cb]);
    let hf = node("help_file", "", vec![node("block", "", vec![line])]);
    let html = HtmlString::render(&hf, false);
    assert_eq!(
        html.as_str(),
        "<div class=\"help-para\">\n <pre><code class=\"language-vim\">set rtp</code></pre>\n\n</div>\n"
    );
}

#[test]
fn html_list_indentation_follows_columns() {
    // Columns 0, 2, 4, 2: levels 1, 2, 3, 2.
    let lis = vec![
        {
            let mut l = node("line_li", "", vec![node("line", "", vec![leaf("word", "a")])]);
            l.start = pt(0, 0);
            l
        },
        {
            let mut l = node("line_li", "", vec![node("line", "", vec![leaf("word", "b")])]);
            l.start = pt(1, 2);
            l
        },
        {
            let mut l = node("line_li", "", vec![node("line", "", vec![leaf("word", "c")])]);
            l.start = pt(2, 4);
            l
        },
        {
            let mut l = node("line_li", "", vec![node("line", "", vec![leaf("word", "d")])]);
            l.start = pt(3, 2);
            l
        },
    ];
    let block = node("block", "", lis);
    let hf = node("help_file", "", vec![block]);
    let html = HtmlString::render(&hf, false);
    let expected = "<div class=\"help-para\">\n<div class=\"help-li\">a\n</div>\n <div class=\"help-li\" style=\"margin-left:1em;\">b\n</div>\n <div class=\"help-li\" style=\"margin-left:2em;\">c\n</div>\n <div class=\"help-li\" style=\"margin-left:1em;\">d\n</div>\n\n</div>\n";
    assert_eq!(html.as_str(), expected);
}

#[test]
fn html_error_marker_for_unknown_kind() {
    let bad = error_node("ERROR", "this text is rather long");
    let html = HtmlString::render(&bad, false);
    assert_eq!(html.as_str(), "{ERROR: this text }");
}

#[test]
fn html_error_passthrough_for_ignorable() {
    let bad = error_node("ERROR", "|unclosed");
    let html = HtmlString::render(&bad, false);
    assert_eq!(html.as_str(), "|unclosed");
}

#[test]
fn html_subtree_error_falls_back_to_raw_text() {
    // A tree with an error anywhere beneath renders as its own escaped
    // raw text rather than from its children.
    let hf = node("help_file", "a & b", vec![error_node("ERROR", "broken")]);
    let html = HtmlString::render(&hf, false);
    assert_eq!(html.as_str(), "a &amp; b");
}

#[test]
fn debug_dump_single_leaf() {
    let mut w = leaf("word", "hi");
    w.end = pt(0, 2);
    let dump = DebugString::from_cst(&w);
    assert_eq!(dump.as_str(), "Kind: \"word\" [Row:0, Col:0] - [Row:0, Col:2] = \"hi\"");
}

#[test]
fn debug_dump_truncates_text() {
    let mut w = leaf("word", "a very long text indeed");
    w.end = pt(0, 23);
    let dump = DebugString::from_cst(&w);
    assert_eq!(
        dump.as_str(),
        "Kind: \"word\" [Row:0, Col:0] - [Row:0, Col:23] = \"a very lon\" [trimmed]"
    );
}

#[test]
fn debug_dump_nested_tree() {
    let hf = node("help_file", "x", vec![node("block", "x", vec![leaf("word", "x")])]);
    let dump = DebugString::from_cst(&hf);
    let expected = "Kind: \"help_file\" [Row:0, Col:0] - [Row:0, Col:0] = \"x\"\n    Kind: \"block\" [Row:0, Col:0] - [Row:0, Col:0] = \"x\"\n        Kind: \"word\" [Row:0, Col:0] - [Row:0, Col:1] = \"x\"";
    assert_eq!(dump.as_str(), expected);
}

#[test]
fn outline_dump() {
    let hf = node("help_file", "", vec![leaf("word", "w")]);
    let dump = tree_into_debug_string(&hf);
    let expected = "Kind: \"help_file\" [Row:0, Col:0] - [Row:0, Col:0]\n    Kind: \"word\" [Row:0, Col:0] - [Row:0, Col:1]";
    assert_eq!(dump, expected);
}

#[test]
fn pretty_print_includes_anonymous() {
    let mut anon = leaf("<", "<");
    anon.named = false;
    let hf = node("help_file", "", vec![anon]);
    let named_only = pretty_print(&hf, false);
    assert_eq!(named_only, "Kind: \"help_file\" [Row:0, Col:0] - [Row:0, Col:0]");
    let all = pretty_print(&hf, true);
    let expected = "Kind: \"help_file\" [Row:0, Col:0] - [Row:0, Col:0]\n  Kind: \"<\" [Row:0, Col:0] - [Row:0, Col:1]";
    assert_eq!(all, expected);
}

#[test]
fn node_type_round_trip() {
    assert_eq!(NodeType::from_kind("word"), Some(NodeType::Word));
    assert_eq!(NodeType::from_kind("line_li"), Some(NodeType::LineLi));
    assert_eq!(NodeType::from_kind("banana"), None);
    assert_eq!(NodeType::Word.as_kind_str(), "word");
    assert_eq!(NodeType::ColumnHeading.as_kind_str(), "column_heading");
}

#[test]
fn error_messages() {
    let h3 = node("h3", "", Vec::new());
    let mut diag: Vec<Report> = Vec::new();
    let e = H3::from_cursor(&h3, &mut diag).unwrap_err();
    assert_eq!(e.describe(), "[h3 @ (0, 0)] Missing name");

    let arg = node("argument", "", vec![leaf("word", "a"), leaf("word", "b")]);
    let e = Argument::from_cursor(&arg).unwrap_err();
    assert_eq!(e.describe(), "[argument @ (0, 0)] Expected 1 named children, but had 2");

    let n = leaf("banana", "?");
    let e = HelpFile::from_cursor(&n, &mut diag).unwrap_err();
    assert_eq!(e.describe(), "[@ (0, 0)] Expected help_file, but was actually banana");
}

#[test]
fn html_old_mode_paragraph() {
    let hf = node(
        "help_file",
        "",
        vec![node("block", "", vec![node("line", "", vec![leaf("word", "hello")])])],
    );
    let html = HtmlString::render(&hf, true);
    assert_eq!(html.as_str(), "<div class=\"old-help-para\">hello</div>\n");
}

#[test]
fn html_old_mode_heading_line_is_trimmed() {
    let h1 = node("h1", "", vec![leaf("word", "Title")]);
    let line = node("line", "", vec![h1]);
    let hf = node("help_file", "", vec![node("block", "", vec![line])]);
    let html = HtmlString::render(&hf, true);
    assert_eq!(
        html.as_str(),
        "<div class=\"old-help-para\"><h2 class=\"help-heading\">Title</h2></div>\n"
    );
}

#[test]
fn html_codespan_wraps_in_code() {
    let cs = node("codespan", "", vec![leaf("word", "x")]);
    let html = HtmlString::render(&cs, false);
    assert_eq!(html.as_str(), "<code>x</code>");
}

#[test]
fn html_keycode_escapes() {
    let kc = leaf("keycode", "<F5>");
    let html = HtmlString::render(&kc, false);
    assert_eq!(html.as_str(), "<code>&lt;F5&gt;</code>");
}

#[test]
fn html_tag_with_error_passes_through() {
    let tag = error_node("tag", "*x*");
    let html = HtmlString::render(&tag, false);
    assert_eq!(html.as_str(), "*x*");
}

#[test]
fn html_h3_heading() {
    let h3 = node("h3", "", vec![leaf("uppercase_name", "NAME"), leaf("word", "rest")]);
    let html = HtmlString::render(&h3, false);
    assert_eq!(html.as_str(), "<h3 class=\"help-heading\">NAME rest</h3>");
}

#[test]
fn converter_constructed_by_hand_matches_render() {
    let hf = node(
        "help_file",
        "",
        vec![node("block", "", vec![node("line", "", vec![leaf("word", "same")])])],
    );
    let c = Converter::new(ConverterOpt { joiner: StringJoiner::new(" "), old: false });
    let direct = HtmlString::from_cst(c, &hf);
    let stock = HtmlString::render(&hf, false);
    assert_eq!(direct.as_str(), stock.as_str());
}

#[test]
fn visit_children_renders_each_child() {
    let hf = node("help_file", "", vec![leaf("word", "a"), leaf("word", "b")]);
    let mut r = DebugRenderer {};
    let out = vimdoc::visit::visit_children_named(&mut r, &hf, &StringJoiner::new("\n"));
    assert_eq!(
        out,
        "    Kind: \"word\" [Row:0, Col:0] - [Row:0, Col:1] = \"a\"\n    Kind: \"word\" [Row:0, Col:0] - [Row:0, Col:1] = \"b\""
    );
}

#[test]
fn visit_children_is_one_level_only() {
    // The block's grandchild word must not appear: each child is visited
    // once, with no rendered children handed to it and no descent.
    let block = node("block", "", vec![leaf("word", "hidden")]);
    let hf = node("help_file", "", vec![block]);
    let mut r = DebugRenderer {};
    let out = vimdoc::visit::visit_children_named(&mut r, &hf, &StringJoiner::new("\n"));
    assert_eq!(out, "    Kind: \"block\" [Row:0, Col:0] - [Row:0, Col:0] = \"\"");
    assert!(!out.contains("hidden"));
}

#[test]
fn unnamed_root_is_not_visited() {
    // A root that fails the named-only filter is skipped entirely: the
    // walk visits nothing and yields the join of an empty sequence.
    let mut bad = error_node("ERROR", "broken");
    bad.named = false;
    assert_eq!(HtmlString::render(&bad, false).as_str(), "");
    assert_eq!(DebugString::from_cst(&bad).as_str(), "");
    assert_eq!(pretty_print(&bad, false), "");
    // In all-nodes mode the same root is visited.
    assert_eq!(pretty_print(&bad, true), "Kind: \"ERROR\" [Row:0, Col:0] - [Row:0, Col:6]");
}

#[test]
fn debug_dump_quotes_special_characters() {
    let mut w = leaf("word", "a\"b\nc");
    w.end = pt(1, 1);
    let dump = DebugString::from_cst(&w);
    assert_eq!(dump.as_str(), "Kind: \"word\" [Row:0, Col:0] - [Row:1, Col:1] = \"a\\\"b\\nc\"");
    let mut w2 = leaf("word", "a\tb\rc");
    w2.end = pt(0, 5);
    let dump2 = DebugString::from_cst(&w2);
    assert_eq!(dump2.as_str(), "Kind: \"word\" [Row:0, Col:0] - [Row:0, Col:5] = \"a\\tb\\rc\"");
}
