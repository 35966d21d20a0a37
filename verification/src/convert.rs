//! Rendering rules. [`Converter`] turns a CST into HTML by visiting
//! every named node bottom-up through the traversal engine, carrying the
//! cross-node state the rules need: the language tag captured from the
//! last `language` node, and the nesting level of list items.

mod debug;
mod html;

pub use debug::DebugRenderer;
pub use debug::DebugString;
pub use debug::OutlineRenderer;
pub use debug::PrettyRenderer;
pub use debug::pretty_print;
pub use debug::tree_into_debug_string;
pub use html::HtmlString;

use vstd::prelude::*;

verus! {

use crate::cst::CstNode;
use crate::cst::NodeType;
use crate::cst::spec_any_named;
use crate::cst::spec_has_error;
use crate::cst::spec_node_type_of;
use crate::types::first_named_idx;
use crate::utils::fix_url;
use crate::utils::is_blank;
use crate::utils::is_noise;
use crate::utils::spec_escape;
use crate::utils::spec_fix_url;
use crate::utils::spec_digits;
use crate::utils::spec_ignore_parse_error;
use crate::utils::spec_is_blank;
use crate::utils::spec_is_noise;
use crate::utils::spec_trim_end;
use crate::utils::spec_trim_indent;
use crate::utils::spec_trim_start;
use crate::utils::spec_truncate;
use crate::utils::spec_strip_stars;
use crate::utils::str_eq;
use crate::utils::strip_stars;
use crate::utils::trim_end_str;
use crate::utils::trim_start_str;
use crate::utils::trim_indent;
use crate::utils::truncate_str;
use crate::utils::usize_to_string;
use crate::utils::ignore_parse_error;
use crate::visit::Context;
use crate::visit::Joiner;
use crate::visit::Visitor;
use vstd::string::StringExecFns;

/// Options for the converter: the joiner for sibling outputs and the
/// legacy-rendering toggle.
pub struct ConverterOpt<T> {
    pub joiner: T,
    pub old: bool,
}

/// State carried across node visits: the language captured from the last
/// `language` node, and the list-indentation tracking.
#[derive(Debug)]
pub struct ConverterState {
    /// The language tag waiting to be consumed by the next `code` node.
    pub language: Option<String>,
    /// The current list-nesting level, at least 1.
    pub li_level: usize,
    /// The source column of the last rendered list item.
    pub last_li_col: Option<usize>,
}

/// The state a fresh converter starts from.
pub open spec fn spec_initial_state() -> ConverterState {
    ConverterState { language: None, li_level: 1, last_li_col: None }
}

impl Default for ConverterState {
    /// The initial converter state.
    fn default() -> (r: ConverterState)
        ensures
            r == spec_initial_state(),
    {
        ConverterState { language: None, li_level: 1, last_li_col: None }
    }
}

/// Converts a tree into HTML by visiting its nodes.
pub struct Converter<T> {
    pub opt: ConverterOpt<T>,
    pub state: ConverterState,
}

impl<T> Converter<T> {
    /// Makes a converter with the given options and a fresh state.
    pub fn new(opt: ConverterOpt<T>) -> (r: Converter<T>)
        ensures
            r.opt == opt,
            r.state == spec_initial_state(),
    {
        Converter { opt, state: ConverterState { language: None, li_level: 1, last_li_col: None } }
    }
}

/// The next list level: one deeper when this item starts further right
/// than the previous one, one shallower (never below 1) when it starts
/// further left, unchanged otherwise. The level saturates at the machine
/// word limit.
pub open spec fn spec_li_step(level: int, prev_col: int, col: int) -> int {
    if col > prev_col {
        if level < usize::MAX {
            level + 1
        } else {
            level
        }
    } else if col < prev_col {
        if level > 1 {
            level - 1
        } else {
            1
        }
    } else {
        level
    }
}

/// The raw text of the first descendant of kind `tag`, in pre-order.
pub open spec fn spec_first_tag(n: CstNode) -> Option<Seq<char>>
    decreases n, 1int,
{
    if n.kind@ == "tag"@ {
        Some(n.text@)
    } else {
        spec_first_tag_kids(n.children@)
    }
}

/// The first tag text found in the subtrees of `kids`.
pub open spec fn spec_first_tag_kids(kids: Seq<CstNode>) -> Option<Seq<char>>
    decreases kids, 2int,
{
    if kids.len() == 0 {
        None
    } else {
        match spec_first_tag(kids[0]) {
            Some(t) => Some(t),
            None => spec_first_tag_kids(kids.drop_first()),
        }
    }
}

/// Finds the raw text of the first `tag` descendant of `n`.
pub fn first_tag(n: &CstNode) -> (r: Option<String>)
    ensures
        match r {
            Some(s) => spec_first_tag(*n) == Some(s@),
            None => spec_first_tag(*n) is None,
        },
    decreases *n, 1int,
{
    if str_eq(n.kind.as_str(), "tag") {
        return Some(n.text.clone());
    }
    let m = n.children.len();
    let mut i: usize = 0;
    proof {
        assert(n.children@.skip(0) =~= n.children@);
    }
    while i < m
        invariant
            m == n.children@.len(),
            i <= m,
            n.kind@ != "tag"@,
            spec_first_tag_kids(n.children@) == spec_first_tag_kids(n.children@.skip(i as int)),
        decreases m - i,
    {
        proof {
            assert(n.children@.skip(i as int)[0] == n.children@[i as int]);
            assert(n.children@.skip(i as int).drop_first() =~= n.children@.skip(i as int + 1));
            assert(decreases_to!(*n => n.children));
            assert(decreases_to!(n.children => n.children@));
            assert(decreases_to!(n.children@ => n.children@[i as int]));
        }
        match first_tag(&n.children[i]) {
            Some(s) => {
                return Some(s);
            },
            None => {},
        }
        i += 1;
    }
    proof {
        assert(n.children@.skip(m as int) =~= Seq::<CstNode>::empty());
    }
    None
}

/// The anchor rendered before a heading: named after the heading's first
/// `tag` descendant (with its `*` delimiters removed), or empty when the
/// heading holds no tag.
pub open spec fn spec_anchor(n: CstNode) -> Seq<char> {
    match spec_first_tag(n) {
        Some(t) => "<a name=\""@ + spec_strip_stars(t) + "\"></a>"@,
        None => Seq::empty(),
    }
}

/// Renders the anchor for a heading node.
fn anchor_of(n: &CstNode) -> (r: String)
    ensures
        r@ == spec_anchor(*n),
{
    match first_tag(n) {
        Some(t) => {
            let mut s = String::from_str("<a name=\"");
            let stripped = strip_stars(t.as_str());
            s.append(stripped.as_str());
            s.append("\"></a>");
            proof {
                assert(s@ =~= spec_anchor(*n));
            }
            s
        },
        None => {
            let s = String::new();
            proof {
                assert(s@ =~= spec_anchor(*n));
            }
            s
        },
    }
}

/// True if the line's first named child is a heading or column heading.
pub open spec fn spec_line_leads_heading(n: CstNode) -> bool {
    let fi = first_named_idx(n.children@, 0);
    fi < n.children@.len() && {
        let k = n.children@[fi].kind@;
        k == "column_heading"@ || k == "h1"@ || k == "h2"@ || k == "h3"@
    }
}

/// Checks whether the line's first named child is a heading.
fn line_leads_heading(n: &CstNode) -> (r: bool)
    ensures
        r == spec_line_leads_heading(*n),
{
    let m = n.children.len();
    let mut i: usize = 0;
    while i < m && !n.children[i].named
        invariant
            m == n.children@.len(),
            i <= m,
            first_named_idx(n.children@, 0) == first_named_idx(n.children@, i as int),
        decreases m - i,
    {
        i += 1;
    }
    if i == m {
        return false;
    }
    let k = n.children[i].kind.as_str();
    str_eq(k, "column_heading") || str_eq(k, "h1") || str_eq(k, "h2") || str_eq(k, "h3")
}

impl<T: Joiner> Converter<T> {
    /// The kind-specific rendering of a recognised node: `text` is the
    /// base text (escaped raw text for leaves and errors, joined child
    /// outputs otherwise) and `trimmed` is the base text without leading
    /// whitespace.
    pub open spec fn spec_rule(
        self,
        t: NodeType,
        node: CstNode,
        parent: Option<CstNode>,
        prev: Option<CstNode>,
        has_err: bool,
        text: Seq<char>,
        trimmed: Seq<char>,
    ) -> (Seq<char>, Converter<T>) {
        if (t == NodeType::Block || t == NodeType::Code) && spec_is_blank(text) {
            (Seq::empty(), self)
        } else if (t == NodeType::ColumnHeading || t == NodeType::Codespan || t == NodeType::Keycode
            || t == NodeType::Tag) && has_err {
            (text, self)
        } else if (t == NodeType::H1 || t == NodeType::H2 || t == NodeType::H3) && spec_is_noise(
            text,
        ) {
            (Seq::empty(), self)
        } else if t == NodeType::Argument {
            ("<code>"@ + text + "</code>"@, self)
        } else if t == NodeType::Block {
            if self.opt.old {
                ("<div class=\"old-help-para\">"@ + spec_trim_end(text) + "</div>\n"@, self)
            } else {
                ("<div class=\"help-para\">\n"@ + text + "\n</div>\n"@, self)
            }
        } else if t == NodeType::Code {
            let body = spec_trim_end(spec_trim_indent(text, 8));
            match self.state.language {
                Some(l) => (
                    "<pre><code class=\"language-"@ + l@ + "\">"@ + body + "</code></pre>"@,
                    Converter {
                        state: ConverterState { language: None, ..self.state },
                        ..self
                    },
                ),
                None => ("<pre>"@ + body + "</pre>"@, self),
            }
        } else if t == NodeType::Codeblock {
            (text, self)
        } else if t == NodeType::Codespan {
            ("<code>"@ + trimmed + "</code>"@, self)
        } else if t == NodeType::ColumnHeading {
            ("<div class=\"help-column_heading\">"@ + text + "</div>"@, self)
        } else if t == NodeType::H1 {
            (spec_anchor(node) + "<h2 class=\"help-heading\">"@ + text + "</h2>"@, self)
        } else if t == NodeType::H2 || t == NodeType::H3 {
            (spec_anchor(node) + "<h3 class=\"help-heading\">"@ + text + "</h3>"@, self)
        } else if t == NodeType::HelpFile {
            (text, self)
        } else if t == NodeType::Keycode {
            ("<code>"@ + trimmed + "</code>"@, self)
        } else if t == NodeType::Language {
            (
                Seq::empty(),
                Converter {
                    state: ConverterState { language: Some(node.text), ..self.state },
                    ..self
                },
            )
        } else if t == NodeType::Line {
            let in_code = match parent {
                Some(p) => p.kind@ == "code"@ || p.kind@ == "codeblock"@,
                None => false,
            };
            if !in_code && (spec_is_blank(text) || spec_is_noise(text)) {
                (Seq::empty(), self)
            } else if self.opt.old && spec_line_leads_heading(node) {
                (trimmed, self)
            } else {
                (text.push('\n'), self)
            }
        } else if t == NodeType::LineLi {
            let col = node.start.column as int;
            let prev_is_li = match prev {
                Some(p) => p.kind@ == "line_li"@,
                None => false,
            };
            let lvl = if !prev_is_li {
                1int
            } else {
                match self.state.last_li_col {
                    Some(pc) => spec_li_step(self.state.li_level as int, pc as int, col),
                    None => 1int,
                }
            };
            let st2 = Converter {
                state: ConverterState {
                    li_level: lvl as usize,
                    last_li_col: Some(node.start.column),
                    ..self.state
                },
                ..self
            };
            if lvl > 1 {
                (
                    "<div class=\"help-li\" style=\"margin-left:"@ + spec_digits(lvl - 1)
                        + "em;\">"@ + text + "</div>\n"@,
                    st2,
                )
            } else {
                ("<div class=\"help-li\">"@ + text + "</div>\n"@, st2)
            }
        } else if t == NodeType::Optionlink || t == NodeType::Tag || t == NodeType::Taglink {
            ("<code>"@ + trimmed + "</code>"@, self)
        } else if t == NodeType::UppercaseName {
            (text, self)
        } else if t == NodeType::Url {
            let fu = spec_fix_url(trimmed);
            ("<a href=\""@ + fu.0 + "\">"@ + fu.0 + "</a>"@ + fu.1, self)
        } else {
            // NodeType::Word
            (text, self)
        }
    }
}

impl<T: Joiner> Visitor for Converter<T> {
    open spec fn spec_visit(
        self,
        node: CstNode,
        depth: int,
        parent: Option<CstNode>,
        prev: Option<CstNode>,
        kids: Seq<Seq<char>>,
    ) -> (Seq<char>, Converter<T>) {
        let has_err = spec_has_error(node);
        let text = if !spec_any_named(node.children@) || has_err {
            spec_escape(node.text@)
        } else {
            self.opt.joiner.spec_join(kids)
        };
        let trimmed = spec_trim_start(text);
        match spec_node_type_of(node.kind@) {
            Some(t) => self.spec_rule(t, node, parent, prev, has_err, text, trimmed),
            None => (
                if has_err && spec_ignore_parse_error(trimmed) {
                    text
                } else if has_err {
                    "{ERROR: "@ + spec_truncate(text, 10) + "}"@
                } else {
                    Seq::empty()
                },
                self,
            ),
        }
    }

    fn visit(&mut self, ctx: &Context, kids: Vec<String>) -> (out: String) {
        let has_err = ctx.has_error();
        let text: String = if !ctx.has_children() || has_err {
            ctx.node_clean_text()
        } else {
            self.opt.joiner.join(kids)
        };
        let trimmed: String = trim_start_str(text.as_str());
        let nt = ctx.node_type();
        match nt {
            Some(t) => {
                if (t == NodeType::Block || t == NodeType::Code) && is_blank(text.as_str()) {
                    return String::new();
                }
                if (t == NodeType::ColumnHeading || t == NodeType::Codespan || t
                    == NodeType::Keycode || t == NodeType::Tag) && has_err {
                    return text;
                }
                if (t == NodeType::H1 || t == NodeType::H2 || t == NodeType::H3) && is_noise(
                    text.as_str(),
                ) {
                    return String::new();
                }
                match t {
                    NodeType::Argument => {
                        let mut s = String::from_str("<code>");
                        s.append(text.as_str());
                        s.append("</code>");
                        proof {
                            assert(s@ =~= "<code>"@ + text@ + "</code>"@);
                        }
                        s
                    },
                    NodeType::Block => {
                        if self.opt.old {
                            let mut s = String::from_str("<div class=\"old-help-para\">");
                            let te = trim_end_str(text.as_str());
                            s.append(te.as_str());
                            s.append("</div>\n");
                            proof {
                                assert(s@ =~= "<div class=\"old-help-para\">"@ + spec_trim_end(
                                    text@,
                                ) + "</div>\n"@);
                            }
                            s
                        } else {
                            let mut s = String::from_str("<div class=\"help-para\">\n");
                            s.append(text.as_str());
                            s.append("\n</div>\n");
                            proof {
                                assert(s@ =~= "<div class=\"help-para\">\n"@ + text@
                                    + "\n</div>\n"@);
                            }
                            s
                        }
                    },
                    NodeType::Code => {
                        let ti = trim_indent(text.as_str(), 8);
                        let body = trim_end_str(ti.as_str());
                        match &self.state.language {
                            Some(l) => {
                                let mut s = String::from_str("<pre><code class=\"language-");
                                s.append(l.as_str());
                                s.append("\">");
                                s.append(body.as_str());
                                s.append("</code></pre>");
                                let ghost lv = l@;
                                self.state.language = None;
                                proof {
                                    assert(s@ =~= "<pre><code class=\"language-"@ + lv + "\">"@
                                        + spec_trim_end(spec_trim_indent(text@, 8))
                                        + "</code></pre>"@);
                                }
                                s
                            },
                            None => {
                                let mut s = String::from_str("<pre>");
                                s.append(body.as_str());
                                s.append("</pre>");
                                proof {
                                    assert(s@ =~= "<pre>"@ + spec_trim_end(
                                        spec_trim_indent(text@, 8),
                                    ) + "</pre>"@);
                                }
                                s
                            },
                        }
                    },
                    NodeType::Codeblock => text,
                    NodeType::Codespan => {
                        let mut s = String::from_str("<code>");
                        s.append(trimmed.as_str());
                        s.append("</code>");
                        proof {
                            assert(s@ =~= "<code>"@ + trimmed@ + "</code>"@);
                        }
                        s
                    },
                    NodeType::ColumnHeading => {
                        let mut s = String::from_str("<div class=\"help-column_heading\">");
                        s.append(text.as_str());
                        s.append("</div>");
                        proof {
                            assert(s@ =~= "<div class=\"help-column_heading\">"@ + text@
                                + "</div>"@);
                        }
                        s
                    },
                    NodeType::H1 => {
                        let mut s = anchor_of(ctx.node);
                        s.append("<h2 class=\"help-heading\">");
                        s.append(text.as_str());
                        s.append("</h2>");
                        proof {
                            assert(s@ =~= spec_anchor(*ctx.node) + "<h2 class=\"help-heading\">"@
                                + text@ + "</h2>"@);
                        }
                        s
                    },
                    NodeType::H2 | NodeType::H3 => {
                        let mut s = anchor_of(ctx.node);
                        s.append("<h3 class=\"help-heading\">");
                        s.append(text.as_str());
                        s.append("</h3>");
                        proof {
                            assert(s@ =~= spec_anchor(*ctx.node) + "<h3 class=\"help-heading\">"@
                                + text@ + "</h3>"@);
                        }
                        s
                    },
                    NodeType::HelpFile => text,
                    NodeType::Keycode => {
                        let mut s = String::from_str("<code>");
                        s.append(trimmed.as_str());
                        s.append("</code>");
                        proof {
                            assert(s@ =~= "<code>"@ + trimmed@ + "</code>"@);
                        }
                        s
                    },
                    NodeType::Language => {
                        self.state.language = Some(ctx.node.text.clone());
                        String::new()
                    },
                    NodeType::Line => {
                        let in_code = match ctx.parent {
                            Some(p) => {
                                str_eq(p.kind.as_str(), "code") || str_eq(
                                    p.kind.as_str(),
                                    "codeblock",
                                )
                            },
                            None => false,
                        };
                        if !in_code && (is_blank(text.as_str()) || is_noise(text.as_str())) {
                            String::new()
                        } else if self.opt.old && line_leads_heading(ctx.node) {
                            trimmed
                        } else {
                            let ghost tv = text@;
                            let mut s = text;
                            s.append("\n");
                            proof {
                                reveal_strlit("\n");
                                assert(s@ =~= tv.push('\n'));
                            }
                            s
                        }
                    },
                    NodeType::LineLi => {
                        let col = ctx.node.start.column;
                        let prev_is_li = match ctx.prev {
                            Some(p) => str_eq(p.kind.as_str(), "line_li"),
                            None => false,
                        };
                        let lvl: usize = if !prev_is_li {
                            1
                        } else {
                            match self.state.last_li_col {
                                Some(pc) => {
                                    if col > pc {
                                        if self.state.li_level < usize::MAX {
                                            self.state.li_level + 1
                                        } else {
                                            self.state.li_level
                                        }
                                    } else if col < pc {
                                        if self.state.li_level > 1 {
                                            self.state.li_level - 1
                                        } else {
                                            1
                                        }
                                    } else {
                                        self.state.li_level
                                    }
                                },
                                None => 1,
                            }
                        };
                        self.state.li_level = lvl;
                        self.state.last_li_col = Some(col);
                        if lvl > 1 {
                            let mut s = String::from_str("<div class=\"help-li\" style=\"margin-left:");
                            let num = usize_to_string(lvl - 1);
                            s.append(num.as_str());
                            s.append("em;\">");
                            s.append(text.as_str());
                            s.append("</div>\n");
                            proof {
                                assert(s@ =~= "<div class=\"help-li\" style=\"margin-left:"@
                                    + spec_digits(lvl - 1) + "em;\">"@ + text@ + "</div>\n"@);
                            }
                            s
                        } else {
                            let mut s = String::from_str("<div class=\"help-li\">");
                            s.append(text.as_str());
                            s.append("</div>\n");
                            proof {
                                assert(s@ =~= "<div class=\"help-li\">"@ + text@ + "</div>\n"@);
                            }
                            s
                        }
                    },
                    NodeType::Optionlink | NodeType::Tag | NodeType::Taglink => {
                        let mut s = String::from_str("<code>");
                        s.append(trimmed.as_str());
                        s.append("</code>");
                        proof {
                            assert(s@ =~= "<code>"@ + trimmed@ + "</code>"@);
                        }
                        s
                    },
                    NodeType::UppercaseName => text,
                    NodeType::Url => {
                        let (href, rest) = fix_url(trimmed.as_str());
                        let mut s = String::from_str("<a href=\"");
                        s.append(href);
                        s.append("\">");
                        s.append(href);
                        s.append("</a>");
                        s.append(rest);
                        proof {
                            assert(s@ =~= "<a href=\""@ + spec_fix_url(trimmed@).0 + "\">"@
                                + spec_fix_url(trimmed@).0 + "</a>"@ + spec_fix_url(trimmed@).1);
                        }
                        s
                    },
                    NodeType::Word => text,
                }
            },
            None => {
                if has_err && ignore_parse_error(trimmed.as_str()) {
                    text
                } else if has_err {
                    let tr = truncate_str(text.as_str(), 10);
                    let mut s = String::from_str("{ERROR: ");
                    s.append(tr);
                    s.append("}");
                    proof {
                        assert(s@ =~= "{ERROR: "@ + spec_truncate(text@, 10) + "}"@);
                    }
                    s
                } else {
                    String::new()
                }
            },
        }
    }
}

} // verus!