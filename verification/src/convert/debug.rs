//! The structural debug dump: one line per named node, in pre-order,
//! indented by depth and showing the node's kind, position range and
//! (possibly truncated) raw text.

use vstd::prelude::*;

verus! {

use crate::cst::CstNode;
use crate::utils::push_spaces;
use crate::utils::spec_digits;
use crate::utils::spec_spaces;
use crate::utils::spec_truncate;
use crate::utils::str_to_chars;
use crate::utils::chars_to_string;
use crate::utils::truncate_str;
use crate::utils::usize_to_string;
use crate::visit::Context;
use crate::visit::Visitor;
use crate::visit::join_with;
use crate::visit::spec_render_root;
use crate::visit::visit_all_named;
use crate::visit::StringJoiner;
use crate::visit::Joiner;
use vstd::string::StrSliceExecFns;
use vstd::string::StringExecFns;

/// The escape of one character inside a quoted debug string: newlines,
/// carriage returns, tabs, quotes and backslashes are written with a
/// backslash; every other character, printable or not, is kept as it is.
pub open spec fn spec_quote_char(c: char) -> Seq<char> {
    if c == '\n' {
        seq!['\\', 'n']
    } else if c == '\r' {
        seq!['\\', 'r']
    } else if c == '\t' {
        seq!['\\', 't']
    } else if c == '"' {
        seq!['\\', '"']
    } else if c == '\\' {
        seq!['\\', '\\']
    } else {
        seq![c]
    }
}

/// The escape of a text for inclusion between quotes in a debug line.
pub open spec fn spec_quote(t: Seq<char>) -> Seq<char>
    decreases t,
{
    if t.len() == 0 {
        Seq::empty()
    } else {
        spec_quote(t.drop_last()) + spec_quote_char(t.last())
    }
}

proof fn lemma_quote_take(t: Seq<char>, i: int)
    requires
        0 <= i < t.len(),
    ensures
        spec_quote(t.take(i + 1)) == spec_quote(t.take(i)) + spec_quote_char(t[i]),
{
    assert(t.take(i + 1).drop_last() =~= t.take(i));
    assert(t.take(i + 1).last() == t[i]);
}

/// Escapes newlines, carriage returns, tabs, quotes and backslashes in
/// `s`.
fn quote_str(s: &str) -> (r: String)
    ensures
        r@ == spec_quote(s@),
{
    let v = str_to_chars(s);
    let n = v.len();
    let mut out: Vec<char> = Vec::new();
    let mut i: usize = 0;
    proof {
        assert(v@.take(0) =~= Seq::<char>::empty());
    }
    while i < n
        invariant
            n == v@.len(),
            i <= n,
            out@ == spec_quote(v@.take(i as int)),
        decreases n - i,
    {
        let c = v[i];
        if c == '\n' {
            out.push('\\');
            out.push('n');
        } else if c == '\r' {
            out.push('\\');
            out.push('r');
        } else if c == '\t' {
            out.push('\\');
            out.push('t');
        } else if c == '"' {
            out.push('\\');
            out.push('"');
        } else if c == '\\' {
            out.push('\\');
            out.push('\\');
        } else {
            out.push(c);
        }
        proof {
            lemma_quote_take(v@, i as int);
            assert(out@ =~= spec_quote(v@.take(i as int)) + spec_quote_char(v@[i as int]));
        }
        i += 1;
    }
    proof {
        assert(v@.take(n as int) =~= v@);
    }
    chars_to_string(&out)
}

/// The width of the indentation at a depth: four spaces per level,
/// saturating at the machine word limit.
pub open spec fn spec_indent_width(depth: int) -> int {
    if depth < 0 {
        0
    } else if depth <= usize::MAX / 4 {
        4 * depth
    } else {
        usize::MAX as int
    }
}

/// One debug line for a node at the given depth: four spaces per depth
/// level, the kind in quotes, the start and end positions, and the raw
/// text truncated to ten characters with a `[trimmed]` mark when longer.
pub open spec fn spec_debug_line(n: CstNode, depth: int) -> Seq<char> {
    spec_spaces(spec_indent_width(depth)) + "Kind: \""@ + n.kind@ + "\" [Row:"@ + spec_digits(n.start.row as int)
        + ", Col:"@ + spec_digits(n.start.column as int) + "] - [Row:"@ + spec_digits(
        n.end.row as int,
    ) + ", Col:"@ + spec_digits(n.end.column as int) + "] = \""@ + spec_quote(
        spec_truncate(n.text@, 10),
    ) + "\""@ + (if n.text@.len() > 10 {
        " [trimmed]"@
    } else {
        Seq::<char>::empty()
    })
}

/// The renderer behind [`DebugString`]: each node becomes its debug
/// line, followed by the lines of its children.
pub struct DebugRenderer {}

impl Visitor for DebugRenderer {
    open spec fn spec_visit(
        self,
        node: CstNode,
        depth: int,
        parent: Option<CstNode>,
        prev: Option<CstNode>,
        kids: Seq<Seq<char>>,
    ) -> (Seq<char>, DebugRenderer) {
        let line = spec_debug_line(node, depth);
        (
            if kids.len() == 0 {
                line
            } else {
                line + "\n"@ + join_with(kids, "\n"@)
            },
            self,
        )
    }

    fn visit(&mut self, ctx: &Context, kids: Vec<String>) -> (out: String) {
        let n = ctx.node;
        let mut s = String::new();
        let d = if ctx.depth <= usize::MAX / 4 {
            4 * ctx.depth
        } else {
            usize::MAX
        };
        push_spaces_string(&mut s, d);
        s.append("Kind: \"");
        s.append(n.kind.as_str());
        s.append("\" [Row:");
        let r1 = usize_to_string(n.start.row);
        s.append(r1.as_str());
        s.append(", Col:");
        let c1 = usize_to_string(n.start.column);
        s.append(c1.as_str());
        s.append("] - [Row:");
        let r2 = usize_to_string(n.end.row);
        s.append(r2.as_str());
        s.append(", Col:");
        let c2 = usize_to_string(n.end.column);
        s.append(c2.as_str());
        s.append("] = \"");
        let tr = truncate_str(n.text.as_str(), 10);
        let qt = quote_str(tr);
        s.append(qt.as_str());
        s.append("\"");
        let too_long = n.text.as_str().unicode_len() > 10;
        if too_long {
            s.append(" [trimmed]");
        }
        if kids.len() == 0 {
            proof {
                assert(s@ =~= spec_debug_line(*ctx.node, ctx.depth as int));
            }
            s
        } else {
            s.append("\n");
            let j = StringJoiner::new("\n");
            let joined = j.join(kids);
            s.append(joined.as_str());
            proof {
                assert(s@ =~= spec_debug_line(*ctx.node, ctx.depth as int) + "\n"@ + join_with(
                    kids.deep_view(),
                    "\n"@,
                ));
            }
            s
        }
    }
}

/// Appends `k` spaces to `s`.
fn push_spaces_string(s: &mut String, k: usize)
    ensures
        final(s)@ == old(s)@ + spec_spaces(k as int),
{
    let mut v: Vec<char> = Vec::new();
    push_spaces(&mut v, k);
    let sp = chars_to_string(&v);
    s.append(sp.as_str());
}

/// The full debug dump of the tree at `n`: empty when the root is not a
/// named node.
pub open spec fn spec_debug_string(n: CstNode) -> Seq<char> {
    spec_render_root(DebugRenderer {  }, n, 0, None, None, false).0
}

/// The position part of a dump line: `[Row:r, Col:c] - [Row:r2, Col:c2]`.
pub open spec fn spec_position_part(n: CstNode) -> Seq<char> {
    "[Row:"@ + spec_digits(n.start.row as int) + ", Col:"@ + spec_digits(n.start.column as int)
        + "] - [Row:"@ + spec_digits(n.end.row as int) + ", Col:"@ + spec_digits(
        n.end.column as int,
    ) + "]"@
}

/// Renders the position part of a dump line for `n`.
fn position_part(n: &CstNode) -> (r: String)
    ensures
        r@ == spec_position_part(*n),
{
    let mut s = String::from_str("[Row:");
    let r1 = usize_to_string(n.start.row);
    s.append(r1.as_str());
    s.append(", Col:");
    let c1 = usize_to_string(n.start.column);
    s.append(c1.as_str());
    s.append("] - [Row:");
    let r2 = usize_to_string(n.end.row);
    s.append(r2.as_str());
    s.append(", Col:");
    let c2 = usize_to_string(n.end.column);
    s.append(c2.as_str());
    s.append("]");
    proof {
        assert(s@ =~= spec_position_part(*n));
    }
    s
}

/// One outline line: the indented kind and position range, without the
/// node's text.
pub open spec fn spec_outline_line(n: CstNode, depth: int) -> Seq<char> {
    spec_spaces(spec_indent_width(depth)) + "Kind: \""@ + n.kind@ + "\" "@ + spec_position_part(n)
}

/// The renderer behind [`tree_into_debug_string`]: one indented line per
/// node, showing the kind and position range only.
pub struct OutlineRenderer {}

impl Visitor for OutlineRenderer {
    open spec fn spec_visit(
        self,
        node: CstNode,
        depth: int,
        parent: Option<CstNode>,
        prev: Option<CstNode>,
        kids: Seq<Seq<char>>,
    ) -> (Seq<char>, OutlineRenderer) {
        let line = spec_outline_line(node, depth);
        (
            if kids.len() == 0 {
                line
            } else {
                line + "\n"@ + join_with(kids, "\n"@)
            },
            self,
        )
    }

    fn visit(&mut self, ctx: &Context, kids: Vec<String>) -> (out: String) {
        let mut s = String::new();
        let d = if ctx.depth <= usize::MAX / 4 {
            4 * ctx.depth
        } else {
            usize::MAX
        };
        push_spaces_string(&mut s, d);
        s.append("Kind: \"");
        s.append(ctx.node.kind.as_str());
        s.append("\" ");
        let pos = position_part(ctx.node);
        s.append(pos.as_str());
        if kids.len() == 0 {
            proof {
                assert(s@ =~= spec_outline_line(*ctx.node, ctx.depth as int));
            }
            s
        } else {
            s.append("\n");
            let j = StringJoiner::new("\n");
            let joined = j.join(kids);
            s.append(joined.as_str());
            proof {
                assert(s@ =~= spec_outline_line(*ctx.node, ctx.depth as int) + "\n"@ + join_with(
                    kids.deep_view(),
                    "\n"@,
                ));
            }
            s
        }
    }
}

/// The outline dump of the tree at `n`: one line per named node, with
/// kind and position range.
pub open spec fn spec_outline_string(n: CstNode) -> Seq<char> {
    spec_render_root(OutlineRenderer {  }, n, 0, None, None, false).0
}

/// Converts a tree into an outline dump: one indented line per named
/// node showing its kind and position range.
pub fn tree_into_debug_string(root: &CstNode) -> (r: String)
    ensures
        r@ == spec_outline_string(*root),
{
    let mut v = OutlineRenderer {  };
    visit_all_named(&mut v, root)
}

/// One pretty line: the indented kind and position range, two spaces per
/// level.
pub open spec fn spec_pretty_line(n: CstNode, depth: int) -> Seq<char> {
    spec_spaces(spec_half_indent_width(depth)) + "Kind: \""@ + n.kind@ + "\" "@
        + spec_position_part(n)
}

/// The width of the pretty indentation: two spaces per level, saturating
/// at the machine word limit.
pub open spec fn spec_half_indent_width(depth: int) -> int {
    if depth < 0 {
        0
    } else if depth <= usize::MAX / 2 {
        2 * depth
    } else {
        usize::MAX as int
    }
}

/// The renderer behind [`pretty_print`].
pub struct PrettyRenderer {}

impl Visitor for PrettyRenderer {
    open spec fn spec_visit(
        self,
        node: CstNode,
        depth: int,
        parent: Option<CstNode>,
        prev: Option<CstNode>,
        kids: Seq<Seq<char>>,
    ) -> (Seq<char>, PrettyRenderer) {
        let line = spec_pretty_line(node, depth);
        (
            if kids.len() == 0 {
                line
            } else {
                line + "\n"@ + join_with(kids, "\n"@)
            },
            self,
        )
    }

    fn visit(&mut self, ctx: &Context, kids: Vec<String>) -> (out: String) {
        let mut s = String::new();
        let d = if ctx.depth <= usize::MAX / 2 {
            2 * ctx.depth
        } else {
            usize::MAX
        };
        push_spaces_string(&mut s, d);
        s.append("Kind: \"");
        s.append(ctx.node.kind.as_str());
        s.append("\" ");
        let pos = position_part(ctx.node);
        s.append(pos.as_str());
        if kids.len() == 0 {
            proof {
                assert(s@ =~= spec_pretty_line(*ctx.node, ctx.depth as int));
            }
            s
        } else {
            s.append("\n");
            let j = StringJoiner::new("\n");
            let joined = j.join(kids);
            s.append(joined.as_str());
            proof {
                assert(s@ =~= spec_pretty_line(*ctx.node, ctx.depth as int) + "\n"@ + join_with(
                    kids.deep_view(),
                    "\n"@,
                ));
            }
            s
        }
    }
}

/// The pretty dump of the tree at `n`, anonymous nodes included when
/// `show_anonymous` is set.
pub open spec fn spec_pretty_string(n: CstNode, show_anonymous: bool) -> Seq<char> {
    spec_render_root(PrettyRenderer {  }, n, 0, None, None, show_anonymous).0
}

/// Pretty-prints a tree, two spaces of indentation per level. Setting
/// `show_anonymous` to true also includes anonymous nodes such as
/// punctuation markers.
pub fn pretty_print(root: &CstNode, show_anonymous: bool) -> (r: String)
    ensures
        r@ == spec_pretty_string(*root, show_anonymous),
{
    let mut v = PrettyRenderer {  };
    crate::visit::visit_all(&mut v, root, show_anonymous)
}

/// A structural debug dump of a CST: one line per named node in
/// pre-order.
pub struct DebugString {
    s: String,
}

impl View for DebugString {
    type V = Seq<char>;

    closed spec fn view(&self) -> Seq<char> {
        self.s@
    }
}

impl DebugString {
    /// Renders the debug dump of the tree at `root`.
    pub fn from_cst(root: &CstNode) -> (r: DebugString)
        ensures
            r@ == spec_debug_string(*root),
    {
        let mut v = DebugRenderer {  };
        let s = visit_all_named(&mut v, root);
        DebugString { s }
    }

    /// The dump as text.
    pub fn as_str(&self) -> (r: &str)
        ensures
            r@ == self@,
    {
        self.s.as_str()
    }

    /// The dump as an owned string.
    pub fn into_string(self) -> (r: String)
        ensures
            r@ == self@,
    {
        self.s
    }
}

} // verus!