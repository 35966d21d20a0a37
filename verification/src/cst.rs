//! The concrete syntax tree (CST) that every other part of the library
//! consumes. A node carries the grammar kind tag, the named/error/missing
//! flags, its position range in the source, its raw text, and its children
//! in document order.

use vstd::prelude::*;

verus! {

/// A row/column position in the source text.
#[derive(Clone, Copy, Debug, PartialEq, Eq, Structural)]
pub struct Point {
    pub row: usize,
    pub column: usize,
}

/// One node of the concrete syntax tree.
///
/// `kind` is the grammar rule name (for example `"help_file"` or `"word"`);
/// `named` distinguishes meaningful rules from anonymous punctuation;
/// `error` and `missing` mark syntax-error and expected-but-absent nodes;
/// `text` is the raw source text covered by the node.
#[derive(Debug)]
pub struct CstNode {
    pub kind: String,
    pub named: bool,
    pub error: bool,
    pub missing: bool,
    pub start: Point,
    pub end: Point,
    pub text: String,
    pub children: Vec<CstNode>,
}

/// True if the node itself is an error or missing node.
pub open spec fn spec_is_error_node(n: CstNode) -> bool {
    n.error || n.missing
}

/// True if any node of the sequence roots a subtree holding an error or
/// missing node.
pub open spec fn spec_any_error(kids: Seq<CstNode>) -> bool
    decreases kids,
{
    if kids.len() == 0 {
        false
    } else {
        spec_has_error(kids[0]) || spec_any_error(kids.drop_first())
    }
}

/// True if the subtree rooted at `n` holds an error or missing node.
pub open spec fn spec_has_error(n: CstNode) -> bool
    decreases n,
{
    spec_is_error_node(n) || spec_any_error(n.children@)
}

/// True if some child of the sequence is a named node.
pub open spec fn spec_any_named(kids: Seq<CstNode>) -> bool
    decreases kids,
{
    if kids.len() == 0 {
        false
    } else {
        kids[0].named || spec_any_named(kids.drop_first())
    }
}

impl CstNode {
    /// True if the subtree rooted at this node holds an error or missing
    /// node, as reported by the grammar.
    pub fn has_error(&self) -> (r: bool)
        ensures
            r == spec_has_error(*self),
        decreases *self,
    {
        if self.error || self.missing {
            return true;
        }
        let n = self.children.len();
        let mut i: usize = 0;
        proof {
            assert(self.children@.skip(0) =~= self.children@);
        }
        while i < n
            invariant
                n == self.children.len(),
                i <= n,
                !spec_is_error_node(*self),
                spec_has_error(*self) == spec_any_error(self.children@.skip(i as int)),
            decreases n - i,
        {
            proof {
                assert(self.children@.skip(i as int)[0] == self.children@[i as int]);
                assert(self.children@.skip(i as int).drop_first() =~= self.children@.skip(
                    i as int + 1,
                ));
                assert(decreases_to!(*self => self.children));
                assert(decreases_to!(self.children => self.children@));
                assert(decreases_to!(self.children@ => self.children@[i as int]));
            }
            if self.children[i].has_error() {
                return true;
            }
            i += 1;
        }
        false
    }

    /// True if the node has at least one named child.
    pub fn has_named_child(&self) -> (r: bool)
        ensures
            r == spec_any_named(self.children@),
    {
        let n = self.children.len();
        let mut i: usize = 0;
        proof {
            assert(self.children@.skip(0) =~= self.children@);
        }
        while i < n
            invariant
                n == self.children.len(),
                i <= n,
                spec_any_named(self.children@) == spec_any_named(self.children@.skip(i as int)),
            decreases n - i,
        {
            proof {
                assert(self.children@.skip(i as int)[0] == self.children@[i as int]);
                assert(self.children@.skip(i as int).drop_first() =~= self.children@.skip(
                    i as int + 1,
                ));
            }
            if self.children[i].named {
                return true;
            }
            i += 1;
        }
        false
    }
}

/// The node kinds that the renderers recognise.
#[derive(Clone, Copy, Debug, PartialEq, Eq, Structural)]
pub enum NodeType {
    Argument,
    Block,
    Code,
    Codeblock,
    Codespan,
    ColumnHeading,
    H1,
    H2,
    H3,
    HelpFile,
    Keycode,
    Language,
    Line,
    LineLi,
    Optionlink,
    Tag,
    Taglink,
    UppercaseName,
    Url,
    Word,
}

/// The node type named by a kind string, if any.
pub open spec fn spec_node_type_of(t: Seq<char>) -> Option<NodeType> {
    if t == "argument"@ {
        Some(NodeType::Argument)
    } else if t == "block"@ {
        Some(NodeType::Block)
    } else if t == "code"@ {
        Some(NodeType::Code)
    } else if t == "codeblock"@ {
        Some(NodeType::Codeblock)
    } else if t == "codespan"@ {
        Some(NodeType::Codespan)
    } else if t == "column_heading"@ {
        Some(NodeType::ColumnHeading)
    } else if t == "h1"@ {
        Some(NodeType::H1)
    } else if t == "h2"@ {
        Some(NodeType::H2)
    } else if t == "h3"@ {
        Some(NodeType::H3)
    } else if t == "help_file"@ {
        Some(NodeType::HelpFile)
    } else if t == "keycode"@ {
        Some(NodeType::Keycode)
    } else if t == "language"@ {
        Some(NodeType::Language)
    } else if t == "line"@ {
        Some(NodeType::Line)
    } else if t == "line_li"@ {
        Some(NodeType::LineLi)
    } else if t == "optionlink"@ {
        Some(NodeType::Optionlink)
    } else if t == "tag"@ {
        Some(NodeType::Tag)
    } else if t == "taglink"@ {
        Some(NodeType::Taglink)
    } else if t == "uppercase_name"@ {
        Some(NodeType::UppercaseName)
    } else if t == "url"@ {
        Some(NodeType::Url)
    } else if t == "word"@ {
        Some(NodeType::Word)
    } else {
        None
    }
}

impl NodeType {
    /// The kind string that names this node type.
    pub open spec fn spec_kind_str(self) -> Seq<char> {
        match self {
            NodeType::Argument => "argument"@,
            NodeType::Block => "block"@,
            NodeType::Code => "code"@,
            NodeType::Codeblock => "codeblock"@,
            NodeType::Codespan => "codespan"@,
            NodeType::ColumnHeading => "column_heading"@,
            NodeType::H1 => "h1"@,
            NodeType::H2 => "h2"@,
            NodeType::H3 => "h3"@,
            NodeType::HelpFile => "help_file"@,
            NodeType::Keycode => "keycode"@,
            NodeType::Language => "language"@,
            NodeType::Line => "line"@,
            NodeType::LineLi => "line_li"@,
            NodeType::Optionlink => "optionlink"@,
            NodeType::Tag => "tag"@,
            NodeType::Taglink => "taglink"@,
            NodeType::UppercaseName => "uppercase_name"@,
            NodeType::Url => "url"@,
            NodeType::Word => "word"@,
        }
    }

    /// Parses a kind string into the node type it names.
    pub fn from_kind(s: &str) -> (r: Option<NodeType>)
        ensures
            r == spec_node_type_of(s@),
    {
        if crate::utils::str_eq(s, "argument") {
            Some(NodeType::Argument)
        } else if crate::utils::str_eq(s, "block") {
            Some(NodeType::Block)
        } else if crate::utils::str_eq(s, "code") {
            Some(NodeType::Code)
        } else if crate::utils::str_eq(s, "codeblock") {
            Some(NodeType::Codeblock)
        } else if crate::utils::str_eq(s, "codespan") {
            Some(NodeType::Codespan)
        } else if crate::utils::str_eq(s, "column_heading") {
            Some(NodeType::ColumnHeading)
        } else if crate::utils::str_eq(s, "h1") {
            Some(NodeType::H1)
        } else if crate::utils::str_eq(s, "h2") {
            Some(NodeType::H2)
        } else if crate::utils::str_eq(s, "h3") {
            Some(NodeType::H3)
        } else if crate::utils::str_eq(s, "help_file") {
            Some(NodeType::HelpFile)
        } else if crate::utils::str_eq(s, "keycode") {
            Some(NodeType::Keycode)
        } else if crate::utils::str_eq(s, "language") {
            Some(NodeType::Language)
        } else if crate::utils::str_eq(s, "line") {
            Some(NodeType::Line)
        } else if crate::utils::str_eq(s, "line_li") {
            Some(NodeType::LineLi)
        } else if crate::utils::str_eq(s, "optionlink") {
            Some(NodeType::Optionlink)
        } else if crate::utils::str_eq(s, "tag") {
            Some(NodeType::Tag)
        } else if crate::utils::str_eq(s, "taglink") {
            Some(NodeType::Taglink)
        } else if crate::utils::str_eq(s, "uppercase_name") {
            Some(NodeType::UppercaseName)
        } else if crate::utils::str_eq(s, "url") {
            Some(NodeType::Url)
        } else if crate::utils::str_eq(s, "word") {
            Some(NodeType::Word)
        } else {
            None
        }
    }

    /// The kind string that names this node type.
    pub fn as_kind_str(self) -> (r: &'static str)
        ensures
            r@ == self.spec_kind_str(),
    {
        match self {
            NodeType::Argument => "argument",
            NodeType::Block => "block",
            NodeType::Code => "code",
            NodeType::Codeblock => "codeblock",
            NodeType::Codespan => "codespan",
            NodeType::ColumnHeading => "column_heading",
            NodeType::H1 => "h1",
            NodeType::H2 => "h2",
            NodeType::H3 => "h3",
            NodeType::HelpFile => "help_file",
            NodeType::Keycode => "keycode",
            NodeType::Language => "language",
            NodeType::Line => "line",
            NodeType::LineLi => "line_li",
            NodeType::Optionlink => "optionlink",
            NodeType::Tag => "tag",
            NodeType::Taglink => "taglink",
            NodeType::UppercaseName => "uppercase_name",
            NodeType::Url => "url",
            NodeType::Word => "word",
        }
    }
}

} // verus!
