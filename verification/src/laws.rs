//! Properties the library promises, stated and proved once and for all:
//! rendering is deterministic, list indentation moves with the items'
//! positions, and the typed-tree builder succeeds on every fully valid
//! tree without reporting a single malformed node.

use vstd::prelude::*;

verus! {

use crate::cst::CstNode;
use crate::convert::spec_li_step;
use crate::convert::Converter;
use crate::visit::StringJoiner;
use crate::visit::spec_render;
use crate::visit::spec_render_kids;
use crate::types::named_of;
use crate::types::first_named_idx;
use crate::types::first_included_idx;
use crate::types::included;
use crate::types::matches_lines_after;
use crate::types::matches_hchildren;
use crate::types::matches_line_children;
use crate::types::matches_lineli_children;
use crate::types::matches_block_children;
use crate::types::matches_blocks;
use crate::types::single_word_outcome;
use crate::types::single_word_matches;
use crate::types::hchild_kids_plan;
use crate::types::line_kids_plan;
use crate::types::lineli_kids_plan;
use crate::types::block_kids_plan;
use crate::types::hf_kids_plan;
use crate::types::cb_tail_plan;
use crate::types::Argument;
use crate::types::Block;
use crate::types::BlockChild;
use crate::types::Codeblock;
use crate::types::Codespan;
use crate::types::ColumnHeading;
use crate::types::ErrModel;
use crate::types::H1;
use crate::types::H2;
use crate::types::H3;
use crate::types::HChild;
use crate::types::HelpFile;
use crate::types::Keycode;
use crate::types::Language;
use crate::types::Line;
use crate::types::LineChild;
use crate::types::LineLi;
use crate::types::LineLiChild;
use crate::types::Optionlink;
use crate::types::Report;
use crate::types::Tag;
use crate::types::Taglink;
use crate::types::UppercaseName;
use crate::types::Url;
use crate::types::Word;
use crate::visit::Visitor;
use crate::visit::spec_render_root;

// ---------------------------------------------------------------------
// Rendering is a pure function of the tree and the configuration.
// ---------------------------------------------------------------------
/// Rendering the same tree twice from the same starting state yields an
/// identical string: the walk's outcome is a function of the tree and
/// the visitor's starting configuration alone.
pub proof fn lemma_render_idempotent<V: Visitor>(
    st: V,
    n: CstNode,
    unnamed: bool,
    r1: Seq<char>,
    r2: Seq<char>,
)
    requires
        r1 == spec_render_root(st, n, 0, None, None, unnamed).0,
        r2 == spec_render_root(st, n, 0, None, None, unnamed).0,
    ensures
        r1 == r2,
{
}

// ---------------------------------------------------------------------
// List indentation follows the items' positions.
// ---------------------------------------------------------------------
/// The levels a run of sibling list items is rendered at, starting at 1
/// and stepping by [`spec_li_step`] for each later item.
pub open spec fn spec_li_levels(ds: Seq<int>) -> Seq<int>
    decreases ds,
{
    if ds.len() == 0 {
        Seq::empty()
    } else if ds.len() == 1 {
        seq![1int]
    } else {
        let pre = spec_li_levels(ds.drop_last());
        pre.push(spec_li_step(pre.last(), ds[ds.len() - 2], ds.last()))
    }
}

proof fn lemma_li_levels_len(ds: Seq<int>)
    ensures
        spec_li_levels(ds).len() == ds.len(),
        forall|i: int| 0 <= i < ds.len() ==> #[trigger] spec_li_levels(ds)[i] >= 1,
    decreases ds,
{
    if ds.len() > 1 {
        lemma_li_levels_len(ds.drop_last());
    }
}

proof fn lemma_li_levels_at(ds: Seq<int>, i: int)
    requires
        1 <= i < ds.len(),
    ensures
        spec_li_levels(ds).len() == ds.len(),
        spec_li_levels(ds)[i] == spec_li_step(spec_li_levels(ds)[i - 1], ds[i - 1], ds[i]),
    decreases ds,
{
    lemma_li_levels_len(ds);
    if i == ds.len() - 1 {
        if ds.len() > 1 {
            lemma_li_levels_len(ds.drop_last());
        }
    } else {
        lemma_li_levels_at(ds.drop_last(), i);
        lemma_li_levels_len(ds.drop_last());
    }
}

/// For a run of sibling list items whose positions are `ds`, the
/// rendered indentation level strictly increases exactly when an item
/// sits further right than its predecessor (while below the saturation
/// bound), strictly decreases (never below the floor of 1) exactly when
/// it sits further left, and otherwise stays put. The step rule is the
/// one the HTML converter applies to each list item.
pub proof fn lemma_li_levels_monotone(ds: Seq<int>, i: int)
    requires
        1 <= i < ds.len(),
    ensures
        spec_li_levels(ds).len() == ds.len(),
        ds[i] > ds[i - 1] && spec_li_levels(ds)[i - 1] < usize::MAX ==> spec_li_levels(ds)[i]
            == spec_li_levels(ds)[i - 1] + 1,
        ds[i] < ds[i - 1] ==> spec_li_levels(ds)[i] == (if spec_li_levels(ds)[i - 1] > 1 {
            spec_li_levels(ds)[i - 1] - 1
        } else {
            1int
        }),
        ds[i] == ds[i - 1] ==> spec_li_levels(ds)[i] == spec_li_levels(ds)[i - 1],
        spec_li_levels(ds)[i] > spec_li_levels(ds)[i - 1] ==> ds[i] > ds[i - 1],
        spec_li_levels(ds)[i] < spec_li_levels(ds)[i - 1] ==> ds[i] < ds[i - 1],
{
    lemma_li_levels_at(ds, i);
    lemma_li_levels_len(ds);
}

// ---------------------------------------------------------------------
// The builder succeeds on fully valid trees.
// ---------------------------------------------------------------------
/// The node itself carries no error and is not missing.
pub open spec fn clean(n: CstNode) -> bool {
    !n.error && !n.missing
}

/// A valid terminal of the given kind.
pub open spec fn wf_terminal(n: CstNode, kind: Seq<char>) -> bool {
    n.kind@ == kind && clean(n)
}

/// A valid single-child node of the given kind: exactly one named child,
/// a valid word.
pub open spec fn wf_single(n: CstNode, kind: Seq<char>) -> bool {
    n.kind@ == kind && clean(n) && named_of(n.children@).len() == 1 && wf_terminal(
        named_of(n.children@)[0],
        "word"@,
    )
}

/// A valid heading child.
pub open spec fn wf_hchild(n: CstNode) -> bool {
    if n.kind@ == "argument"@ {
        wf_single(n, "argument"@)
    } else if n.kind@ == "codespan"@ {
        wf_single(n, "codespan"@)
    } else if n.kind@ == "keycode"@ {
        wf_terminal(n, "keycode"@)
    } else if n.kind@ == "optionlink"@ {
        wf_single(n, "optionlink"@)
    } else if n.kind@ == "tag"@ {
        wf_single(n, "tag"@)
    } else if n.kind@ == "taglink"@ {
        wf_single(n, "taglink"@)
    } else if n.kind@ == "url"@ {
        wf_single(n, "url"@)
    } else if n.kind@ == "word"@ {
        wf_terminal(n, "word"@)
    } else {
        false
    }
}

/// Every named child is a valid heading child.
pub open spec fn wf_hkids(kids: Seq<CstNode>) -> bool
    decreases kids,
{
    if kids.len() == 0 {
        true
    } else {
        (kids.last().named ==> wf_hchild(kids.last())) && wf_hkids(kids.drop_last())
    }
}

/// A valid column heading, `h1` or `h2`.
pub open spec fn wf_heading(n: CstNode, kind: Seq<char>) -> bool {
    n.kind@ == kind && clean(n) && wf_hkids(n.children@)
}

/// A valid `h3`: a valid leading uppercase name, then valid heading
/// children.
pub open spec fn wf_h3(n: CstNode) -> bool {
    let fi = first_named_idx(n.children@, 0);
    n.kind@ == "h3"@ && clean(n) && fi < n.children@.len() && wf_terminal(
        n.children@[fi],
        "uppercase_name"@,
    ) && wf_hkids(n.children@.skip(fi + 1))
}

/// A valid line.
pub open spec fn wf_line(n: CstNode) -> bool
    decreases n, 0int,
{
    n.kind@ == "line"@ && clean(n) && wf_line_kids(n.children@)
}

/// Every named child is a valid line child.
pub open spec fn wf_line_kids(kids: Seq<CstNode>) -> bool
    decreases kids, 3int,
{
    if kids.len() == 0 {
        true
    } else {
        (kids.last().named ==> wf_line_child(kids.last())) && wf_line_kids(kids.drop_last())
    }
}

/// A valid line child.
pub open spec fn wf_line_child(n: CstNode) -> bool
    decreases n, 1int,
{
    if n.kind@ == "argument"@ {
        wf_single(n, "argument"@)
    } else if n.kind@ == "codeblock"@ {
        wf_codeblock(n)
    } else if n.kind@ == "codespan"@ {
        wf_single(n, "codespan"@)
    } else if n.kind@ == "column_heading"@ {
        wf_heading(n, "column_heading"@)
    } else if n.kind@ == "h1"@ {
        wf_heading(n, "h1"@)
    } else if n.kind@ == "h2"@ {
        wf_heading(n, "h2"@)
    } else if n.kind@ == "h3"@ {
        wf_h3(n)
    } else if n.kind@ == "keycode"@ {
        wf_terminal(n, "keycode"@)
    } else if n.kind@ == "optionlink"@ {
        wf_single(n, "optionlink"@)
    } else if n.kind@ == "tag"@ {
        wf_single(n, "tag"@)
    } else if n.kind@ == "taglink"@ {
        wf_single(n, "taglink"@)
    } else if n.kind@ == "url"@ {
        wf_single(n, "url"@)
    } else if n.kind@ == "word"@ {
        wf_terminal(n, "word"@)
    } else {
        false
    }
}

/// A valid code block.
pub open spec fn wf_codeblock(n: CstNode) -> bool
    decreases n, 0int,
{
    n.kind@ == "codeblock"@ && clean(n) && wf_cb_kids(n.children@, true)
}

/// Valid code-block children: an optional leading `language`, then valid
/// lines.
pub open spec fn wf_cb_kids(kids: Seq<CstNode>, looking: bool) -> bool
    decreases kids, 3int,
{
    if kids.len() == 0 {
        true
    } else {
        let c = kids[0];
        if !c.named {
            wf_cb_kids(kids.drop_first(), looking)
        } else if looking && c.kind@ == "language"@ {
            clean(c) && wf_cb_kids(kids.drop_first(), false)
        } else {
            clean(c) && wf_line(c) && wf_cb_kids(kids.drop_first(), false)
        }
    }
}

/// A valid list item.
pub open spec fn wf_lineli(n: CstNode) -> bool
    decreases n, 0int,
{
    n.kind@ == "line_li"@ && clean(n) && wf_lineli_kids(n.children@)
}

/// Every named child is a valid list-item child.
pub open spec fn wf_lineli_kids(kids: Seq<CstNode>) -> bool
    decreases kids, 3int,
{
    if kids.len() == 0 {
        true
    } else {
        (kids.last().named ==> wf_lineli_child(kids.last())) && wf_lineli_kids(kids.drop_last())
    }
}

/// A valid list-item child.
pub open spec fn wf_lineli_child(n: CstNode) -> bool
    decreases n, 1int,
{
    if n.kind@ == "codeblock"@ {
        wf_codeblock(n)
    } else if n.kind@ == "line"@ {
        wf_line(n)
    } else {
        false
    }
}

/// A valid block.
pub open spec fn wf_block(n: CstNode) -> bool
    decreases n, 0int,
{
    n.kind@ == "block"@ && clean(n) && wf_block_kids(n.children@)
}

/// Every named child is a valid block child.
pub open spec fn wf_block_kids(kids: Seq<CstNode>) -> bool
    decreases kids, 3int,
{
    if kids.len() == 0 {
        true
    } else {
        (kids.last().named ==> wf_block_child(kids.last())) && wf_block_kids(kids.drop_last())
    }
}

/// A valid block child.
pub open spec fn wf_block_child(n: CstNode) -> bool
    decreases n, 1int,
{
    if n.kind@ == "line"@ {
        wf_line(n)
    } else if n.kind@ == "line_li"@ {
        wf_lineli(n)
    } else {
        false
    }
}

/// A fully valid help file: the root and every named descendant fit the
/// grammar, and no node is an error or missing node.
pub open spec fn wf_help_file(n: CstNode) -> bool {
    n.kind@ == "help_file"@ && clean(n) && wf_hf_kids(n.children@)
}

/// Every named child is a valid block.
pub open spec fn wf_hf_kids(kids: Seq<CstNode>) -> bool
    decreases kids,
{
    if kids.len() == 0 {
        true
    } else {
        (kids.last().named ==> wf_block(kids.last())) && wf_hf_kids(kids.drop_last())
    }
}

proof fn lemma_single_ok(n: CstNode, kind: Seq<char>)
    requires
        wf_single(n, kind),
    ensures
        single_word_outcome(n) == Ok::<(), ErrModel>(()),
{
}

proof fn lemma_hchild_ok(n: CstNode)
    requires
        wf_hchild(n),
    ensures
        HChild::plan(n).result == Ok::<(), ErrModel>(()),
        HChild::plan(n).reports == Seq::<Report>::empty(),
        clean(n),
{
    if n.kind@ == "argument"@ {
        lemma_single_ok(n, "argument"@);
    } else if n.kind@ == "codespan"@ {
        lemma_single_ok(n, "codespan"@);
    } else if n.kind@ == "keycode"@ {
    } else if n.kind@ == "optionlink"@ {
        lemma_single_ok(n, "optionlink"@);
    } else if n.kind@ == "tag"@ {
        lemma_single_ok(n, "tag"@);
    } else if n.kind@ == "taglink"@ {
        lemma_single_ok(n, "taglink"@);
    } else if n.kind@ == "url"@ {
        lemma_single_ok(n, "url"@);
    }
}

proof fn lemma_hkids_ok(kids: Seq<CstNode>)
    requires
        wf_hkids(kids),
    ensures
        hchild_kids_plan(kids).result == Ok::<(), ErrModel>(()),
        hchild_kids_plan(kids).reports == Seq::<Report>::empty(),
    decreases kids,
{
    if kids.len() > 0 {
        lemma_hkids_ok(kids.drop_last());
        if kids.last().named {
            lemma_hchild_ok(kids.last());
            assert(Seq::<Report>::empty() + HChild::plan(kids.last()).reports
                =~= Seq::<Report>::empty());
        }
    }
}

proof fn lemma_heading_ok(n: CstNode, kind: Seq<char>)
    requires
        wf_heading(n, kind),
        kind == "column_heading"@ || kind == "h1"@ || kind == "h2"@,
    ensures
        kind == "column_heading"@ ==> ColumnHeading::plan(n).result == Ok::<(), ErrModel>(())
            && ColumnHeading::plan(n).reports == Seq::<Report>::empty(),
        kind == "h1"@ ==> H1::plan(n).result == Ok::<(), ErrModel>(()) && H1::plan(n).reports
            == Seq::<Report>::empty(),
        kind == "h2"@ ==> H2::plan(n).result == Ok::<(), ErrModel>(()) && H2::plan(n).reports
            == Seq::<Report>::empty(),
{
    lemma_hkids_ok(n.children@);
}

proof fn lemma_h3_ok(n: CstNode)
    requires
        wf_h3(n),
    ensures
        H3::plan(n).result == Ok::<(), ErrModel>(()),
        H3::plan(n).reports == Seq::<Report>::empty(),
{
    lemma_hkids_ok(n.children@.skip(first_named_idx(n.children@, 0) + 1));
}

proof fn lemma_line_ok(n: CstNode)
    requires
        wf_line(n),
    ensures
        Line::plan(n).result == Ok::<(), ErrModel>(()),
        Line::plan(n).reports == Seq::<Report>::empty(),
    decreases n, 0int,
{
    lemma_line_kids_ok(n.children@);
}

proof fn lemma_line_kids_ok(kids: Seq<CstNode>)
    requires
        wf_line_kids(kids),
    ensures
        line_kids_plan(kids).result == Ok::<(), ErrModel>(()),
        line_kids_plan(kids).reports == Seq::<Report>::empty(),
    decreases kids, 3int,
{
    if kids.len() > 0 {
        lemma_line_kids_ok(kids.drop_last());
        if kids.last().named {
            lemma_line_child_ok(kids.last());
            assert(Seq::<Report>::empty() + LineChild::plan(kids.last()).reports
                =~= Seq::<Report>::empty());
        }
    }
}

proof fn lemma_line_child_ok(n: CstNode)
    requires
        wf_line_child(n),
    ensures
        LineChild::plan(n).result == Ok::<(), ErrModel>(()),
        LineChild::plan(n).reports == Seq::<Report>::empty(),
        clean(n),
    decreases n, 1int,
{
    if n.kind@ == "argument"@ {
        lemma_single_ok(n, "argument"@);
    } else if n.kind@ == "codeblock"@ {
        lemma_codeblock_ok(n);
    } else if n.kind@ == "codespan"@ {
        lemma_single_ok(n, "codespan"@);
    } else if n.kind@ == "column_heading"@ {
        lemma_heading_ok(n, "column_heading"@);
    } else if n.kind@ == "h1"@ {
        lemma_heading_ok(n, "h1"@);
    } else if n.kind@ == "h2"@ {
        lemma_heading_ok(n, "h2"@);
    } else if n.kind@ == "h3"@ {
        lemma_h3_ok(n);
    } else if n.kind@ == "keycode"@ {
    } else if n.kind@ == "optionlink"@ {
        lemma_single_ok(n, "optionlink"@);
    } else if n.kind@ == "tag"@ {
        lemma_single_ok(n, "tag"@);
    } else if n.kind@ == "taglink"@ {
        lemma_single_ok(n, "taglink"@);
    } else if n.kind@ == "url"@ {
        lemma_single_ok(n, "url"@);
    }
}

proof fn lemma_codeblock_ok(n: CstNode)
    requires
        wf_codeblock(n),
    ensures
        Codeblock::plan(n).result == Ok::<(), ErrModel>(()),
        Codeblock::plan(n).reports == Seq::<Report>::empty(),
    decreases n, 0int,
{
    lemma_cb_kids_ok(n.children@, true);
}

proof fn lemma_cb_kids_ok(kids: Seq<CstNode>, looking: bool)
    requires
        wf_cb_kids(kids, looking),
    ensures
        cb_tail_plan(kids, looking).result == Ok::<(), ErrModel>(()),
        cb_tail_plan(kids, looking).reports == Seq::<Report>::empty(),
    decreases kids, 3int,
{
    if kids.len() > 0 {
        let c = kids[0];
        if !c.named {
            lemma_cb_kids_ok(kids.drop_first(), looking);
        } else if looking && c.kind@ == "language"@ {
            lemma_cb_kids_ok(kids.drop_first(), false);
        } else {
            lemma_line_ok(c);
            lemma_cb_kids_ok(kids.drop_first(), false);
            assert(Line::plan(c).reports + cb_tail_plan(kids.drop_first(), false).reports
                =~= Seq::<Report>::empty());
        }
    }
}

proof fn lemma_lineli_ok(n: CstNode)
    requires
        wf_lineli(n),
    ensures
        LineLi::plan(n).result == Ok::<(), ErrModel>(()),
        LineLi::plan(n).reports == Seq::<Report>::empty(),
    decreases n, 0int,
{
    lemma_lineli_kids_ok(n.children@);
}

proof fn lemma_lineli_kids_ok(kids: Seq<CstNode>)
    requires
        wf_lineli_kids(kids),
    ensures
        lineli_kids_plan(kids).result == Ok::<(), ErrModel>(()),
        lineli_kids_plan(kids).reports == Seq::<Report>::empty(),
    decreases kids, 3int,
{
    if kids.len() > 0 {
        lemma_lineli_kids_ok(kids.drop_last());
        if kids.last().named {
            lemma_lineli_child_ok(kids.last());
            assert(Seq::<Report>::empty() + LineLiChild::plan(kids.last()).reports
                =~= Seq::<Report>::empty());
        }
    }
}

proof fn lemma_lineli_child_ok(n: CstNode)
    requires
        wf_lineli_child(n),
    ensures
        LineLiChild::plan(n).result == Ok::<(), ErrModel>(()),
        LineLiChild::plan(n).reports == Seq::<Report>::empty(),
        clean(n),
    decreases n, 1int,
{
    if n.kind@ == "codeblock"@ {
        lemma_codeblock_ok(n);
    } else {
        lemma_line_ok(n);
    }
}

proof fn lemma_block_ok(n: CstNode)
    requires
        wf_block(n),
    ensures
        Block::plan(n).result == Ok::<(), ErrModel>(()),
        Block::plan(n).reports == Seq::<Report>::empty(),
        clean(n),
    decreases n, 0int,
{
    lemma_block_kids_ok(n.children@);
}

proof fn lemma_block_kids_ok(kids: Seq<CstNode>)
    requires
        wf_block_kids(kids),
    ensures
        block_kids_plan(kids).result == Ok::<(), ErrModel>(()),
        block_kids_plan(kids).reports == Seq::<Report>::empty(),
    decreases kids, 3int,
{
    if kids.len() > 0 {
        lemma_block_kids_ok(kids.drop_last());
        if kids.last().named {
            lemma_block_child_ok(kids.last());
            assert(Seq::<Report>::empty() + BlockChild::plan(kids.last()).reports
                =~= Seq::<Report>::empty());
        }
    }
}

proof fn lemma_block_child_ok(n: CstNode)
    requires
        wf_block_child(n),
    ensures
        BlockChild::plan(n).result == Ok::<(), ErrModel>(()),
        BlockChild::plan(n).reports == Seq::<Report>::empty(),
        clean(n),
    decreases n, 1int,
{
    if n.kind@ == "line"@ {
        lemma_line_ok(n);
    } else {
        lemma_lineli_ok(n);
    }
}

/// On a fully valid tree — every node fits the grammar and none is an
/// error or missing node — building the typed tree succeeds, and not one
/// malformed-node report is emitted.
pub proof fn lemma_valid_build_succeeds(n: CstNode)
    requires
        wf_help_file(n),
    ensures
        HelpFile::plan(n).result == Ok::<(), ErrModel>(()),
        HelpFile::plan(n).reports == Seq::<Report>::empty(),
{
    lemma_hf_kids_ok(n.children@);
}

proof fn lemma_hf_kids_ok(kids: Seq<CstNode>)
    requires
        wf_hf_kids(kids),
    ensures
        hf_kids_plan(kids).result == Ok::<(), ErrModel>(()),
        hf_kids_plan(kids).reports == Seq::<Report>::empty(),
    decreases kids,
{
    if kids.len() > 0 {
        lemma_hf_kids_ok(kids.drop_last());
        if kids.last().named {
            lemma_block_ok(kids.last());
            assert(Seq::<Report>::empty() + Block::plan(kids.last()).reports
                =~= Seq::<Report>::empty());
        }
    }
}

// ---------------------------------------------------------------------
// The built tree carries the same terminal tokens, in the same order.
// ---------------------------------------------------------------------
/// The kinds whose nodes are terminals: their raw text is a token.
pub open spec fn terminal_kind(k: Seq<char>) -> bool {
    k == "word"@ || k == "keycode"@ || k == "language"@ || k == "uppercase_name"@
}

/// The terminal tokens of the subtree at `n`, in document order: the raw
/// text of every named terminal node.
pub open spec fn cst_tokens(n: CstNode) -> Seq<Seq<char>>
    decreases n, 1int,
{
    if terminal_kind(n.kind@) {
        seq![n.text@]
    } else {
        cst_tokens_after(n.children@, 0)
    }
}

/// The terminal tokens of the named children at index `from` or later.
pub open spec fn cst_tokens_after(kids: Seq<CstNode>, from: int) -> Seq<Seq<char>>
    decreases kids, 2int,
{
    if kids.len() == 0 || kids.len() <= from {
        Seq::empty()
    } else {
        cst_tokens_after(kids.drop_last(), from) + (if kids.last().named {
            cst_tokens(kids.last())
        } else {
            Seq::empty()
        })
    }
}

impl Word {
    /// The tokens of the built value.
    pub open spec fn tokens(self) -> Seq<Seq<char>> {
        seq![self.0@]
    }
}

impl Keycode {
    /// The tokens of the built value.
    pub open spec fn tokens(self) -> Seq<Seq<char>> {
        seq![self.0@]
    }
}

impl Language {
    /// The tokens of the built value.
    pub open spec fn tokens(self) -> Seq<Seq<char>> {
        seq![self.0@]
    }
}

impl UppercaseName {
    /// The tokens of the built value.
    pub open spec fn tokens(self) -> Seq<Seq<char>> {
        seq![self.0@]
    }
}

impl HChild {
    /// The tokens of the built value.
    pub open spec fn tokens(self) -> Seq<Seq<char>> {
        match self {
            HChild::Argument(x) => x.text.tokens(),
            HChild::Codespan(x) => x.text.tokens(),
            HChild::Keycode(x) => x.tokens(),
            HChild::Optionlink(x) => x.text.tokens(),
            HChild::Tag(x) => x.text.tokens(),
            HChild::Taglink(x) => x.text.tokens(),
            HChild::Url(x) => x.text.tokens(),
            HChild::Word(x) => x.tokens(),
        }
    }
}

/// The tokens of a sequence of heading children.
pub open spec fn hchild_list_tokens(bs: Seq<HChild>) -> Seq<Seq<char>>
    decreases bs,
{
    if bs.len() == 0 {
        Seq::empty()
    } else {
        hchild_list_tokens(bs.drop_last()) + bs.last().tokens()
    }
}

impl H3 {
    /// The tokens of the built value.
    pub open spec fn tokens(self) -> Seq<Seq<char>> {
        self.name.tokens() + hchild_list_tokens(self.children@)
    }
}

impl Line {
    /// The tokens of the built value.
    pub open spec fn tokens(self) -> Seq<Seq<char>>
        decreases self, 0int,
    {
        linechild_list_tokens(self.children@)
    }
}

/// The tokens of a sequence of line children.
pub open spec fn linechild_list_tokens(bs: Seq<LineChild>) -> Seq<Seq<char>>
    decreases bs, 3int,
{
    if bs.len() == 0 {
        Seq::empty()
    } else {
        linechild_list_tokens(bs.drop_last()) + bs.last().tokens()
    }
}

impl LineChild {
    /// The tokens of the built value.
    pub open spec fn tokens(self) -> Seq<Seq<char>>
        decreases self, 1int,
    {
        match self {
            LineChild::Argument(x) => x.text.tokens(),
            LineChild::Codeblock(x) => x.tokens(),
            LineChild::Codespan(x) => x.text.tokens(),
            LineChild::ColumnHeading(x) => hchild_list_tokens(x.name@),
            LineChild::H1(x) => hchild_list_tokens(x.children@),
            LineChild::H2(x) => hchild_list_tokens(x.children@),
            LineChild::H3(x) => x.tokens(),
            LineChild::Keycode(x) => x.tokens(),
            LineChild::Optionlink(x) => x.text.tokens(),
            LineChild::Tag(x) => x.text.tokens(),
            LineChild::Taglink(x) => x.text.tokens(),
            LineChild::Url(x) => x.text.tokens(),
            LineChild::Word(x) => x.tokens(),
        }
    }
}

impl Codeblock {
    /// The tokens of the built value.
    pub open spec fn tokens(self) -> Seq<Seq<char>>
        decreases self, 0int,
    {
        (match self.language {
            Some(l) => l.tokens(),
            None => Seq::empty(),
        }) + line_list_tokens(self.children@)
    }
}

/// The tokens of a sequence of lines.
pub open spec fn line_list_tokens(bs: Seq<Line>) -> Seq<Seq<char>>
    decreases bs, 3int,
{
    if bs.len() == 0 {
        Seq::empty()
    } else {
        line_list_tokens(bs.drop_last()) + bs.last().tokens()
    }
}

impl LineLi {
    /// The tokens of the built value.
    pub open spec fn tokens(self) -> Seq<Seq<char>>
        decreases self, 0int,
    {
        lineli_child_list_tokens(self.children@)
    }
}

/// The tokens of a sequence of list-item children.
pub open spec fn lineli_child_list_tokens(bs: Seq<LineLiChild>) -> Seq<Seq<char>>
    decreases bs, 3int,
{
    if bs.len() == 0 {
        Seq::empty()
    } else {
        lineli_child_list_tokens(bs.drop_last()) + bs.last().tokens()
    }
}

impl LineLiChild {
    /// The tokens of the built value.
    pub open spec fn tokens(self) -> Seq<Seq<char>>
        decreases self, 1int,
    {
        match self {
            LineLiChild::Codeblock(x) => x.tokens(),
            LineLiChild::Line(x) => x.tokens(),
        }
    }
}

impl Block {
    /// The tokens of the built value.
    pub open spec fn tokens(self) -> Seq<Seq<char>>
        decreases self, 0int,
    {
        blockchild_list_tokens(self.children@)
    }
}

/// The tokens of a sequence of block children.
pub open spec fn blockchild_list_tokens(bs: Seq<BlockChild>) -> Seq<Seq<char>>
    decreases bs, 3int,
{
    if bs.len() == 0 {
        Seq::empty()
    } else {
        blockchild_list_tokens(bs.drop_last()) + bs.last().tokens()
    }
}

impl BlockChild {
    /// The tokens of the built value.
    pub open spec fn tokens(self) -> Seq<Seq<char>>
        decreases self, 1int,
    {
        match self {
            BlockChild::Line(x) => x.tokens(),
            BlockChild::LineLi(x) => x.tokens(),
        }
    }
}

impl HelpFile {
    /// The tokens of the built value.
    pub open spec fn tokens(self) -> Seq<Seq<char>>
        decreases self, 0int,
    {
        block_list_tokens(self.children@)
    }
}

/// The tokens of a sequence of blocks.
pub open spec fn block_list_tokens(bs: Seq<Block>) -> Seq<Seq<char>>
    decreases bs, 3int,
{
    if bs.len() == 0 {
        Seq::empty()
    } else {
        block_list_tokens(bs.drop_last()) + bs.last().tokens()
    }
}

proof fn lemma_tokens_skip(kids: Seq<CstNode>, from: int)
    requires
        0 <= from <= kids.len(),
    ensures
        cst_tokens_after(kids, from) == cst_tokens_after(kids.skip(from), 0),
    decreases kids,
{
    if kids.len() == from {
        assert(kids.skip(from) =~= Seq::<CstNode>::empty());
    } else {
        assert(kids.skip(from).last() == kids.last());
        assert(kids.skip(from).drop_last() =~= kids.drop_last().skip(from));
        lemma_tokens_skip(kids.drop_last(), from);
    }
}

proof fn lemma_tokens_unnamed(kids: Seq<CstNode>, from: int)
    requires
        0 <= from,
        forall|q: int| from <= q < kids.len() ==> !(#[trigger] kids[q]).named,
    ensures
        cst_tokens_after(kids, from) == Seq::<Seq<char>>::empty(),
    decreases kids,
{
    if kids.len() > 0 && kids.len() > from {
        assert forall|q: int| from <= q < kids.drop_last().len() implies !(#[trigger] kids.drop_last()[q]).named by {
            assert(kids.drop_last()[q] == kids[q]);
        }
        lemma_tokens_unnamed(kids.drop_last(), from);
        assert(Seq::<Seq<char>>::empty() + Seq::<Seq<char>>::empty()
            =~= Seq::<Seq<char>>::empty());
    }
}

proof fn lemma_tokens_split(kids: Seq<CstNode>, fi: int)
    requires
        0 <= fi < kids.len(),
        kids[fi].named,
        forall|q: int| 0 <= q < fi ==> !(#[trigger] kids[q]).named,
    ensures
        cst_tokens_after(kids, 0) == cst_tokens(kids[fi]) + cst_tokens_after(kids, fi + 1),
    decreases kids,
{
    if kids.len() == fi + 1 {
        assert(forall|q: int|
            0 <= q < kids.drop_last().len() ==> !(#[trigger] kids.drop_last()[q]).named);
        lemma_tokens_unnamed(kids.drop_last(), 0);
        assert(cst_tokens_after(kids, 0) =~= cst_tokens(kids[fi]));
        assert(cst_tokens(kids[fi]) + cst_tokens_after(kids, fi + 1) =~= cst_tokens(kids[fi]));
    } else {
        assert(kids.drop_last()[fi] == kids[fi]);
        lemma_tokens_split(kids.drop_last(), fi);
        let part = if kids.last().named {
            cst_tokens(kids.last())
        } else {
            Seq::<Seq<char>>::empty()
        };
        assert(cst_tokens_after(kids, fi + 1) == cst_tokens_after(kids.drop_last(), fi + 1)
            + part);
        assert((cst_tokens(kids[fi]) + cst_tokens_after(kids.drop_last(), fi + 1)) + part
            =~= cst_tokens(kids[fi]) + (cst_tokens_after(kids.drop_last(), fi + 1) + part));
    }
}

proof fn lemma_tokens_front(kids: Seq<CstNode>)
    requires
        kids.len() > 0,
    ensures
        cst_tokens_after(kids, 0) == (if kids[0].named {
            cst_tokens(kids[0])
        } else {
            Seq::<Seq<char>>::empty()
        }) + cst_tokens_after(kids.drop_first(), 0),
    decreases kids,
{
    let part0 = if kids[0].named {
        cst_tokens(kids[0])
    } else {
        Seq::<Seq<char>>::empty()
    };
    if kids.len() == 1 {
        assert(kids.drop_first() =~= Seq::<CstNode>::empty());
        assert(kids.drop_last() =~= Seq::<CstNode>::empty());
        assert(kids.last() == kids[0]);
        assert(cst_tokens_after(kids, 0) =~= part0 + cst_tokens_after(kids.drop_first(), 0));
    } else {
        lemma_tokens_front(kids.drop_last());
        assert(kids.drop_last()[0] == kids[0]);
        assert(kids.drop_first().drop_last() =~= kids.drop_last().drop_first());
        assert(kids.drop_first().last() == kids.last());
        let part = if kids.last().named {
            cst_tokens(kids.last())
        } else {
            Seq::<Seq<char>>::empty()
        };
        assert(cst_tokens_after(kids.drop_first(), 0) == cst_tokens_after(
            kids.drop_last().drop_first(),
            0,
        ) + part);
        assert((part0 + cst_tokens_after(kids.drop_last().drop_first(), 0)) + part =~= part0 + (
        cst_tokens_after(kids.drop_last().drop_first(), 0) + part));
    }
}

proof fn lemma_first_included_shift(kids: Seq<CstNode>)
    requires
        kids.len() > 0,
        !included(kids[0]),
    ensures
        first_included_idx(kids, 0) == first_included_idx(kids.drop_first(), 0) + 1,
    decreases kids.len(),
{
    lemma_first_included_sub(kids, 1);
}

proof fn lemma_first_included_sub(kids: Seq<CstNode>, p: int)
    requires
        1 <= p <= kids.len(),
    ensures
        first_included_idx(kids, p) == first_included_idx(kids.drop_first(), p - 1) + 1,
    decreases kids.len() - p,
{
    if p == kids.len() {
    } else {
        assert(kids.drop_first()[p - 1] == kids[p]);
        if !included(kids[p]) {
            lemma_first_included_sub(kids, p + 1);
        }
    }
}

proof fn lemma_matches_lines_shift(bs: Seq<Line>, kids: Seq<CstNode>, from: int)
    requires
        kids.len() > 0,
        1 <= from,
    ensures
        matches_lines_after(bs, kids, from) == matches_lines_after(bs, kids.drop_first(), from - 1),
    decreases kids,
{
    if kids.len() == 1 {
        assert(kids.drop_first() =~= Seq::<CstNode>::empty());
    } else {
        assert(kids.drop_first().last() == kids.last());
        assert(kids.drop_first().drop_last() =~= kids.drop_last().drop_first());
        if kids.len() > from {
            lemma_matches_lines_shift(bs, kids.drop_last(), from);
            if included(kids.last()) && bs.len() > 0 {
                lemma_matches_lines_shift(bs.drop_last(), kids.drop_last(), from);
            }
        }
    }
}

proof fn lemma_matches_lines_front(bs: Seq<Line>, kids: Seq<CstNode>)
    requires
        kids.len() > 0,
        included(kids[0]),
        matches_lines_after(bs, kids, 0),
    ensures
        bs.len() > 0,
        bs[0].matches(kids[0]),
        matches_lines_after(bs.drop_first(), kids.drop_first(), 0),
    decreases kids,
{
    if kids.len() == 1 {
        assert(kids.last() == kids[0]);
        assert(kids.drop_last() =~= Seq::<CstNode>::empty());
        assert(matches_lines_after(bs.drop_last(), kids.drop_last(), 0));
        assert(bs.drop_last().len() == 0);
        assert(bs.len() == 1);
        assert(bs[0] == bs.last());
        assert(bs.drop_first() =~= Seq::<Line>::empty());
        assert(kids.drop_first() =~= Seq::<CstNode>::empty());
    } else {
        assert(kids.drop_last()[0] == kids[0]);
        assert(kids.drop_first().last() == kids.last());
        assert(kids.drop_first().drop_last() =~= kids.drop_last().drop_first());
        if !included(kids.last()) {
            lemma_matches_lines_front(bs, kids.drop_last());
        } else {
            lemma_matches_lines_front(bs.drop_last(), kids.drop_last());
            assert(bs.drop_last()[0] == bs[0]);
            assert(bs.drop_first().last() == bs.last());
            assert(bs.drop_first().drop_last() =~= bs.drop_last().drop_first());
        }
    }
}

proof fn lemma_line_list_tokens_front(bs: Seq<Line>)
    requires
        bs.len() > 0,
    ensures
        line_list_tokens(bs) == bs[0].tokens() + line_list_tokens(bs.drop_first()),
    decreases bs,
{
    if bs.len() == 1 {
        assert(bs.drop_first() =~= Seq::<Line>::empty());
        assert(bs.drop_last() =~= Seq::<Line>::empty());
        assert(bs.last() == bs[0]);
        assert(line_list_tokens(bs) =~= bs[0].tokens() + line_list_tokens(bs.drop_first()));
    } else {
        lemma_line_list_tokens_front(bs.drop_last());
        assert(bs.drop_last()[0] == bs[0]);
        assert(bs.drop_first().last() == bs.last());
        assert(bs.drop_first().drop_last() =~= bs.drop_last().drop_first());
        assert((bs[0].tokens() + line_list_tokens(bs.drop_last().drop_first()))
            + bs.last().tokens() =~= bs[0].tokens() + (line_list_tokens(
            bs.drop_last().drop_first(),
        ) + bs.last().tokens()));
    }
}


/// The grammar's kind strings are pairwise distinct, and exactly the
/// four terminal kinds satisfy [`terminal_kind`].
proof fn lemma_kinds()
    ensures
        "argument"@ != "block"@,
        "argument"@ != "codeblock"@,
        "argument"@ != "codespan"@,
        "argument"@ != "column_heading"@,
        "argument"@ != "h1"@,
        "argument"@ != "h2"@,
        "argument"@ != "h3"@,
        "argument"@ != "help_file"@,
        "argument"@ != "keycode"@,
        "argument"@ != "language"@,
        "argument"@ != "line"@,
        "argument"@ != "line_li"@,
        "argument"@ != "optionlink"@,
        "argument"@ != "tag"@,
        "argument"@ != "taglink"@,
        "argument"@ != "uppercase_name"@,
        "argument"@ != "url"@,
        "argument"@ != "word"@,
        "block"@ != "codeblock"@,
        "block"@ != "codespan"@,
        "block"@ != "column_heading"@,
        "block"@ != "h1"@,
        "block"@ != "h2"@,
        "block"@ != "h3"@,
        "block"@ != "help_file"@,
        "block"@ != "keycode"@,
        "block"@ != "language"@,
        "block"@ != "line"@,
        "block"@ != "line_li"@,
        "block"@ != "optionlink"@,
        "block"@ != "tag"@,
        "block"@ != "taglink"@,
        "block"@ != "uppercase_name"@,
        "block"@ != "url"@,
        "block"@ != "word"@,
        "codeblock"@ != "codespan"@,
        "codeblock"@ != "column_heading"@,
        "codeblock"@ != "h1"@,
        "codeblock"@ != "h2"@,
        "codeblock"@ != "h3"@,
        "codeblock"@ != "help_file"@,
        "codeblock"@ != "keycode"@,
        "codeblock"@ != "language"@,
        "codeblock"@ != "line"@,
        "codeblock"@ != "line_li"@,
        "codeblock"@ != "optionlink"@,
        "codeblock"@ != "tag"@,
        "codeblock"@ != "taglink"@,
        "codeblock"@ != "uppercase_name"@,
        "codeblock"@ != "url"@,
        "codeblock"@ != "word"@,
        "codespan"@ != "column_heading"@,
        "codespan"@ != "h1"@,
        "codespan"@ != "h2"@,
        "codespan"@ != "h3"@,
        "codespan"@ != "help_file"@,
        "codespan"@ != "keycode"@,
        "codespan"@ != "language"@,
        "codespan"@ != "line"@,
        "codespan"@ != "line_li"@,
        "codespan"@ != "optionlink"@,
        "codespan"@ != "tag"@,
        "codespan"@ != "taglink"@,
        "codespan"@ != "uppercase_name"@,
        "codespan"@ != "url"@,
        "codespan"@ != "word"@,
        "column_heading"@ != "h1"@,
        "column_heading"@ != "h2"@,
        "column_heading"@ != "h3"@,
        "column_heading"@ != "help_file"@,
        "column_heading"@ != "keycode"@,
        "column_heading"@ != "language"@,
        "column_heading"@ != "line"@,
        "column_heading"@ != "line_li"@,
        "column_heading"@ != "optionlink"@,
        "column_heading"@ != "tag"@,
        "column_heading"@ != "taglink"@,
        "column_heading"@ != "uppercase_name"@,
        "column_heading"@ != "url"@,
        "column_heading"@ != "word"@,
        "h1"@ != "h2"@,
        "h1"@ != "h3"@,
        "h1"@ != "help_file"@,
        "h1"@ != "keycode"@,
        "h1"@ != "language"@,
        "h1"@ != "line"@,
        "h1"@ != "line_li"@,
        "h1"@ != "optionlink"@,
        "h1"@ != "tag"@,
        "h1"@ != "taglink"@,
        "h1"@ != "uppercase_name"@,
        "h1"@ != "url"@,
        "h1"@ != "word"@,
        "h2"@ != "h3"@,
        "h2"@ != "help_file"@,
        "h2"@ != "keycode"@,
        "h2"@ != "language"@,
        "h2"@ != "line"@,
        "h2"@ != "line_li"@,
        "h2"@ != "optionlink"@,
        "h2"@ != "tag"@,
        "h2"@ != "taglink"@,
        "h2"@ != "uppercase_name"@,
        "h2"@ != "url"@,
        "h2"@ != "word"@,
        "h3"@ != "help_file"@,
        "h3"@ != "keycode"@,
        "h3"@ != "language"@,
        "h3"@ != "line"@,
        "h3"@ != "line_li"@,
        "h3"@ != "optionlink"@,
        "h3"@ != "tag"@,
        "h3"@ != "taglink"@,
        "h3"@ != "uppercase_name"@,
        "h3"@ != "url"@,
        "h3"@ != "word"@,
        "help_file"@ != "keycode"@,
        "help_file"@ != "language"@,
        "help_file"@ != "line"@,
        "help_file"@ != "line_li"@,
        "help_file"@ != "optionlink"@,
        "help_file"@ != "tag"@,
        "help_file"@ != "taglink"@,
        "help_file"@ != "uppercase_name"@,
        "help_file"@ != "url"@,
        "help_file"@ != "word"@,
        "keycode"@ != "language"@,
        "keycode"@ != "line"@,
        "keycode"@ != "line_li"@,
        "keycode"@ != "optionlink"@,
        "keycode"@ != "tag"@,
        "keycode"@ != "taglink"@,
        "keycode"@ != "uppercase_name"@,
        "keycode"@ != "url"@,
        "keycode"@ != "word"@,
        "language"@ != "line"@,
        "language"@ != "line_li"@,
        "language"@ != "optionlink"@,
        "language"@ != "tag"@,
        "language"@ != "taglink"@,
        "language"@ != "uppercase_name"@,
        "language"@ != "url"@,
        "language"@ != "word"@,
        "line"@ != "line_li"@,
        "line"@ != "optionlink"@,
        "line"@ != "tag"@,
        "line"@ != "taglink"@,
        "line"@ != "uppercase_name"@,
        "line"@ != "url"@,
        "line"@ != "word"@,
        "line_li"@ != "optionlink"@,
        "line_li"@ != "tag"@,
        "line_li"@ != "taglink"@,
        "line_li"@ != "uppercase_name"@,
        "line_li"@ != "url"@,
        "line_li"@ != "word"@,
        "optionlink"@ != "tag"@,
        "optionlink"@ != "taglink"@,
        "optionlink"@ != "uppercase_name"@,
        "optionlink"@ != "url"@,
        "optionlink"@ != "word"@,
        "tag"@ != "taglink"@,
        "tag"@ != "uppercase_name"@,
        "tag"@ != "url"@,
        "tag"@ != "word"@,
        "taglink"@ != "uppercase_name"@,
        "taglink"@ != "url"@,
        "taglink"@ != "word"@,
        "uppercase_name"@ != "url"@,
        "uppercase_name"@ != "word"@,
        "url"@ != "word"@,
        terminal_kind("word"@),
        terminal_kind("keycode"@),
        terminal_kind("language"@),
        terminal_kind("uppercase_name"@),
        !terminal_kind("argument"@),
        !terminal_kind("block"@),
        !terminal_kind("codeblock"@),
        !terminal_kind("codespan"@),
        !terminal_kind("column_heading"@),
        !terminal_kind("h1"@),
        !terminal_kind("h2"@),
        !terminal_kind("h3"@),
        !terminal_kind("help_file"@),
        !terminal_kind("line"@),
        !terminal_kind("line_li"@),
        !terminal_kind("optionlink"@),
        !terminal_kind("tag"@),
        !terminal_kind("taglink"@),
        !terminal_kind("url"@),
{
    reveal_strlit("argument");
    reveal_strlit("block");
    reveal_strlit("codeblock");
    reveal_strlit("codespan");
    reveal_strlit("column_heading");
    reveal_strlit("h1");
    reveal_strlit("h2");
    reveal_strlit("h3");
    reveal_strlit("help_file");
    reveal_strlit("keycode");
    reveal_strlit("language");
    reveal_strlit("line");
    reveal_strlit("line_li");
    reveal_strlit("optionlink");
    reveal_strlit("tag");
    reveal_strlit("taglink");
    reveal_strlit("uppercase_name");
    reveal_strlit("url");
    reveal_strlit("word");
    assert("argument"@ != "block"@) by {
        assert("argument"@.len() == 8);
        assert("block"@.len() == 5);
    }
    assert("argument"@ != "codeblock"@) by {
        assert("argument"@.len() == 8);
        assert("codeblock"@.len() == 9);
    }
    assert("argument"@ != "column_heading"@) by {
        assert("argument"@.len() == 8);
        assert("column_heading"@.len() == 14);
    }
    assert("argument"@ != "h1"@) by {
        assert("argument"@.len() == 8);
        assert("h1"@.len() == 2);
    }
    assert("argument"@ != "h2"@) by {
        assert("argument"@.len() == 8);
        assert("h2"@.len() == 2);
    }
    assert("argument"@ != "h3"@) by {
        assert("argument"@.len() == 8);
        assert("h3"@.len() == 2);
    }
    assert("argument"@ != "help_file"@) by {
        assert("argument"@.len() == 8);
        assert("help_file"@.len() == 9);
    }
    assert("argument"@ != "keycode"@) by {
        assert("argument"@.len() == 8);
        assert("keycode"@.len() == 7);
    }
    assert("argument"@ != "line"@) by {
        assert("argument"@.len() == 8);
        assert("line"@.len() == 4);
    }
    assert("argument"@ != "line_li"@) by {
        assert("argument"@.len() == 8);
        assert("line_li"@.len() == 7);
    }
    assert("argument"@ != "optionlink"@) by {
        assert("argument"@.len() == 8);
        assert("optionlink"@.len() == 10);
    }
    assert("argument"@ != "tag"@) by {
        assert("argument"@.len() == 8);
        assert("tag"@.len() == 3);
    }
    assert("argument"@ != "taglink"@) by {
        assert("argument"@.len() == 8);
        assert("taglink"@.len() == 7);
    }
    assert("argument"@ != "uppercase_name"@) by {
        assert("argument"@.len() == 8);
        assert("uppercase_name"@.len() == 14);
    }
    assert("argument"@ != "url"@) by {
        assert("argument"@.len() == 8);
        assert("url"@.len() == 3);
    }
    assert("argument"@ != "word"@) by {
        assert("argument"@.len() == 8);
        assert("word"@.len() == 4);
    }
    assert("block"@ != "codeblock"@) by {
        assert("block"@.len() == 5);
        assert("codeblock"@.len() == 9);
    }
    assert("block"@ != "codespan"@) by {
        assert("block"@.len() == 5);
        assert("codespan"@.len() == 8);
    }
    assert("block"@ != "column_heading"@) by {
        assert("block"@.len() == 5);
        assert("column_heading"@.len() == 14);
    }
    assert("block"@ != "h1"@) by {
        assert("block"@.len() == 5);
        assert("h1"@.len() == 2);
    }
    assert("block"@ != "h2"@) by {
        assert("block"@.len() == 5);
        assert("h2"@.len() == 2);
    }
    assert("block"@ != "h3"@) by {
        assert("block"@.len() == 5);
        assert("h3"@.len() == 2);
    }
    assert("block"@ != "help_file"@) by {
        assert("block"@.len() == 5);
        assert("help_file"@.len() == 9);
    }
    assert("block"@ != "keycode"@) by {
        assert("block"@.len() == 5);
        assert("keycode"@.len() == 7);
    }
    assert("block"@ != "language"@) by {
        assert("block"@.len() == 5);
        assert("language"@.len() == 8);
    }
    assert("block"@ != "line"@) by {
        assert("block"@.len() == 5);
        assert("line"@.len() == 4);
    }
    assert("block"@ != "line_li"@) by {
        assert("block"@.len() == 5);
        assert("line_li"@.len() == 7);
    }
    assert("block"@ != "optionlink"@) by {
        assert("block"@.len() == 5);
        assert("optionlink"@.len() == 10);
    }
    assert("block"@ != "tag"@) by {
        assert("block"@.len() == 5);
        assert("tag"@.len() == 3);
    }
    assert("block"@ != "taglink"@) by {
        assert("block"@.len() == 5);
        assert("taglink"@.len() == 7);
    }
    assert("block"@ != "uppercase_name"@) by {
        assert("block"@.len() == 5);
        assert("uppercase_name"@.len() == 14);
    }
    assert("block"@ != "url"@) by {
        assert("block"@.len() == 5);
        assert("url"@.len() == 3);
    }
    assert("block"@ != "word"@) by {
        assert("block"@.len() == 5);
        assert("word"@.len() == 4);
    }
    assert("codeblock"@ != "codespan"@) by {
        assert("codeblock"@.len() == 9);
        assert("codespan"@.len() == 8);
    }
    assert("codeblock"@ != "column_heading"@) by {
        assert("codeblock"@.len() == 9);
        assert("column_heading"@.len() == 14);
    }
    assert("codeblock"@ != "h1"@) by {
        assert("codeblock"@.len() == 9);
        assert("h1"@.len() == 2);
    }
    assert("codeblock"@ != "h2"@) by {
        assert("codeblock"@.len() == 9);
        assert("h2"@.len() == 2);
    }
    assert("codeblock"@ != "h3"@) by {
        assert("codeblock"@.len() == 9);
        assert("h3"@.len() == 2);
    }
    assert("codeblock"@ != "keycode"@) by {
        assert("codeblock"@.len() == 9);
        assert("keycode"@.len() == 7);
    }
    assert("codeblock"@ != "language"@) by {
        assert("codeblock"@.len() == 9);
        assert("language"@.len() == 8);
    }
    assert("codeblock"@ != "line"@) by {
        assert("codeblock"@.len() == 9);
        assert("line"@.len() == 4);
    }
    assert("codeblock"@ != "line_li"@) by {
        assert("codeblock"@.len() == 9);
        assert("line_li"@.len() == 7);
    }
    assert("codeblock"@ != "optionlink"@) by {
        assert("codeblock"@.len() == 9);
        assert("optionlink"@.len() == 10);
    }
    assert("codeblock"@ != "tag"@) by {
        assert("codeblock"@.len() == 9);
        assert("tag"@.len() == 3);
    }
    assert("codeblock"@ != "taglink"@) by {
        assert("codeblock"@.len() == 9);
        assert("taglink"@.len() == 7);
    }
    assert("codeblock"@ != "uppercase_name"@) by {
        assert("codeblock"@.len() == 9);
        assert("uppercase_name"@.len() == 14);
    }
    assert("codeblock"@ != "url"@) by {
        assert("codeblock"@.len() == 9);
        assert("url"@.len() == 3);
    }
    assert("codeblock"@ != "word"@) by {
        assert("codeblock"@.len() == 9);
        assert("word"@.len() == 4);
    }
    assert("codespan"@ != "column_heading"@) by {
        assert("codespan"@.len() == 8);
        assert("column_heading"@.len() == 14);
    }
    assert("codespan"@ != "h1"@) by {
        assert("codespan"@.len() == 8);
        assert("h1"@.len() == 2);
    }
    assert("codespan"@ != "h2"@) by {
        assert("codespan"@.len() == 8);
        assert("h2"@.len() == 2);
    }
    assert("codespan"@ != "h3"@) by {
        assert("codespan"@.len() == 8);
        assert("h3"@.len() == 2);
    }
    assert("codespan"@ != "help_file"@) by {
        assert("codespan"@.len() == 8);
        assert("help_file"@.len() == 9);
    }
    assert("codespan"@ != "keycode"@) by {
        assert("codespan"@.len() == 8);
        assert("keycode"@.len() == 7);
    }
    assert("codespan"@ != "line"@) by {
        assert("codespan"@.len() == 8);
        assert("line"@.len() == 4);
    }
    assert("codespan"@ != "line_li"@) by {
        assert("codespan"@.len() == 8);
        assert("line_li"@.len() == 7);
    }
    assert("codespan"@ != "optionlink"@) by {
        assert("codespan"@.len() == 8);
        assert("optionlink"@.len() == 10);
    }
    assert("codespan"@ != "tag"@) by {
        assert("codespan"@.len() == 8);
        assert("tag"@.len() == 3);
    }
    assert("codespan"@ != "taglink"@) by {
        assert("codespan"@.len() == 8);
        assert("taglink"@.len() == 7);
    }
    assert("codespan"@ != "uppercase_name"@) by {
        assert("codespan"@.len() == 8);
        assert("uppercase_name"@.len() == 14);
    }
    assert("codespan"@ != "url"@) by {
        assert("codespan"@.len() == 8);
        assert("url"@.len() == 3);
    }
    assert("codespan"@ != "word"@) by {
        assert("codespan"@.len() == 8);
        assert("word"@.len() == 4);
    }
    assert("column_heading"@ != "h1"@) by {
        assert("column_heading"@.len() == 14);
        assert("h1"@.len() == 2);
    }
    assert("column_heading"@ != "h2"@) by {
        assert("column_heading"@.len() == 14);
        assert("h2"@.len() == 2);
    }
    assert("column_heading"@ != "h3"@) by {
        assert("column_heading"@.len() == 14);
        assert("h3"@.len() == 2);
    }
    assert("column_heading"@ != "help_file"@) by {
        assert("column_heading"@.len() == 14);
        assert("help_file"@.len() == 9);
    }
    assert("column_heading"@ != "keycode"@) by {
        assert("column_heading"@.len() == 14);
        assert("keycode"@.len() == 7);
    }
    assert("column_heading"@ != "language"@) by {
        assert("column_heading"@.len() == 14);
        assert("language"@.len() == 8);
    }
    assert("column_heading"@ != "line"@) by {
        assert("column_heading"@.len() == 14);
        assert("line"@.len() == 4);
    }
    assert("column_heading"@ != "line_li"@) by {
        assert("column_heading"@.len() == 14);
        assert("line_li"@.len() == 7);
    }
    assert("column_heading"@ != "optionlink"@) by {
        assert("column_heading"@.len() == 14);
        assert("optionlink"@.len() == 10);
    }
    assert("column_heading"@ != "tag"@) by {
        assert("column_heading"@.len() == 14);
        assert("tag"@.len() == 3);
    }
    assert("column_heading"@ != "taglink"@) by {
        assert("column_heading"@.len() == 14);
        assert("taglink"@.len() == 7);
    }
    assert("column_heading"@ != "url"@) by {
        assert("column_heading"@.len() == 14);
        assert("url"@.len() == 3);
    }
    assert("column_heading"@ != "word"@) by {
        assert("column_heading"@.len() == 14);
        assert("word"@.len() == 4);
    }
    assert("h1"@ != "help_file"@) by {
        assert("h1"@.len() == 2);
        assert("help_file"@.len() == 9);
    }
    assert("h1"@ != "keycode"@) by {
        assert("h1"@.len() == 2);
        assert("keycode"@.len() == 7);
    }
    assert("h1"@ != "language"@) by {
        assert("h1"@.len() == 2);
        assert("language"@.len() == 8);
    }
    assert("h1"@ != "line"@) by {
        assert("h1"@.len() == 2);
        assert("line"@.len() == 4);
    }
    assert("h1"@ != "line_li"@) by {
        assert("h1"@.len() == 2);
        assert("line_li"@.len() == 7);
    }
    assert("h1"@ != "optionlink"@) by {
        assert("h1"@.len() == 2);
        assert("optionlink"@.len() == 10);
    }
    assert("h1"@ != "tag"@) by {
        assert("h1"@.len() == 2);
        assert("tag"@.len() == 3);
    }
    assert("h1"@ != "taglink"@) by {
        assert("h1"@.len() == 2);
        assert("taglink"@.len() == 7);
    }
    assert("h1"@ != "uppercase_name"@) by {
        assert("h1"@.len() == 2);
        assert("uppercase_name"@.len() == 14);
    }
    assert("h1"@ != "url"@) by {
        assert("h1"@.len() == 2);
        assert("url"@.len() == 3);
    }
    assert("h1"@ != "word"@) by {
        assert("h1"@.len() == 2);
        assert("word"@.len() == 4);
    }
    assert("h2"@ != "help_file"@) by {
        assert("h2"@.len() == 2);
        assert("help_file"@.len() == 9);
    }
    assert("h2"@ != "keycode"@) by {
        assert("h2"@.len() == 2);
        assert("keycode"@.len() == 7);
    }
    assert("h2"@ != "language"@) by {
        assert("h2"@.len() == 2);
        assert("language"@.len() == 8);
    }
    assert("h2"@ != "line"@) by {
        assert("h2"@.len() == 2);
        assert("line"@.len() == 4);
    }
    assert("h2"@ != "line_li"@) by {
        assert("h2"@.len() == 2);
        assert("line_li"@.len() == 7);
    }
    assert("h2"@ != "optionlink"@) by {
        assert("h2"@.len() == 2);
        assert("optionlink"@.len() == 10);
    }
    assert("h2"@ != "tag"@) by {
        assert("h2"@.len() == 2);
        assert("tag"@.len() == 3);
    }
    assert("h2"@ != "taglink"@) by {
        assert("h2"@.len() == 2);
        assert("taglink"@.len() == 7);
    }
    assert("h2"@ != "uppercase_name"@) by {
        assert("h2"@.len() == 2);
        assert("uppercase_name"@.len() == 14);
    }
    assert("h2"@ != "url"@) by {
        assert("h2"@.len() == 2);
        assert("url"@.len() == 3);
    }
    assert("h2"@ != "word"@) by {
        assert("h2"@.len() == 2);
        assert("word"@.len() == 4);
    }
    assert("h3"@ != "help_file"@) by {
        assert("h3"@.len() == 2);
        assert("help_file"@.len() == 9);
    }
    assert("h3"@ != "keycode"@) by {
        assert("h3"@.len() == 2);
        assert("keycode"@.len() == 7);
    }
    assert("h3"@ != "language"@) by {
        assert("h3"@.len() == 2);
        assert("language"@.len() == 8);
    }
    assert("h3"@ != "line"@) by {
        assert("h3"@.len() == 2);
        assert("line"@.len() == 4);
    }
    assert("h3"@ != "line_li"@) by {
        assert("h3"@.len() == 2);
        assert("line_li"@.len() == 7);
    }
    assert("h3"@ != "optionlink"@) by {
        assert("h3"@.len() == 2);
        assert("optionlink"@.len() == 10);
    }
    assert("h3"@ != "tag"@) by {
        assert("h3"@.len() == 2);
        assert("tag"@.len() == 3);
    }
    assert("h3"@ != "taglink"@) by {
        assert("h3"@.len() == 2);
        assert("taglink"@.len() == 7);
    }
    assert("h3"@ != "uppercase_name"@) by {
        assert("h3"@.len() == 2);
        assert("uppercase_name"@.len() == 14);
    }
    assert("h3"@ != "url"@) by {
        assert("h3"@.len() == 2);
        assert("url"@.len() == 3);
    }
    assert("h3"@ != "word"@) by {
        assert("h3"@.len() == 2);
        assert("word"@.len() == 4);
    }
    assert("help_file"@ != "keycode"@) by {
        assert("help_file"@.len() == 9);
        assert("keycode"@.len() == 7);
    }
    assert("help_file"@ != "language"@) by {
        assert("help_file"@.len() == 9);
        assert("language"@.len() == 8);
    }
    assert("help_file"@ != "line"@) by {
        assert("help_file"@.len() == 9);
        assert("line"@.len() == 4);
    }
    assert("help_file"@ != "line_li"@) by {
        assert("help_file"@.len() == 9);
        assert("line_li"@.len() == 7);
    }
    assert("help_file"@ != "optionlink"@) by {
        assert("help_file"@.len() == 9);
        assert("optionlink"@.len() == 10);
    }
    assert("help_file"@ != "tag"@) by {
        assert("help_file"@.len() == 9);
        assert("tag"@.len() == 3);
    }
    assert("help_file"@ != "taglink"@) by {
        assert("help_file"@.len() == 9);
        assert("taglink"@.len() == 7);
    }
    assert("help_file"@ != "uppercase_name"@) by {
        assert("help_file"@.len() == 9);
        assert("uppercase_name"@.len() == 14);
    }
    assert("help_file"@ != "url"@) by {
        assert("help_file"@.len() == 9);
        assert("url"@.len() == 3);
    }
    assert("help_file"@ != "word"@) by {
        assert("help_file"@.len() == 9);
        assert("word"@.len() == 4);
    }
    assert("keycode"@ != "language"@) by {
        assert("keycode"@.len() == 7);
        assert("language"@.len() == 8);
    }
    assert("keycode"@ != "line"@) by {
        assert("keycode"@.len() == 7);
        assert("line"@.len() == 4);
    }
    assert("keycode"@ != "optionlink"@) by {
        assert("keycode"@.len() == 7);
        assert("optionlink"@.len() == 10);
    }
    assert("keycode"@ != "tag"@) by {
        assert("keycode"@.len() == 7);
        assert("tag"@.len() == 3);
    }
    assert("keycode"@ != "uppercase_name"@) by {
        assert("keycode"@.len() == 7);
        assert("uppercase_name"@.len() == 14);
    }
    assert("keycode"@ != "url"@) by {
        assert("keycode"@.len() == 7);
        assert("url"@.len() == 3);
    }
    assert("keycode"@ != "word"@) by {
        assert("keycode"@.len() == 7);
        assert("word"@.len() == 4);
    }
    assert("language"@ != "line"@) by {
        assert("language"@.len() == 8);
        assert("line"@.len() == 4);
    }
    assert("language"@ != "line_li"@) by {
        assert("language"@.len() == 8);
        assert("line_li"@.len() == 7);
    }
    assert("language"@ != "optionlink"@) by {
        assert("language"@.len() == 8);
        assert("optionlink"@.len() == 10);
    }
    assert("language"@ != "tag"@) by {
        assert("language"@.len() == 8);
        assert("tag"@.len() == 3);
    }
    assert("language"@ != "taglink"@) by {
        assert("language"@.len() == 8);
        assert("taglink"@.len() == 7);
    }
    assert("language"@ != "uppercase_name"@) by {
        assert("language"@.len() == 8);
        assert("uppercase_name"@.len() == 14);
    }
    assert("language"@ != "url"@) by {
        assert("language"@.len() == 8);
        assert("url"@.len() == 3);
    }
    assert("language"@ != "word"@) by {
        assert("language"@.len() == 8);
        assert("word"@.len() == 4);
    }
    assert("line"@ != "line_li"@) by {
        assert("line"@.len() == 4);
        assert("line_li"@.len() == 7);
    }
    assert("line"@ != "optionlink"@) by {
        assert("line"@.len() == 4);
        assert("optionlink"@.len() == 10);
    }
    assert("line"@ != "tag"@) by {
        assert("line"@.len() == 4);
        assert("tag"@.len() == 3);
    }
    assert("line"@ != "taglink"@) by {
        assert("line"@.len() == 4);
        assert("taglink"@.len() == 7);
    }
    assert("line"@ != "uppercase_name"@) by {
        assert("line"@.len() == 4);
        assert("uppercase_name"@.len() == 14);
    }
    assert("line"@ != "url"@) by {
        assert("line"@.len() == 4);
        assert("url"@.len() == 3);
    }
    assert("line_li"@ != "optionlink"@) by {
        assert("line_li"@.len() == 7);
        assert("optionlink"@.len() == 10);
    }
    assert("line_li"@ != "tag"@) by {
        assert("line_li"@.len() == 7);
        assert("tag"@.len() == 3);
    }
    assert("line_li"@ != "uppercase_name"@) by {
        assert("line_li"@.len() == 7);
        assert("uppercase_name"@.len() == 14);
    }
    assert("line_li"@ != "url"@) by {
        assert("line_li"@.len() == 7);
        assert("url"@.len() == 3);
    }
    assert("line_li"@ != "word"@) by {
        assert("line_li"@.len() == 7);
        assert("word"@.len() == 4);
    }
    assert("optionlink"@ != "tag"@) by {
        assert("optionlink"@.len() == 10);
        assert("tag"@.len() == 3);
    }
    assert("optionlink"@ != "taglink"@) by {
        assert("optionlink"@.len() == 10);
        assert("taglink"@.len() == 7);
    }
    assert("optionlink"@ != "uppercase_name"@) by {
        assert("optionlink"@.len() == 10);
        assert("uppercase_name"@.len() == 14);
    }
    assert("optionlink"@ != "url"@) by {
        assert("optionlink"@.len() == 10);
        assert("url"@.len() == 3);
    }
    assert("optionlink"@ != "word"@) by {
        assert("optionlink"@.len() == 10);
        assert("word"@.len() == 4);
    }
    assert("tag"@ != "taglink"@) by {
        assert("tag"@.len() == 3);
        assert("taglink"@.len() == 7);
    }
    assert("tag"@ != "uppercase_name"@) by {
        assert("tag"@.len() == 3);
        assert("uppercase_name"@.len() == 14);
    }
    assert("tag"@ != "word"@) by {
        assert("tag"@.len() == 3);
        assert("word"@.len() == 4);
    }
    assert("taglink"@ != "uppercase_name"@) by {
        assert("taglink"@.len() == 7);
        assert("uppercase_name"@.len() == 14);
    }
    assert("taglink"@ != "url"@) by {
        assert("taglink"@.len() == 7);
        assert("url"@.len() == 3);
    }
    assert("taglink"@ != "word"@) by {
        assert("taglink"@.len() == 7);
        assert("word"@.len() == 4);
    }
    assert("uppercase_name"@ != "url"@) by {
        assert("uppercase_name"@.len() == 14);
        assert("url"@.len() == 3);
    }
    assert("uppercase_name"@ != "word"@) by {
        assert("uppercase_name"@.len() == 14);
        assert("word"@.len() == 4);
    }
    assert("url"@ != "word"@) by {
        assert("url"@.len() == 3);
        assert("word"@.len() == 4);
    }
    assert("argument"@ != "codespan"@) by {
        assert("argument"@[0] == 'a');
        assert("codespan"@[0] == 'c');
    }
    assert("argument"@ != "language"@) by {
        assert("argument"@[0] == 'a');
        assert("language"@[0] == 'l');
    }
    assert("codeblock"@ != "help_file"@) by {
        assert("codeblock"@[0] == 'c');
        assert("help_file"@[0] == 'h');
    }
    assert("codespan"@ != "language"@) by {
        assert("codespan"@[0] == 'c');
        assert("language"@[0] == 'l');
    }
    assert("column_heading"@ != "uppercase_name"@) by {
        assert("column_heading"@[0] == 'c');
        assert("uppercase_name"@[0] == 'u');
    }
    assert("h1"@ != "h2"@) by {
        assert("h1"@[1] == '1');
        assert("h2"@[1] == '2');
    }
    assert("h1"@ != "h3"@) by {
        assert("h1"@[1] == '1');
        assert("h3"@[1] == '3');
    }
    assert("h2"@ != "h3"@) by {
        assert("h2"@[1] == '2');
        assert("h3"@[1] == '3');
    }
    assert("keycode"@ != "line_li"@) by {
        assert("keycode"@[0] == 'k');
        assert("line_li"@[0] == 'l');
    }
    assert("keycode"@ != "taglink"@) by {
        assert("keycode"@[0] == 'k');
        assert("taglink"@[0] == 't');
    }
    assert("line"@ != "word"@) by {
        assert("line"@[0] == 'l');
        assert("word"@[0] == 'w');
    }
    assert("line_li"@ != "taglink"@) by {
        assert("line_li"@[0] == 'l');
        assert("taglink"@[0] == 't');
    }
    assert("tag"@ != "url"@) by {
        assert("tag"@[0] == 't');
        assert("url"@[0] == 'u');
    }
}


/// The terminal tokens contributed by a sequence of named nodes.
pub open spec fn named_tokens(ns: Seq<CstNode>) -> Seq<Seq<char>>
    decreases ns, 3int,
{
    if ns.len() == 0 {
        Seq::empty()
    } else {
        named_tokens(ns.drop_last()) + cst_tokens(ns.last())
    }
}

proof fn lemma_tokens_via_named(kids: Seq<CstNode>)
    ensures
        cst_tokens_after(kids, 0) == named_tokens(named_of(kids)),
    decreases kids,
{
    if kids.len() == 0 {
    } else {
        lemma_tokens_via_named(kids.drop_last());
        if kids.last().named {
            let nv = named_of(kids);
            assert(nv =~= named_of(kids.drop_last()) + seq![kids.last()]);
            assert(nv.drop_last() =~= named_of(kids.drop_last()));
            assert(nv.last() == kids.last());
        } else {
            assert(named_of(kids) =~= named_of(kids.drop_last()));
            assert(cst_tokens_after(kids.drop_last(), 0) + Seq::<Seq<char>>::empty()
                =~= cst_tokens_after(kids.drop_last(), 0));
        }
    }
}

proof fn lemma_single_tokens(w: Word, n: CstNode, kind: Seq<char>)
    requires
        wf_single(n, kind),
        single_word_matches(w, n),
        !terminal_kind(kind),
    ensures
        seq![w.0@] == cst_tokens(n),
{
    lemma_tokens_via_named(n.children@);
    let nv = named_of(n.children@);
    assert(nv.last() == nv[0]);
    assert(nv.drop_last() =~= Seq::<CstNode>::empty());
    assert(named_tokens(nv) == named_tokens(nv.drop_last()) + cst_tokens(nv.last()));
    assert(Seq::<Seq<char>>::empty() + cst_tokens(nv[0]) =~= cst_tokens(nv[0]));
    assert(cst_tokens(nv[0]) == seq![nv[0].text@]);
    assert(w.0@ == nv[0].text@);
    assert(seq![w.0@] =~= cst_tokens(n));
}

proof fn lemma_hchild_tokens(b: HChild, n: CstNode)
    requires
        wf_hchild(n),
        b.matches(n),
    ensures
        b.tokens() == cst_tokens(n),
{
    lemma_kinds();
    match b {
        HChild::Argument(x) => lemma_single_tokens(x.text, n, "argument"@),
        HChild::Codespan(x) => lemma_single_tokens(x.text, n, "codespan"@),
        HChild::Keycode(x) => {
            assert(x.tokens() =~= cst_tokens(n));
        },
        HChild::Optionlink(x) => lemma_single_tokens(x.text, n, "optionlink"@),
        HChild::Tag(x) => lemma_single_tokens(x.text, n, "tag"@),
        HChild::Taglink(x) => lemma_single_tokens(x.text, n, "taglink"@),
        HChild::Url(x) => lemma_single_tokens(x.text, n, "url"@),
        HChild::Word(x) => {
            assert(x.tokens() =~= cst_tokens(n));
        },
    }
}

proof fn lemma_hkids_tokens(bs: Seq<HChild>, kids: Seq<CstNode>)
    requires
        wf_hkids(kids),
        matches_hchildren(bs, kids),
    ensures
        hchild_list_tokens(bs) == cst_tokens_after(kids, 0),
    decreases kids,
{
    if kids.len() == 0 {
    } else if !included(kids.last()) {
        if kids.last().named {
            lemma_hchild_ok(kids.last());
            assert(false);
        }
        lemma_hkids_tokens(bs, kids.drop_last());
        assert(cst_tokens_after(kids.drop_last(), 0) + Seq::<Seq<char>>::empty()
            =~= cst_tokens_after(kids.drop_last(), 0));
    } else {
        lemma_hkids_tokens(bs.drop_last(), kids.drop_last());
        lemma_hchild_tokens(bs.last(), kids.last());
    }
}

proof fn lemma_heading_tokens(bs: Seq<HChild>, n: CstNode, kind: Seq<char>)
    requires
        wf_heading(n, kind),
        matches_hchildren(bs, n.children@),
        !terminal_kind(kind),
    ensures
        hchild_list_tokens(bs) == cst_tokens(n),
{
    lemma_hkids_tokens(bs, n.children@);
}

proof fn lemma_h3_tokens(v: H3, n: CstNode)
    requires
        wf_h3(n),
        v.matches(n),
    ensures
        v.tokens() == cst_tokens(n),
{
    lemma_kinds();
    let kids = n.children@;
    let fi = first_named_idx(kids, 0);
    crate::types::lemma_first_named_idx(kids, 0);
    lemma_tokens_split(kids, fi);
    lemma_tokens_skip(kids, fi + 1);
    lemma_hkids_tokens(v.children@, kids.skip(fi + 1));
    assert(cst_tokens(kids[fi]) == seq![kids[fi].text@]);
    assert(v.name.0@ == kids[fi].text@);
    assert(v.name.tokens() =~= cst_tokens(kids[fi]));
}

proof fn lemma_matches_lines_drop_first(bs: Seq<Line>, kids: Seq<CstNode>)
    requires
        kids.len() > 0,
        !included(kids[0]),
    ensures
        matches_lines_after(bs, kids, 0) == matches_lines_after(bs, kids.drop_first(), 0),
    decreases kids,
{
    if kids.len() == 1 {
        assert(kids.last() == kids[0]);
        assert(kids.drop_first() =~= Seq::<CstNode>::empty());
        assert(kids.drop_last() =~= Seq::<CstNode>::empty());
    } else {
        assert(kids.drop_last()[0] == kids[0]);
        assert(kids.drop_first().last() == kids.last());
        assert(kids.drop_first().drop_last() =~= kids.drop_last().drop_first());
        lemma_matches_lines_drop_first(bs, kids.drop_last());
        if included(kids.last()) && bs.len() > 0 {
            lemma_matches_lines_drop_first(bs.drop_last(), kids.drop_last());
        }
    }
}

/// The shape `Codeblock::matches` gives to a child list: an optional
/// leading language among the included children, then matching lines.
pub open spec fn cb_shape(language: Option<Language>, bs: Seq<Line>, kids: Seq<CstNode>) -> bool {
    let fi = first_included_idx(kids, 0);
    if fi < kids.len() && kids[fi].kind@ == "language"@ {
        &&& language is Some
        &&& language->0.matches(kids[fi])
        &&& matches_lines_after(bs, kids, fi + 1)
    } else {
        &&& language is None
        &&& matches_lines_after(bs, kids, 0)
    }
}

proof fn lemma_line_tokens(v: Line, n: CstNode)
    requires
        wf_line(n),
        v.matches(n),
    ensures
        v.tokens() == cst_tokens(n),
    decreases n, 0int,
{
    lemma_kinds();
    lemma_line_kids_tokens(v.children@, n.children@);
}

proof fn lemma_line_kids_tokens(bs: Seq<LineChild>, kids: Seq<CstNode>)
    requires
        wf_line_kids(kids),
        matches_line_children(bs, kids),
    ensures
        linechild_list_tokens(bs) == cst_tokens_after(kids, 0),
    decreases kids, 3int,
{
    if kids.len() == 0 {
    } else if !included(kids.last()) {
        if kids.last().named {
            lemma_line_child_ok(kids.last());
            assert(false);
        }
        lemma_line_kids_tokens(bs, kids.drop_last());
        assert(cst_tokens_after(kids.drop_last(), 0) + Seq::<Seq<char>>::empty()
            =~= cst_tokens_after(kids.drop_last(), 0));
    } else {
        lemma_line_kids_tokens(bs.drop_last(), kids.drop_last());
        lemma_line_child_tokens(bs.last(), kids.last());
    }
}

proof fn lemma_line_child_tokens(b: LineChild, n: CstNode)
    requires
        wf_line_child(n),
        b.matches(n),
    ensures
        b.tokens() == cst_tokens(n),
    decreases n, 1int,
{
    lemma_kinds();
    match b {
        LineChild::Argument(x) => lemma_single_tokens(x.text, n, "argument"@),
        LineChild::Codeblock(x) => lemma_codeblock_tokens(x, n),
        LineChild::Codespan(x) => lemma_single_tokens(x.text, n, "codespan"@),
        LineChild::ColumnHeading(x) => lemma_heading_tokens(x.name@, n, "column_heading"@),
        LineChild::H1(x) => lemma_heading_tokens(x.children@, n, "h1"@),
        LineChild::H2(x) => lemma_heading_tokens(x.children@, n, "h2"@),
        LineChild::H3(x) => lemma_h3_tokens(x, n),
        LineChild::Keycode(x) => {
            assert(x.tokens() =~= cst_tokens(n));
        },
        LineChild::Optionlink(x) => lemma_single_tokens(x.text, n, "optionlink"@),
        LineChild::Tag(x) => lemma_single_tokens(x.text, n, "tag"@),
        LineChild::Taglink(x) => lemma_single_tokens(x.text, n, "taglink"@),
        LineChild::Url(x) => lemma_single_tokens(x.text, n, "url"@),
        LineChild::Word(x) => {
            assert(x.tokens() =~= cst_tokens(n));
        },
    }
}

proof fn lemma_codeblock_tokens(v: Codeblock, n: CstNode)
    requires
        wf_codeblock(n),
        v.matches(n),
    ensures
        v.tokens() == cst_tokens(n),
    decreases n, 0int,
{
    lemma_kinds();
    assert(cb_shape(v.language, v.children@, n.children@));
    lemma_cb_kids_tokens(v.language, v.children@, n.children@, true);
}

proof fn lemma_cb_kids_tokens(
    language: Option<Language>,
    bs: Seq<Line>,
    kids: Seq<CstNode>,
    looking: bool,
)
    requires
        wf_cb_kids(kids, looking),
        looking ==> cb_shape(language, bs, kids),
        !looking ==> matches_lines_after(bs, kids, 0),
    ensures
        (if looking {
            match language {
                Some(l) => l.tokens(),
                None => Seq::<Seq<char>>::empty(),
            }
        } else {
            Seq::<Seq<char>>::empty()
        }) + line_list_tokens(bs) == cst_tokens_after(kids, 0),
    decreases kids, 3int,
{
    lemma_kinds();
    let lang_part = if looking {
        match language {
            Some(l) => l.tokens(),
            None => Seq::<Seq<char>>::empty(),
        }
    } else {
        Seq::<Seq<char>>::empty()
    };
    if kids.len() == 0 {
        if looking {
            assert(first_included_idx(kids, 0) == 0);
            assert(matches_lines_after(bs, kids, 0));
        }
        assert(bs.len() == 0);
        assert(lang_part + line_list_tokens(bs) =~= cst_tokens_after(kids, 0));
    } else {
        let c = kids[0];
        let rest = kids.drop_first();
        lemma_tokens_front(kids);
        if !c.named {
            assert(!included(c));
            if looking {
                lemma_first_included_shift(kids);
                crate::types::lemma_first_included_idx(kids, 0);
                crate::types::lemma_first_included_idx(rest, 0);
                let fi = first_included_idx(kids, 0);
                let fir = first_included_idx(rest, 0);
                if fi < kids.len() && kids[fi].kind@ == "language"@ {
                    assert(rest =~= kids.skip(1));
                    assert(rest[fir] == kids[fir + 1]);
                    lemma_matches_lines_shift(bs, kids, fi + 1);
                    assert(cb_shape(language, bs, rest));
                } else {
                    lemma_matches_lines_drop_first(bs, kids);
                    if fir < rest.len() {
                        assert(rest =~= kids.skip(1));
                        assert(rest[fir] == kids[fir + 1]);
                    }
                    assert(cb_shape(language, bs, rest));
                }
            } else {
                lemma_matches_lines_drop_first(bs, kids);
            }
            lemma_cb_kids_tokens(language, bs, rest, looking);
            assert(Seq::<Seq<char>>::empty() + cst_tokens_after(rest, 0) =~= cst_tokens_after(
                rest,
                0,
            ));
        } else {
            assert(included(c));
            assert(first_included_idx(kids, 0) == 0);
            if looking && c.kind@ == "language"@ {
                // The language child: its token, then the lines.
                assert(language is Some && language->0.matches(c));
                assert(matches_lines_after(bs, kids, 1));
                lemma_matches_lines_shift(bs, kids, 1);
                lemma_cb_kids_tokens(None, bs, rest, false);
                assert(cst_tokens(c) == seq![c.text@]);
                assert(language->0.tokens() =~= cst_tokens(c));
                assert(Seq::<Seq<char>>::empty() + line_list_tokens(bs) =~= line_list_tokens(bs));
                assert(lang_part + line_list_tokens(bs) =~= cst_tokens(c) + (Seq::<
                    Seq<char>,
                >::empty() + line_list_tokens(bs)));
            } else {
                // A line child.
                if looking {
                    assert(language is None);
                    assert(matches_lines_after(bs, kids, 0));
                }
                lemma_matches_lines_front(bs, kids);
                lemma_line_tokens(bs[0], c);
                lemma_line_list_tokens_front(bs);
                lemma_cb_kids_tokens(None, bs.drop_first(), rest, false);
                assert(Seq::<Seq<char>>::empty() + line_list_tokens(bs.drop_first())
                    =~= line_list_tokens(bs.drop_first()));
                assert(lang_part + line_list_tokens(bs) =~= bs[0].tokens() + line_list_tokens(
                    bs.drop_first(),
                ));
            }
        }
    }
}

proof fn lemma_lineli_tokens(v: LineLi, n: CstNode)
    requires
        wf_lineli(n),
        v.matches(n),
    ensures
        v.tokens() == cst_tokens(n),
    decreases n, 0int,
{
    lemma_kinds();
    lemma_lineli_kids_tokens(v.children@, n.children@);
}

proof fn lemma_lineli_kids_tokens(bs: Seq<LineLiChild>, kids: Seq<CstNode>)
    requires
        wf_lineli_kids(kids),
        matches_lineli_children(bs, kids),
    ensures
        lineli_child_list_tokens(bs) == cst_tokens_after(kids, 0),
    decreases kids, 3int,
{
    if kids.len() == 0 {
    } else if !included(kids.last()) {
        if kids.last().named {
            lemma_lineli_child_ok(kids.last());
            assert(false);
        }
        lemma_lineli_kids_tokens(bs, kids.drop_last());
        assert(cst_tokens_after(kids.drop_last(), 0) + Seq::<Seq<char>>::empty()
            =~= cst_tokens_after(kids.drop_last(), 0));
    } else {
        lemma_lineli_kids_tokens(bs.drop_last(), kids.drop_last());
        lemma_lineli_child_tokens(bs.last(), kids.last());
    }
}

proof fn lemma_lineli_child_tokens(b: LineLiChild, n: CstNode)
    requires
        wf_lineli_child(n),
        b.matches(n),
    ensures
        b.tokens() == cst_tokens(n),
    decreases n, 1int,
{
    lemma_kinds();
    match b {
        LineLiChild::Codeblock(x) => lemma_codeblock_tokens(x, n),
        LineLiChild::Line(x) => lemma_line_tokens(x, n),
    }
}

proof fn lemma_block_tokens(v: Block, n: CstNode)
    requires
        wf_block(n),
        v.matches(n),
    ensures
        v.tokens() == cst_tokens(n),
    decreases n, 0int,
{
    lemma_kinds();
    lemma_block_kids_tokens(v.children@, n.children@);
}

proof fn lemma_block_kids_tokens(bs: Seq<BlockChild>, kids: Seq<CstNode>)
    requires
        wf_block_kids(kids),
        matches_block_children(bs, kids),
    ensures
        blockchild_list_tokens(bs) == cst_tokens_after(kids, 0),
    decreases kids, 3int,
{
    if kids.len() == 0 {
    } else if !included(kids.last()) {
        if kids.last().named {
            lemma_block_child_ok(kids.last());
            assert(false);
        }
        lemma_block_kids_tokens(bs, kids.drop_last());
        assert(cst_tokens_after(kids.drop_last(), 0) + Seq::<Seq<char>>::empty()
            =~= cst_tokens_after(kids.drop_last(), 0));
    } else {
        lemma_block_kids_tokens(bs.drop_last(), kids.drop_last());
        lemma_block_child_tokens(bs.last(), kids.last());
    }
}

proof fn lemma_block_child_tokens(b: BlockChild, n: CstNode)
    requires
        wf_block_child(n),
        b.matches(n),
    ensures
        b.tokens() == cst_tokens(n),
    decreases n, 1int,
{
    lemma_kinds();
    match b {
        BlockChild::Line(x) => lemma_line_tokens(x, n),
        BlockChild::LineLi(x) => lemma_lineli_tokens(x, n),
    }
}

proof fn lemma_hf_kids_tokens(bs: Seq<Block>, kids: Seq<CstNode>)
    requires
        wf_hf_kids(kids),
        matches_blocks(bs, kids),
    ensures
        block_list_tokens(bs) == cst_tokens_after(kids, 0),
    decreases kids,
{
    if kids.len() == 0 {
    } else if !included(kids.last()) {
        if kids.last().named {
            lemma_block_ok(kids.last());
            assert(false);
        }
        lemma_hf_kids_tokens(bs, kids.drop_last());
        assert(cst_tokens_after(kids.drop_last(), 0) + Seq::<Seq<char>>::empty()
            =~= cst_tokens_after(kids.drop_last(), 0));
    } else {
        lemma_hf_kids_tokens(bs.drop_last(), kids.drop_last());
        lemma_block_tokens(bs.last(), kids.last());
    }
}

/// On a fully valid tree, the built typed tree carries exactly the
/// terminal tokens of the CST, in document order: what the typed tree
/// holds is drawn, token for token and in order, from the source
/// document.
pub proof fn lemma_valid_build_preserves_tokens(v: HelpFile, n: CstNode)
    requires
        wf_help_file(n),
        v.matches(n),
    ensures
        v.tokens() == cst_tokens(n),
{
    lemma_kinds();
    lemma_hf_kids_tokens(v.children@, n.children@);
}


// ---------------------------------------------------------------------
// The stock HTML rendering is deterministic.
// ---------------------------------------------------------------------
/// Converters that agree on everything the rules can observe: the
/// legacy flag, the carried state, and the joiner's separator.
pub open spec fn conv_eq<'a, 'b>(
    c1: Converter<StringJoiner<'a>>,
    c2: Converter<StringJoiner<'b>>,
) -> bool {
    &&& c1.opt.old == c2.opt.old
    &&& c1.state == c2.state
    &&& c1.opt.joiner.spec_sep() == c2.opt.joiner.spec_sep()
}

proof fn lemma_conv_visit_eq<'a, 'b>(
    c1: Converter<StringJoiner<'a>>,
    c2: Converter<StringJoiner<'b>>,
    node: CstNode,
    depth: int,
    parent: Option<CstNode>,
    prev: Option<CstNode>,
    kids: Seq<Seq<char>>,
)
    requires
        conv_eq(c1, c2),
    ensures
        ({
            let p1 = c1.spec_visit(node, depth, parent, prev, kids);
            let p2 = c2.spec_visit(node, depth, parent, prev, kids);
            p1.0 == p2.0 && conv_eq(p1.1, p2.1)
        }),
{
}

proof fn lemma_render_conv_eq<'a, 'b>(
    c1: Converter<StringJoiner<'a>>,
    c2: Converter<StringJoiner<'b>>,
    n: CstNode,
    depth: int,
    parent: Option<CstNode>,
    prev: Option<CstNode>,
    unnamed: bool,
)
    requires
        conv_eq(c1, c2),
    ensures
        ({
            let p1 = spec_render(c1, n, depth, parent, prev, unnamed);
            let p2 = spec_render(c2, n, depth, parent, prev, unnamed);
            p1.0 == p2.0 && conv_eq(p1.1, p2.1)
        }),
    decreases n, 1int,
{
    lemma_render_kids_conv_eq(c1, c2, n.children@, depth + 1, Some(n), None, unnamed);
    let pk1 = spec_render_kids(c1, n.children@, depth + 1, Some(n), None, unnamed);
    let pk2 = spec_render_kids(c2, n.children@, depth + 1, Some(n), None, unnamed);
    lemma_conv_visit_eq(pk1.1, pk2.1, n, depth, parent, prev, pk1.0);
}

proof fn lemma_render_kids_conv_eq<'a, 'b>(
    c1: Converter<StringJoiner<'a>>,
    c2: Converter<StringJoiner<'b>>,
    kids: Seq<CstNode>,
    depth: int,
    parent: Option<CstNode>,
    prev: Option<CstNode>,
    unnamed: bool,
)
    requires
        conv_eq(c1, c2),
    ensures
        ({
            let p1 = spec_render_kids(c1, kids, depth, parent, prev, unnamed);
            let p2 = spec_render_kids(c2, kids, depth, parent, prev, unnamed);
            p1.0 == p2.0 && conv_eq(p1.1, p2.1)
        }),
    decreases kids, 2int,
{
    if kids.len() > 0 {
        let c = kids[0];
        if c.named || unnamed {
            lemma_render_conv_eq(c1, c2, c, depth, parent, prev, unnamed);
            let pc1 = spec_render(c1, c, depth, parent, prev, unnamed);
            let pc2 = spec_render(c2, c, depth, parent, prev, unnamed);
            lemma_render_kids_conv_eq(
                pc1.1,
                pc2.1,
                kids.drop_first(),
                depth,
                parent,
                Some(c),
                unnamed,
            );
        } else {
            lemma_render_kids_conv_eq(c1, c2, kids.drop_first(), depth, parent, prev, unnamed);
        }
    }
}

/// Any two converters over the string joiner that agree on the legacy
/// flag, the starting state and the separator render every tree to the
/// same string. In particular, two stock renders of the same tree with
/// the same legacy flag are byte-identical, whatever joiner values they
/// were built with.
pub proof fn lemma_default_render_deterministic<'a, 'b>(
    c1: Converter<StringJoiner<'a>>,
    c2: Converter<StringJoiner<'b>>,
    root: CstNode,
)
    requires
        conv_eq(c1, c2),
    ensures
        spec_render_root(c1, root, 0, None, None, false).0 == spec_render_root(
            c2,
            root,
            0,
            None,
            None,
            false,
        ).0,
{
    if root.named {
        lemma_render_conv_eq(c1, c2, root, 0, None, None, false);
    }
}

// ---------------------------------------------------------------------
// A built code block holds one line per included line child.
// ---------------------------------------------------------------------
/// The number of included children at index `from` or later.
pub open spec fn included_count_after(kids: Seq<CstNode>, from: int) -> int
    decreases kids,
{
    if kids.len() == 0 || kids.len() <= from {
        0
    } else {
        included_count_after(kids.drop_last(), from) + (if included(kids.last()) {
            1int
        } else {
            0int
        })
    }
}

proof fn lemma_matches_lines_count(bs: Seq<Line>, kids: Seq<CstNode>, from: int)
    requires
        matches_lines_after(bs, kids, from),
    ensures
        bs.len() == included_count_after(kids, from),
    decreases kids,
{
    if kids.len() == 0 || kids.len() <= from {
    } else if !included(kids.last()) {
        lemma_matches_lines_count(bs, kids.drop_last(), from);
    } else {
        lemma_matches_lines_count(bs.drop_last(), kids.drop_last(), from);
    }
}

/// Whatever a code block's size: when its first included child is a
/// `language` node the built value carries that language and exactly one
/// line per later included child; otherwise it carries no language and
/// exactly one line per included child.
pub proof fn lemma_codeblock_shape(v: Codeblock, n: CstNode)
    requires
        v.matches(n),
    ensures
        ({
            let kids = n.children@;
            let fi = first_included_idx(kids, 0);
            if fi < kids.len() && kids[fi].kind@ == "language"@ {
                v.language is Some && v.children@.len() == included_count_after(kids, fi + 1)
            } else {
                v.language is None && v.children@.len() == included_count_after(kids, 0)
            }
        }),
{
    let kids = n.children@;
    let fi = first_included_idx(kids, 0);
    if fi < kids.len() && kids[fi].kind@ == "language"@ {
        lemma_matches_lines_count(v.children@, kids, fi + 1);
    } else {
        lemma_matches_lines_count(v.children@, kids, 0);
    }
}

} // verus!