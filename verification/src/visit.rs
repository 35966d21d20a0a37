//! The generic traversal engine: an iterative pre-order walk over a CST
//! that renders every node bottom-up, handing each visitor the already
//! rendered outputs of the node's children. The walk keeps an explicit
//! stack of frames instead of recursing, so arbitrarily deep documents
//! cannot exhaust the call stack.

use vstd::prelude::*;

verus! {

use crate::cst::CstNode;
use crate::cst::NodeType;
use crate::cst::spec_node_type_of;
use crate::cst::spec_any_named;
use crate::cst::spec_has_error;
use crate::utils::chars_to_string;
use crate::utils::escape_chars;
use crate::utils::spec_escape;
use crate::utils::str_to_chars;
use vstd::string::StringExecFns;

/// The sequence-of-characters view of an optionally present node.
pub open spec fn opt_node(o: Option<&CstNode>) -> Option<CstNode> {
    match o {
        Some(n) => Some(*n),
        None => None,
    }
}

/// What a visitor sees at one node: the node itself, its depth from the
/// walk's root, its parent, and the previously visited sibling.
pub struct Context<'a> {
    pub node: &'a CstNode,
    pub depth: usize,
    pub parent: Option<&'a CstNode>,
    pub prev: Option<&'a CstNode>,
}

impl<'a> Context<'a> {
    /// The node being visited.
    pub fn node(&self) -> (r: &'a CstNode)
        ensures
            r == self.node,
    {
        self.node
    }

    /// The recognised type of the node being visited, if any.
    pub fn node_type(&self) -> (r: Option<NodeType>)
        ensures
            r == spec_node_type_of(self.node.kind@),
    {
        NodeType::from_kind(self.node.kind.as_str())
    }

    /// The raw text of the node being visited.
    pub fn node_raw_text(&self) -> (r: &'a str)
        ensures
            r@ == self.node.text@,
    {
        self.node.text.as_str()
    }

    /// The node's raw text with `&`, `<` and `>` escaped for HTML.
    pub fn node_clean_text(&self) -> (r: String)
        ensures
            r@ == spec_escape(self.node.text@),
    {
        let v = str_to_chars(self.node.text.as_str());
        let e = escape_chars(&v);
        chars_to_string(&e)
    }

    /// True if the subtree of the node being visited holds an error or
    /// missing node.
    pub fn has_error(&self) -> (r: bool)
        ensures
            r == spec_has_error(*self.node),
    {
        self.node.has_error()
    }

    /// True if the node being visited has named children.
    pub fn has_children(&self) -> (r: bool)
        ensures
            r == spec_any_named(self.node.children@),
    {
        self.node.has_named_child()
    }
}

/// A strategy for joining several rendered outputs into one.
pub trait Joiner {
    /// The join of the outputs, as a character sequence.
    spec fn spec_join(&self, xs: Seq<Seq<char>>) -> Seq<char>;

    /// Joins the outputs.
    fn join(&self, xs: Vec<String>) -> (r: String)
        ensures
            r@ == self.spec_join(xs.deep_view()),
    ;
}

/// The sequences joined with `sep` between them.
pub open spec fn join_with(xs: Seq<Seq<char>>, sep: Seq<char>) -> Seq<char>
    decreases xs,
{
    if xs.len() == 0 {
        Seq::empty()
    } else if xs.len() == 1 {
        xs[0]
    } else {
        join_with(xs.drop_last(), sep) + sep + xs.last()
    }
}

/// A [`Joiner`] that joins strings with a fixed separator.
pub struct StringJoiner<'a> {
    sep: &'a str,
}

impl<'a> StringJoiner<'a> {
    /// The separator put between joined outputs.
    pub closed spec fn spec_sep(&self) -> Seq<char> {
        self.sep@
    }

    /// Makes a joiner with the given separator.
    pub fn new(sep: &'a str) -> (r: StringJoiner<'a>)
        ensures
            r.spec_sep() == sep@,
    {
        StringJoiner { sep }
    }
}

impl<'a> Joiner for StringJoiner<'a> {
    open spec fn spec_join(&self, xs: Seq<Seq<char>>) -> Seq<char> {
        join_with(xs, self.spec_sep())
    }

    fn join(&self, xs: Vec<String>) -> (r: String)
        ensures
            r@ == self.spec_join(xs.deep_view()),
    {
        let n = xs.len();
        let mut out = String::new();
        let mut i: usize = 0;
        let ghost xv = xs.deep_view();
        proof {
            assert(xv.take(0) =~= Seq::<Seq<char>>::empty());
        }
        while i < n
            invariant
                n == xs@.len(),
                xv == xs.deep_view(),
                i <= n,
                out@ == join_with(xv.take(i as int), self.spec_sep()),
            decreases n - i,
        {
            if i > 0 {
                out.append(self.sep);
            }
            out.append(xs[i].as_str());
            proof {
                assert(xv[i as int] == xs@[i as int].deep_view());
                assert(xs@[i as int].deep_view() =~= xs@[i as int]@);
                assert(xv.take(i as int + 1).drop_last() =~= xv.take(i as int));
                assert(xv.take(i as int + 1).last() == xv[i as int]);
            }
            i += 1;
        }
        proof {
            assert(xv.take(n as int) =~= xv);
        }
        out
    }
}

/// A renderer plugged into the traversal engine. `spec_visit` is the
/// mathematical account of one visit: from the state before the visit
/// and the rendered outputs of the node's visited children, it gives the
/// node's output and the state after the visit.
pub trait Visitor: Sized {
    /// The output and next state of visiting `node`.
    spec fn spec_visit(
        self,
        node: CstNode,
        depth: int,
        parent: Option<CstNode>,
        prev: Option<CstNode>,
        kids: Seq<Seq<char>>,
    ) -> (Seq<char>, Self);

    /// Visits one node whose children have already been rendered into
    /// `kids`.
    fn visit(&mut self, ctx: &Context, kids: Vec<String>) -> (out: String)
        ensures
            ({
                let p = Self::spec_visit(
                    *old(self),
                    *ctx.node,
                    ctx.depth as int,
                    opt_node(ctx.parent),
                    opt_node(ctx.prev),
                    kids.deep_view(),
                );
                out@ == p.0 && *final(self) == p.1
            }),
    ;
}

/// The output and final state of rendering the subtree at `n` bottom-up:
/// the node's visited children are rendered left to right (threading the
/// visitor state), then the node itself is visited with their outputs.
pub open spec fn spec_render<V: Visitor>(
    st: V,
    n: CstNode,
    depth: int,
    parent: Option<CstNode>,
    prev: Option<CstNode>,
    unnamed: bool,
) -> (Seq<char>, V)
    decreases n, 1int,
{
    let pk = spec_render_kids(st, n.children@, depth + 1, Some(n), None, unnamed);
    V::spec_visit(pk.1, n, depth, parent, prev, pk.0)
}

/// The outputs and final state of rendering a sequence of siblings in
/// order. A node is visited when it is named or `unnamed` is set; other
/// nodes are passed over entirely.
pub open spec fn spec_render_kids<V: Visitor>(
    st: V,
    kids: Seq<CstNode>,
    depth: int,
    parent: Option<CstNode>,
    prev: Option<CstNode>,
    unnamed: bool,
) -> (Seq<Seq<char>>, V)
    decreases kids, 2int,
{
    if kids.len() == 0 {
        (Seq::empty(), st)
    } else {
        let c = kids[0];
        if c.named || unnamed {
            let pc = spec_render(st, c, depth, parent, prev, unnamed);
            let pr = spec_render_kids(pc.1, kids.drop_first(), depth, parent, Some(c), unnamed);
            (seq![pc.0] + pr.0, pr.1)
        } else {
            spec_render_kids(st, kids.drop_first(), depth, parent, prev, unnamed)
        }
    }
}

/// The rendering of a whole walk from `n`: the root is subject to the
/// same filter as every other node, so a walk whose root is not visited
/// produces the join of an empty sequence — the empty string.
pub open spec fn spec_render_root<V: Visitor>(
    st: V,
    n: CstNode,
    depth: int,
    parent: Option<CstNode>,
    prev: Option<CstNode>,
    unnamed: bool,
) -> (Seq<char>, V) {
    if n.named || unnamed {
        spec_render(st, n, depth, parent, prev, unnamed)
    } else {
        (Seq::empty(), st)
    }
}

/// One frame of the explicit walk stack: a node, the index of the next
/// child to consider, the outputs of its children rendered so far, and
/// the context the node itself will be visited with. A frame's depth is
/// not stored: it is the walk's base depth plus the frame's position on
/// the stack.
struct Frame<'a> {
    node: &'a CstNode,
    next: usize,
    outs: Vec<String>,
    parent: Option<&'a CstNode>,
    prev_own: Option<&'a CstNode>,
    prev_child: Option<&'a CstNode>,
}

/// The mathematical content of a frame.
ghost struct FrameModel {
    node: CstNode,
    next: int,
    outs: Seq<Seq<char>>,
    parent: Option<CstNode>,
    prev_own: Option<CstNode>,
    prev_child: Option<CstNode>,
}

spec fn frame_model<'a>(f: Frame<'a>) -> FrameModel {
    FrameModel {
        node: *f.node,
        next: f.next as int,
        outs: f.outs.deep_view(),
        parent: opt_node(f.parent),
        prev_own: opt_node(f.prev_own),
        prev_child: opt_node(f.prev_child),
    }
}

spec fn frames_model<'a>(s: Seq<Frame<'a>>) -> Seq<FrameModel> {
    Seq::new(s.len(), |i: int| frame_model(s[i]))
}

spec fn frame_wf(f: FrameModel) -> bool {
    0 <= f.next <= f.node.children@.len()
}

/// The number of nodes in the subtree at `n`.
spec fn node_size(n: CstNode) -> nat
    decreases n, 0int,
{
    1 + kids_size(n.children@)
}

/// The number of nodes in the subtrees of `kids`.
spec fn kids_size(kids: Seq<CstNode>) -> nat
    decreases kids, 1int,
{
    if kids.len() == 0 {
        0
    } else {
        node_size(kids[0]) + kids_size(kids.drop_first())
    }
}

/// The work left in one frame, weighted so that every walk step shrinks
/// the stack measure.
spec fn frame_measure(f: FrameModel) -> nat {
    1 + 2 * kids_size(f.node.children@.skip(f.next))
}

/// The work left on the whole stack.
spec fn stack_measure(frames: Seq<FrameModel>) -> nat
    decreases frames.len(),
{
    if frames.len() == 0 {
        0
    } else {
        stack_measure(frames.drop_last()) + frame_measure(frames.last())
    }
}

proof fn lemma_stack_measure_push(frames: Seq<FrameModel>, f: FrameModel)
    ensures
        stack_measure(frames.push(f)) == stack_measure(frames) + frame_measure(f),
{
    assert(frames.push(f).drop_last() =~= frames);
    assert(frames.push(f).last() == f);
}

/// What the walk will still produce: finish the top frame (render its
/// remaining children after the outputs in `extra`, then visit it), and
/// fold the result into the frames below. The frame at position `i` on
/// the stack sits at depth `base + i`.
spec fn complete<V: Visitor>(
    st: V,
    frames: Seq<FrameModel>,
    base: int,
    extra: Seq<Seq<char>>,
    unnamed: bool,
) -> (Seq<char>, V)
    decreases frames.len(),
{
    if frames.len() == 0 {
        (Seq::empty(), st)
    } else {
        let f = frames.last();
        let d = base + frames.len() - 1;
        let pk = spec_render_kids(
            st,
            f.node.children@.skip(f.next),
            d + 1,
            Some(f.node),
            f.prev_child,
            unnamed,
        );
        let pv = V::spec_visit(pk.1, f.node, d, f.parent, f.prev_own, f.outs + extra + pk.0);
        if frames.len() == 1 {
            (pv.0, pv.1)
        } else {
            complete(pv.1, frames.drop_last(), base, seq![pv.0], unnamed)
        }
    }
}

proof fn lemma_complete_skip<V: Visitor>(
    st: V,
    frames: Seq<FrameModel>,
    base: int,
    f: FrameModel,
    f2: FrameModel,
    extra: Seq<Seq<char>>,
    unnamed: bool,
)
    requires
        frame_wf(f),
        f.next < f.node.children@.len(),
        !(f.node.children@[f.next].named || unnamed),
        f2 == (FrameModel { next: f.next + 1, ..f }),
    ensures
        complete(st, frames.push(f2), base, extra, unnamed) == complete(
            st,
            frames.push(f),
            base,
            extra,
            unnamed,
        ),
{
    let kids = f.node.children@;
    assert(kids.skip(f.next)[0] == kids[f.next]);
    assert(kids.skip(f.next).drop_first() =~= kids.skip(f.next + 1));
    let d = base + frames.len();
    let pk = spec_render_kids(st, kids.skip(f.next), d + 1, Some(f.node), f.prev_child, unnamed);
    let pk2 = spec_render_kids(
        st,
        kids.skip(f.next + 1),
        d + 1,
        Some(f.node),
        f.prev_child,
        unnamed,
    );
    assert(pk == pk2);
    let a = frames.push(f);
    let b = frames.push(f2);
    assert(a.last() == f);
    assert(b.last() == f2);
    let pv = V::spec_visit(pk.1, f.node, d, f.parent, f.prev_own, f.outs + extra + pk.0);
    if frames.len() == 0 {
        assert(complete(st, a, base, extra, unnamed) == (pv.0, pv.1));
        assert(complete(st, b, base, extra, unnamed) == (pv.0, pv.1));
    } else {
        assert(a.drop_last() =~= frames);
        assert(b.drop_last() =~= frames);
        assert(complete(st, a, base, extra, unnamed) == complete(
            pv.1,
            frames,
            base,
            seq![pv.0],
            unnamed,
        ));
        assert(complete(st, b, base, extra, unnamed) == complete(
            pv.1,
            frames,
            base,
            seq![pv.0],
            unnamed,
        ));
    }
}

proof fn lemma_complete_push<V: Visitor>(
    st: V,
    frames: Seq<FrameModel>,
    base: int,
    f: FrameModel,
    f2: FrameModel,
    g: FrameModel,
    unnamed: bool,
)
    requires
        frame_wf(f),
        f.next < f.node.children@.len(),
        f.node.children@[f.next].named || unnamed,
        f2 == (FrameModel { next: f.next + 1, prev_child: Some(f.node.children@[f.next]), ..f }),
        g == (FrameModel {
            node: f.node.children@[f.next],
            next: 0,
            outs: Seq::<Seq<char>>::empty(),
            parent: Some(f.node),
            prev_own: f.prev_child,
            prev_child: None,
        }),
    ensures
        complete(st, frames.push(f2).push(g), base, Seq::<Seq<char>>::empty(), unnamed) == complete(
            st,
            frames.push(f),
            base,
            Seq::<Seq<char>>::empty(),
            unnamed,
        ),
{
    let kids = f.node.children@;
    let c = kids[f.next];
    let d = base + frames.len();
    assert(kids.skip(f.next)[0] == c);
    assert(kids.skip(f.next).drop_first() =~= kids.skip(f.next + 1));

    // The new top frame completes to exactly the render of `c`.
    let b = frames.push(f2).push(g);
    assert(b.last() == g);
    assert(b.drop_last() =~= frames.push(f2));
    assert(b.len() == frames.len() + 2);
    assert(g.node.children@.skip(0) =~= g.node.children@);
    let pkg = spec_render_kids(st, g.node.children@, d + 2, Some(g.node), None, unnamed);
    let pvg = V::spec_visit(
        pkg.1,
        g.node,
        d + 1,
        g.parent,
        g.prev_own,
        g.outs + Seq::<Seq<char>>::empty() + pkg.0,
    );
    assert(g.outs + Seq::<Seq<char>>::empty() + pkg.0 =~= pkg.0);
    let pc = spec_render(st, c, d + 1, Some(f.node), f.prev_child, unnamed);
    assert(pvg.0 == pc.0 && pvg.1 == pc.1);
    assert(complete(st, b, base, Seq::<Seq<char>>::empty(), unnamed) == complete(
        pc.1,
        frames.push(f2),
        base,
        seq![pc.0],
        unnamed,
    ));

    // The old top frame's remaining children unfold into `c`, then the rest.
    let pk_old = spec_render_kids(st, kids.skip(f.next), d + 1, Some(f.node), f.prev_child, unnamed);
    let pr = spec_render_kids(pc.1, kids.skip(f.next + 1), d + 1, Some(f.node), Some(c), unnamed);
    assert(pk_old.0 == seq![pc.0] + pr.0 && pk_old.1 == pr.1);

    let a = frames.push(f);
    assert(a.last() == f);
    let pv_a = V::spec_visit(
        pk_old.1,
        f.node,
        d,
        f.parent,
        f.prev_own,
        f.outs + Seq::<Seq<char>>::empty() + pk_old.0,
    );

    let mid = frames.push(f2);
    assert(mid.last() == f2);
    let pv_b = V::spec_visit(pr.1, f2.node, d, f2.parent, f2.prev_own, f2.outs + seq![pc.0] + pr.0);
    assert(f.outs + Seq::<Seq<char>>::empty() + pk_old.0 =~= f2.outs + seq![pc.0] + pr.0);
    assert(pv_a == pv_b);
    if frames.len() == 0 {
        assert(complete(pc.1, mid, base, seq![pc.0], unnamed) == (pv_b.0, pv_b.1));
        assert(complete(st, a, base, Seq::<Seq<char>>::empty(), unnamed) == (pv_a.0, pv_a.1));
    } else {
        assert(mid.drop_last() =~= frames);
        assert(a.drop_last() =~= frames);
        assert(complete(pc.1, mid, base, seq![pc.0], unnamed) == complete(
            pv_b.1,
            frames,
            base,
            seq![pv_b.0],
            unnamed,
        ));
        assert(complete(st, a, base, Seq::<Seq<char>>::empty(), unnamed) == complete(
            pv_a.1,
            frames,
            base,
            seq![pv_a.0],
            unnamed,
        ));
    }
}

proof fn lemma_complete_pop<V: Visitor>(
    st: V,
    frames: Seq<FrameModel>,
    base: int,
    p: FrameModel,
    p2: FrameModel,
    o: Seq<char>,
    unnamed: bool,
)
    requires
        p2 == (FrameModel { outs: p.outs.push(o), ..p }),
    ensures
        complete(st, frames.push(p2), base, Seq::<Seq<char>>::empty(), unnamed) == complete(
            st,
            frames.push(p),
            base,
            seq![o],
            unnamed,
        ),
{
    let a = frames.push(p);
    let b = frames.push(p2);
    assert(a.last() == p);
    assert(b.last() == p2);
    let d = base + frames.len();
    let pk = spec_render_kids(
        st,
        p.node.children@.skip(p.next),
        d + 1,
        Some(p.node),
        p.prev_child,
        unnamed,
    );
    assert(p2.outs + Seq::<Seq<char>>::empty() + pk.0 =~= p.outs + seq![o] + pk.0);
    let pv = V::spec_visit(pk.1, p.node, d, p.parent, p.prev_own, p.outs + seq![o] + pk.0);
    if frames.len() == 0 {
        assert(complete(st, a, base, seq![o], unnamed) == (pv.0, pv.1));
        assert(complete(st, b, base, Seq::<Seq<char>>::empty(), unnamed) == (pv.0, pv.1));
    } else {
        assert(a.drop_last() =~= frames);
        assert(b.drop_last() =~= frames);
        assert(complete(st, a, base, seq![o], unnamed) == complete(
            pv.1,
            frames,
            base,
            seq![pv.0],
            unnamed,
        ));
        assert(complete(st, b, base, Seq::<Seq<char>>::empty(), unnamed) == complete(
            pv.1,
            frames,
            base,
            seq![pv.0],
            unnamed,
        ));
    }
}

/// Renders the subtree at `node` with the visitor, iteratively, keeping
/// an explicit stack of frames.
fn walk<'a, V: Visitor>(
    v: &mut V,
    node: &'a CstNode,
    base: usize,
    parent: Option<&'a CstNode>,
    prev: Option<&'a CstNode>,
    unnamed: bool,
) -> (out: String)
    requires
        base <= 1,
    ensures
        ({
            let p = spec_render(
                *old(v),
                *node,
                base as int,
                opt_node(parent),
                opt_node(prev),
                unnamed,
            );
            out@ == p.0 && *final(v) == p.1
        }),
{
    let ghost goal = spec_render(
        *old(v),
        *node,
        base as int,
        opt_node(parent),
        opt_node(prev),
        unnamed,
    );
    let mut stack: Vec<Frame<'a>> = Vec::new();
    stack.push(Frame { node, next: 0, outs: Vec::new(), parent, prev_own: prev, prev_child: None });
    proof {
        let m = frames_model(stack@);
        assert(m.len() == 1);
        assert(m.last() == frame_model(stack@[0]));
        assert(m.last().node.children@.skip(0) =~= m.last().node.children@);
        assert(m.last().outs =~= Seq::<Seq<char>>::empty());
        let pk = spec_render_kids(
            *v,
            m.last().node.children@,
            base + 1,
            Some(*node),
            None,
            unnamed,
        );
        assert(m.last().outs + Seq::<Seq<char>>::empty() + pk.0 =~= pk.0);
        assert(complete(*v, m, base as int, Seq::<Seq<char>>::empty(), unnamed) == goal);
    }
    loop
        invariant
            base <= 1,
            goal == spec_render(
                *old(v),
                *node,
                base as int,
                opt_node(parent),
                opt_node(prev),
                unnamed,
            ),
            stack@.len() >= 1,
            forall|i: int| 0 <= i < stack@.len() ==> frame_wf(#[trigger] frames_model(stack@)[i]),
            complete(*v, frames_model(stack@), base as int, Seq::<Seq<char>>::empty(), unnamed)
                == goal,
        decreases stack_measure(frames_model(stack@)),
    {
        let ghost m_old = frames_model(stack@);
        let slen = stack.len();
        let mut f = match stack.pop() {
            Some(f) => f,
            None => {
                proof {
                    assert(false);
                }
                return String::new();
            },
        };
        let ghost fm = frame_model(f);
        proof {
            assert(m_old.last() == fm);
            assert(m_old.drop_last() =~= frames_model(stack@));
        }
        let cn = f.node.children.len();
        if f.next < cn {
            let c: &'a CstNode = &f.node.children[f.next];
            if c.named || unnamed {
                let g = Frame {
                    node: c,
                    next: 0,
                    outs: Vec::new(),
                    parent: Some(f.node),
                    prev_own: f.prev_child,
                    prev_child: None,
                };
                let ghost gm = frame_model(g);
                f.next = f.next + 1;
                f.prev_child = Some(c);
                let ghost fm2 = frame_model(f);
                stack.push(f);
                stack.push(g);
                proof {
                    assert(gm.outs =~= Seq::<Seq<char>>::empty());
                    assert(gm == (FrameModel {
                        node: fm.node.children@[fm.next],
                        next: 0,
                        outs: Seq::<Seq<char>>::empty(),
                        parent: Some(fm.node),
                        prev_own: fm.prev_child,
                        prev_child: None,
                    }));
                    assert(fm2 == (FrameModel {
                        next: fm.next + 1,
                        prev_child: Some(fm.node.children@[fm.next]),
                        ..fm
                    }));
                    assert(frames_model(stack@) =~= m_old.drop_last().push(fm2).push(gm));
                    lemma_complete_push(*v, m_old.drop_last(), base as int, fm, fm2, gm, unnamed);
                    assert(m_old.drop_last().push(fm) =~= m_old);
                    // The stack measure shrinks by one.
                    let kids = fm.node.children@;
                    assert(kids.skip(fm.next)[0] == kids[fm.next]);
                    assert(kids.skip(fm.next).drop_first() =~= kids.skip(fm.next + 1));
                    assert(kids_size(kids.skip(fm.next)) == node_size(kids[fm.next]) + kids_size(
                        kids.skip(fm.next + 1),
                    ));
                    assert(gm.node.children@.skip(0) =~= gm.node.children@);
                    lemma_stack_measure_push(m_old.drop_last(), fm);
                    lemma_stack_measure_push(m_old.drop_last(), fm2);
                    lemma_stack_measure_push(m_old.drop_last().push(fm2), gm);
                }
            } else {
                f.next = f.next + 1;
                let ghost fm2 = frame_model(f);
                stack.push(f);
                proof {
                    assert(fm2 == (FrameModel { next: fm.next + 1, ..fm }));
                    assert(frames_model(stack@) =~= m_old.drop_last().push(fm2));
                    lemma_complete_skip(
                        *v,
                        m_old.drop_last(),
                        base as int,
                        fm,
                        fm2,
                        Seq::<Seq<char>>::empty(),
                        unnamed,
                    );
                    assert(m_old.drop_last().push(fm) =~= m_old);
                    // The stack measure shrinks by the skipped subtree.
                    let kids = fm.node.children@;
                    assert(kids.skip(fm.next)[0] == kids[fm.next]);
                    assert(kids.skip(fm.next).drop_first() =~= kids.skip(fm.next + 1));
                    assert(kids_size(kids.skip(fm.next)) == node_size(kids[fm.next]) + kids_size(
                        kids.skip(fm.next + 1),
                    ));
                    lemma_stack_measure_push(m_old.drop_last(), fm);
                    lemma_stack_measure_push(m_old.drop_last(), fm2);
                }
            }
        } else {
            proof {
                assert(fm.node.children@.skip(fm.next) =~= Seq::<CstNode>::empty());
            }
            let d = base + (slen - 1);
            let ctx = Context { node: f.node, depth: d, parent: f.parent, prev: f.prev_own };
            let ghost st_before = *v;
            let out = v.visit(&ctx, f.outs);
            proof {
                let pk = spec_render_kids(
                    st_before,
                    fm.node.children@.skip(fm.next),
                    d + 1,
                    Some(fm.node),
                    fm.prev_child,
                    unnamed,
                );
                assert(pk.0 =~= Seq::<Seq<char>>::empty() && pk.1 == st_before);
                assert(fm.outs + Seq::<Seq<char>>::empty() + pk.0 =~= fm.outs);
            }
            if stack.len() == 0 {
                proof {
                    assert(m_old.len() == 1);
                    assert(d as int == base as int);
                    let pv = V::spec_visit(st_before, fm.node, base as int, fm.parent, fm.prev_own, fm.outs);
                    assert(complete(st_before, m_old, base as int, Seq::<Seq<char>>::empty(), unnamed)
                        == (pv.0, pv.1));
                    assert(out@ == pv.0);
                    assert(*v == pv.1);
                    assert(goal == (pv.0, pv.1));
                    assert(out@ == goal.0);
                    assert(*v == goal.1);
                }
                return out;
            }
            let mut p = match stack.pop() {
                Some(p) => p,
                None => {
                    proof {
                        assert(false);
                    }
                    return String::new();
                },
            };
            let ghost m_rest = m_old.drop_last();
            let ghost pm = frame_model(p);
            proof {
                assert(m_rest.last() == pm);
                assert(m_rest.drop_last() =~= frames_model(stack@));
            }
            let ghost prev_outs = p.outs.deep_view();
            p.outs.push(out);
            let ghost pm2 = frame_model(p);
            stack.push(p);
            proof {
                assert(pm2.outs =~= prev_outs.push(out@));
                assert(pm2 == (FrameModel { outs: pm.outs.push(out@), ..pm }));
                assert(frames_model(stack@) =~= m_rest.drop_last().push(pm2));
                lemma_complete_pop(*v, m_rest.drop_last(), base as int, pm, pm2, out@, unnamed);
                assert(m_rest.drop_last().push(pm) =~= m_rest);
                // The old stack completes through the visit of the popped
                // frame into the continuation with its output as `extra`.
                let pv = V::spec_visit(
                    st_before,
                    fm.node,
                    base + m_old.len() - 1,
                    fm.parent,
                    fm.prev_own,
                    fm.outs,
                );
                assert(complete(st_before, m_old, base as int, Seq::<Seq<char>>::empty(), unnamed)
                    == complete(pv.1, m_rest, base as int, seq![pv.0], unnamed));
                // The stack measure shrinks by the popped frame.
                assert(fm.node.children@.skip(fm.next) =~= Seq::<CstNode>::empty());
                lemma_stack_measure_push(m_rest, fm);
                lemma_stack_measure_push(m_rest.drop_last(), pm);
                lemma_stack_measure_push(m_rest.drop_last(), pm2);
            }
        }
    }
}

/// Renders the whole tree at `root`, visiting named nodes only; an
/// unnamed root is not visited at all and yields the empty string.
pub fn visit_all_named<V: Visitor>(v: &mut V, root: &CstNode) -> (out: String)
    ensures
        ({
            let p = spec_render_root(*old(v), *root, 0, None, None, false);
            out@ == p.0 && *final(v) == p.1
        }),
{
    visit_all(v, root, false)
}

/// Renders the whole tree at `root`; with `unnamed` set, anonymous nodes
/// are visited too. A root that fails the filter is not visited and
/// yields the empty string.
pub fn visit_all<V: Visitor>(v: &mut V, root: &CstNode, unnamed: bool) -> (out: String)
    ensures
        ({
            let p = spec_render_root(*old(v), *root, 0, None, None, unnamed);
            out@ == p.0 && *final(v) == p.1
        }),
{
    if root.named || unnamed {
        walk(v, root, 0, None, None, unnamed)
    } else {
        String::new()
    }
}

/// The outputs and final state of visiting a sequence of siblings once
/// each, one level only: a visited node receives no rendered children,
/// and its own children are not descended into.
pub open spec fn spec_visit_children<V: Visitor>(
    st: V,
    kids: Seq<CstNode>,
    depth: int,
    parent: Option<CstNode>,
    prev: Option<CstNode>,
    unnamed: bool,
) -> (Seq<Seq<char>>, V)
    decreases kids,
{
    if kids.len() == 0 {
        (Seq::empty(), st)
    } else {
        let c = kids[0];
        if c.named || unnamed {
            let pc = V::spec_visit(st, c, depth, parent, prev, Seq::empty());
            let pr = spec_visit_children(pc.1, kids.drop_first(), depth, parent, Some(c), unnamed);
            (seq![pc.0] + pr.0, pr.1)
        } else {
            spec_visit_children(st, kids.drop_first(), depth, parent, prev, unnamed)
        }
    }
}

/// Visits only the immediate named children of `root`, once each and
/// without descending, and joins their outputs. The root itself is not
/// visited.
pub fn visit_children_named<V: Visitor, J: Joiner>(v: &mut V, root: &CstNode, joiner: &J) -> (out:
    String)
    ensures
        ({
            let p = spec_visit_children(*old(v), root.children@, 1, Some(*root), None, false);
            out@ == joiner.spec_join(p.0) && *final(v) == p.1
        }),
{
    visit_children(v, root, joiner, false)
}

/// Visits only the immediate children of `root`, once each and without
/// descending into grandchildren, and joins their outputs; with
/// `unnamed` set, anonymous children are visited too. The root itself is
/// not visited, and a visited child receives an empty list of rendered
/// children.
pub fn visit_children<V: Visitor, J: Joiner>(
    v: &mut V,
    root: &CstNode,
    joiner: &J,
    unnamed: bool,
) -> (out: String)
    ensures
        ({
            let p = spec_visit_children(*old(v), root.children@, 1, Some(*root), None, unnamed);
            out@ == joiner.spec_join(p.0) && *final(v) == p.1
        }),
{
    let ghost kids = root.children@;
    let ghost goal = spec_visit_children(*old(v), kids, 1, Some(*root), None, unnamed);
    let m = root.children.len();
    let mut outs: Vec<String> = Vec::new();
    let mut i: usize = 0;
    let mut prev: Option<&CstNode> = None;
    proof {
        assert(kids.skip(0) =~= kids);
        assert(outs.deep_view() =~= Seq::<Seq<char>>::empty());
        assert(outs.deep_view() + goal.0 =~= goal.0);
    }
    while i < m
        invariant
            kids == root.children@,
            goal == spec_visit_children(*old(v), kids, 1, Some(*root), None, unnamed),
            m == kids.len(),
            i <= m,
            ({
                let p = spec_visit_children(
                    *v,
                    kids.skip(i as int),
                    1,
                    Some(*root),
                    opt_node(prev),
                    unnamed,
                );
                goal.0 == outs.deep_view() + p.0 && goal.1 == p.1
            }),
        decreases m - i,
    {
        proof {
            assert(kids.skip(i as int)[0] == kids[i as int]);
            assert(kids.skip(i as int).drop_first() =~= kids.skip(i as int + 1));
        }
        let c = &root.children[i];
        if c.named || unnamed {
            let ghost old_outs = outs.deep_view();
            let ctx = Context { node: c, depth: 1, parent: Some(root), prev };
            let empty_kids: Vec<String> = Vec::new();
            proof {
                assert(empty_kids.deep_view() =~= Seq::<Seq<char>>::empty());
            }
            let o = v.visit(&ctx, empty_kids);
            outs.push(o);
            prev = Some(c);
            proof {
                assert(outs.deep_view() =~~= old_outs.push(o@));
                let p = spec_visit_children(
                    *v,
                    kids.skip(i as int + 1),
                    1,
                    Some(*root),
                    Some(kids[i as int]),
                    unnamed,
                );
                assert(old_outs + (seq![o@] + p.0) =~= outs.deep_view() + p.0);
            }
        }
        i += 1;
    }
    proof {
        assert(kids.skip(m as int) =~= Seq::<CstNode>::empty());
        let p = spec_visit_children(*v, kids.skip(m as int), 1, Some(*root), opt_node(prev), unnamed);
        assert(p.0 =~= Seq::<Seq<char>>::empty());
        assert(outs.deep_view() + p.0 =~= outs.deep_view());
    }
    joiner.join(outs)
}

} // verus!