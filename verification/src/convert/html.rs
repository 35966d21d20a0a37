//! The HTML output: a CST rendered bottom-up by a [`Converter`] plugged
//! into the traversal engine.

use vstd::prelude::*;

verus! {

use crate::cst::CstNode;
use crate::convert::Converter;
use crate::convert::ConverterOpt;
use crate::convert::spec_initial_state;
use crate::visit::Joiner;
use crate::visit::StringJoiner;
use crate::visit::spec_render_root;
use crate::visit::visit_all_named;

/// The HTML rendering of a CST.
pub struct HtmlString {
    s: String,
}

impl View for HtmlString {
    type V = Seq<char>;

    closed spec fn view(&self) -> Seq<char> {
        self.s@
    }
}

impl HtmlString {
    /// Renders the tree at `root` with the given converter; an unnamed
    /// root is not visited and yields the empty string.
    pub fn from_cst<T: Joiner>(c: Converter<T>, root: &CstNode) -> (r: HtmlString)
        ensures
            r@ == spec_render_root(c, *root, 0, None, None, false).0,
    {
        let mut cv = c;
        let s = visit_all_named(&mut cv, root);
        HtmlString { s }
    }

    /// Renders the tree at `root` with the stock configuration: child
    /// outputs joined with single spaces, and the legacy mode set by
    /// `old`.
    pub fn render(root: &CstNode, old: bool) -> (r: HtmlString)
        ensures
            exists|c: Converter<StringJoiner>|
                {
                    &&& c.opt.old == old
                    &&& c.opt.joiner.spec_sep() == " "@
                    &&& c.state == spec_initial_state()
                    &&& r@ == spec_render_root(c, *root, 0, None, None, false).0
                },
    {
        let j = StringJoiner::new(" ");
        let c = Converter::new(ConverterOpt { joiner: j, old });
        let ghost cw = c;
        let r = Self::from_cst(c, root);
        proof {
            assert({
                &&& cw.opt.old == old
                &&& cw.opt.joiner.spec_sep() == " "@
                &&& cw.state == spec_initial_state()
                &&& r@ == spec_render_root(cw, *root, 0, None, None, false).0
            });
        }
        r
    }

    /// The HTML as text.
    pub fn as_str(&self) -> (r: &str)
        ensures
            r@ == self@,
    {
        self.s.as_str()
    }

    /// The HTML as an owned string.
    pub fn into_string(self) -> (r: String)
        ensures
            r@ == self@,
    {
        self.s
    }
}

} // verus!