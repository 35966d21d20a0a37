//! The typed abstract syntax tree and its construction from a CST.
//!
//! Each node kind has a `from_cursor` constructor that validates the CST
//! subtree: sequence fields skip malformed (error or missing) children and
//! report them to a diagnostics sink, single-child fields demand exactly
//! one named child, and a kind mismatch is a hard failure.

use vstd::prelude::*;

verus! {

use crate::cst::CstNode;
use crate::cst::Point;
use crate::utils::str_eq;
use vstd::string::StringExecFns;

/// A note about a malformed (error or missing) CST node that was skipped
/// while building a sequence field: the position, kind and raw text of
/// the offending subtree's root stand in for a structural dump of it.
#[derive(Clone, Debug)]
pub struct Report {
    pub start: Point,
    pub kind: String,
    pub text: String,
}

/// The failure cases of `from_cursor` constructors.
#[derive(Debug)]
pub enum FromCursorError {
    /// A required single-child field had no matching named child.
    MissingField { start: Point, name: String, node_kind: String },
    /// A required single-child field had more than one named child.
    TooManyChildren { start: Point, expected: usize, actual: usize, node_kind: String },
    /// The node's kind fits none of the alternatives expected here.
    TypeError { start: Point, expected: String, actual: String },
}

/// The mathematical shape of a `FromCursorError`, with text fields as
/// character sequences.
pub ghost enum ErrModel {
    Missing { start: Point, name: Seq<char>, node_kind: Seq<char> },
    TooMany { start: Point, expected: int, actual: int, node_kind: Seq<char> },
    Type { start: Point, expected: Seq<char>, actual: Seq<char> },
}

/// The model of an error value.
pub open spec fn err_model(e: FromCursorError) -> ErrModel {
    match e {
        FromCursorError::MissingField { start, name, node_kind } => ErrModel::Missing {
            start,
            name: name@,
            node_kind: node_kind@,
        },
        FromCursorError::TooManyChildren { start, expected, actual, node_kind } => {
            ErrModel::TooMany {
                start,
                expected: expected as int,
                actual: actual as int,
                node_kind: node_kind@,
            }
        },
        FromCursorError::TypeError { start, expected, actual } => ErrModel::Type {
            start,
            expected: expected@,
            actual: actual@,
        },
    }
}

/// The model of a build result: success, or the model of its error.
pub open spec fn res_ok<T>(r: Result<T, FromCursorError>) -> Result<(), ErrModel> {
    match r {
        Ok(_) => Ok(()),
        Err(e) => Err(err_model(e)),
    }
}

/// What a build does besides producing a value: whether it succeeds or
/// with which error, and the reports it emits for skipped children.
pub ghost struct BuildPlan {
    pub result: Result<(), ErrModel>,
    pub reports: Seq<Report>,
}

/// The report recorded for a skipped malformed node.
pub open spec fn report_of(c: CstNode) -> Report {
    Report { start: c.start, kind: c.kind, text: c.text }
}

/// True for a child that a sequence field includes: a named node that is
/// neither an error nor missing.
pub open spec fn included(c: CstNode) -> bool {
    c.named && !c.error && !c.missing
}

/// The named children of a node, in order.
pub open spec fn named_of(kids: Seq<CstNode>) -> Seq<CstNode>
    decreases kids,
{
    if kids.len() == 0 {
        Seq::empty()
    } else {
        named_of(kids.drop_last()) + (if kids.last().named {
            seq![kids.last()]
        } else {
            Seq::empty()
        })
    }
}

/// A type-mismatch error model for node `n` where `expected` was wanted.
pub open spec fn type_err(n: CstNode, expected: Seq<char>) -> ErrModel {
    ErrModel::Type { start: n.start, expected, actual: n.kind@ }
}

/// A position written as `(row, column)`.
pub open spec fn spec_point_str(p: Point) -> Seq<char> {
    "("@ + crate::utils::spec_digits(p.row as int) + ", "@ + crate::utils::spec_digits(
        p.column as int,
    ) + ")"@
}

/// Writes a position as `(row, column)`.
fn point_str(p: Point) -> (r: String)
    ensures
        r@ == spec_point_str(p),
{
    let mut s = String::from_str("(");
    let a = crate::utils::usize_to_string(p.row);
    s.append(a.as_str());
    s.append(", ");
    let b = crate::utils::usize_to_string(p.column);
    s.append(b.as_str());
    s.append(")");
    proof {
        assert(s@ =~= spec_point_str(p));
    }
    s
}

/// The message that describes an error.
pub open spec fn spec_describe(e: FromCursorError) -> Seq<char> {
    match e {
        FromCursorError::MissingField { start, name, node_kind } => {
            "["@ + node_kind@ + " @ "@ + spec_point_str(start) + "] Missing "@ + name@
        },
        FromCursorError::TooManyChildren { start, expected, actual, node_kind } => {
            "["@ + node_kind@ + " @ "@ + spec_point_str(start) + "] Expected "@
                + crate::utils::spec_digits(expected as int) + " named children, but had "@
                + crate::utils::spec_digits(actual as int)
        },
        FromCursorError::TypeError { start, expected, actual } => {
            "[@ "@ + spec_point_str(start) + "] Expected "@ + expected@ + ", but was actually "@
                + actual@
        },
    }
}

impl FromCursorError {
    /// Writes the error as a one-line message naming the node kind, the
    /// position and what was expected.
    pub fn describe(&self) -> (r: String)
        ensures
            r@ == spec_describe(*self),
    {
        match self {
            FromCursorError::MissingField { start, name, node_kind } => {
                let mut s = String::from_str("[");
                s.append(node_kind.as_str());
                s.append(" @ ");
                let p = point_str(*start);
                s.append(p.as_str());
                s.append("] Missing ");
                s.append(name.as_str());
                proof {
                    assert(s@ =~= spec_describe(*self));
                }
                s
            },
            FromCursorError::TooManyChildren { start, expected, actual, node_kind } => {
                let mut s = String::from_str("[");
                s.append(node_kind.as_str());
                s.append(" @ ");
                let p = point_str(*start);
                s.append(p.as_str());
                s.append("] Expected ");
                let a = crate::utils::usize_to_string(*expected);
                s.append(a.as_str());
                s.append(" named children, but had ");
                let b = crate::utils::usize_to_string(*actual);
                s.append(b.as_str());
                proof {
                    assert(s@ =~= spec_describe(*self));
                }
                s
            },
            FromCursorError::TypeError { start, expected, actual } => {
                let mut s = String::from_str("[@ ");
                let p = point_str(*start);
                s.append(p.as_str());
                s.append("] Expected ");
                s.append(expected.as_str());
                s.append(", but was actually ");
                s.append(actual.as_str());
                proof {
                    assert(s@ =~= spec_describe(*self));
                }
                s
            },
        }
    }
}

/// Builds a `TypeError` for node `n`.
fn type_error(n: &CstNode, expected: &str) -> (e: FromCursorError)
    ensures
        err_model(e) == type_err(*n, expected@),
{
    FromCursorError::TypeError {
        start: n.start,
        expected: String::from_str(expected),
        actual: n.kind.clone(),
    }
}

// ---------------------------------------------------------------------
// Terminal kinds: a single source-text span, no children.
// ---------------------------------------------------------------------
/// A plain word of text.
#[derive(Clone, Debug, PartialEq, Eq)]
pub struct Word(pub String);

/// A key code such as `<C-a>`.
#[derive(Clone, Debug, PartialEq, Eq)]
pub struct Keycode(pub String);

/// The language tag of a fenced code block.
#[derive(Clone, Debug, PartialEq, Eq)]
pub struct Language(pub String);

/// The upper-case name opening an `h3` heading.
#[derive(Clone, Debug, PartialEq, Eq)]
pub struct UppercaseName(pub String);

impl Word {
    /// Whether building a `Word` from `n` succeeds.
    pub open spec fn plan(n: CstNode) -> BuildPlan {
        BuildPlan {
            result: if n.kind@ == "word"@ {
                Ok(())
            } else {
                Err(type_err(n, "word"@))
            },
            reports: Seq::empty(),
        }
    }

    /// The built value: the node's raw text.
    pub open spec fn matches(self, n: CstNode) -> bool {
        self.0 == n.text
    }

    /// Builds a `Word` from a CST node of kind `word`.
    pub fn from_cursor(n: &CstNode) -> (r: Result<Word, FromCursorError>)
        ensures
            res_ok(r) == Self::plan(*n).result,
            r is Ok ==> r->Ok_0.matches(*n),
    {
        if str_eq(n.kind.as_str(), "word") {
            Ok(Word(n.text.clone()))
        } else {
            Err(type_error(n, "word"))
        }
    }
}

impl Keycode {
    /// Whether building a `Keycode` from `n` succeeds.
    pub open spec fn plan(n: CstNode) -> BuildPlan {
        BuildPlan {
            result: if n.kind@ == "keycode"@ {
                Ok(())
            } else {
                Err(type_err(n, "keycode"@))
            },
            reports: Seq::empty(),
        }
    }

    /// The built value: the node's raw text.
    pub open spec fn matches(self, n: CstNode) -> bool {
        self.0 == n.text
    }

    /// Builds a `Keycode` from a CST node of kind `keycode`.
    pub fn from_cursor(n: &CstNode) -> (r: Result<Keycode, FromCursorError>)
        ensures
            res_ok(r) == Self::plan(*n).result,
            r is Ok ==> r->Ok_0.matches(*n),
    {
        if str_eq(n.kind.as_str(), "keycode") {
            Ok(Keycode(n.text.clone()))
        } else {
            Err(type_error(n, "keycode"))
        }
    }
}

impl Language {
    /// Whether building a `Language` from `n` succeeds.
    pub open spec fn plan(n: CstNode) -> BuildPlan {
        BuildPlan {
            result: if n.kind@ == "language"@ {
                Ok(())
            } else {
                Err(type_err(n, "language"@))
            },
            reports: Seq::empty(),
        }
    }

    /// The built value: the node's raw text.
    pub open spec fn matches(self, n: CstNode) -> bool {
        self.0 == n.text
    }

    /// Builds a `Language` from a CST node of kind `language`.
    pub fn from_cursor(n: &CstNode) -> (r: Result<Language, FromCursorError>)
        ensures
            res_ok(r) == Self::plan(*n).result,
            r is Ok ==> r->Ok_0.matches(*n),
    {
        if str_eq(n.kind.as_str(), "language") {
            Ok(Language(n.text.clone()))
        } else {
            Err(type_error(n, "language"))
        }
    }
}

impl UppercaseName {
    /// Whether building an `UppercaseName` from `n` succeeds.
    pub open spec fn plan(n: CstNode) -> BuildPlan {
        BuildPlan {
            result: if n.kind@ == "uppercase_name"@ {
                Ok(())
            } else {
                Err(type_err(n, "uppercase_name"@))
            },
            reports: Seq::empty(),
        }
    }

    /// The built value: the node's raw text.
    pub open spec fn matches(self, n: CstNode) -> bool {
        self.0 == n.text
    }

    /// Builds an `UppercaseName` from a CST node of kind `uppercase_name`.
    pub fn from_cursor(n: &CstNode) -> (r: Result<UppercaseName, FromCursorError>)
        ensures
            res_ok(r) == Self::plan(*n).result,
            r is Ok ==> r->Ok_0.matches(*n),
    {
        if str_eq(n.kind.as_str(), "uppercase_name") {
            Ok(UppercaseName(n.text.clone()))
        } else {
            Err(type_error(n, "uppercase_name"))
        }
    }
}

// ---------------------------------------------------------------------
// Single-child kinds: exactly one named child, a Word.
// ---------------------------------------------------------------------
proof fn lemma_named_take_step(kids: Seq<CstNode>, i: int)
    requires
        0 <= i < kids.len(),
    ensures
        named_of(kids.take(i + 1)) == named_of(kids.take(i)) + (if kids[i].named {
            seq![kids[i]]
        } else {
            Seq::<CstNode>::empty()
        }),
{
    assert(kids.take(i + 1).drop_last() =~= kids.take(i));
    assert(kids.take(i + 1).last() == kids[i]);
}

proof fn lemma_named_of_prefix(kids: Seq<CstNode>, j: int)
    requires
        0 <= j <= kids.len(),
    ensures
        named_of(kids.take(j)).len() <= named_of(kids).len(),
        named_of(kids).take(named_of(kids.take(j)).len() as int) == named_of(kids.take(j)),
    decreases kids.len() - j,
{
    if j == kids.len() {
        assert(kids.take(j) =~= kids);
        assert(named_of(kids).take(named_of(kids).len() as int) =~= named_of(kids));
    } else {
        lemma_named_take_step(kids, j);
        lemma_named_of_prefix(kids, j + 1);
        let a = named_of(kids.take(j));
        let b = named_of(kids.take(j + 1));
        assert(a.len() <= b.len());
        assert(named_of(kids).take(a.len() as int) =~= named_of(kids).take(b.len() as int).take(
            a.len() as int,
        ));
        assert(b.take(a.len() as int) =~= a);
    }
}

/// The outcome of demanding exactly one named child, of kind `word`:
/// `MissingField` for zero, the word's kind mismatch for a wrong first
/// child, `TooManyChildren` for more than one.
pub open spec fn single_word_outcome(n: CstNode) -> Result<(), ErrModel> {
    let nv = named_of(n.children@);
    if nv.len() == 0 {
        Err(ErrModel::Missing { start: n.start, name: "text"@, node_kind: n.kind@ })
    } else if nv[0].kind@ != "word"@ {
        Err(type_err(nv[0], "word"@))
    } else if nv.len() > 1 {
        Err(
            ErrModel::TooMany {
                start: n.start,
                expected: 1,
                actual: nv.len() as int,
                node_kind: n.kind@,
            },
        )
    } else {
        Ok(())
    }
}

/// The value built from the one named child.
pub open spec fn single_word_matches(w: Word, n: CstNode) -> bool {
    named_of(n.children@).len() == 1 && w.matches(named_of(n.children@)[0])
}

/// Scans the named children of `n` and builds the single `Word` field.
fn single_word_child(n: &CstNode) -> (r: Result<Word, FromCursorError>)
    ensures
        res_ok(r) == single_word_outcome(*n),
        r is Ok ==> single_word_matches(r->Ok_0, *n),
{
    let m = n.children.len();
    let mut i: usize = 0;
    let mut cnt: usize = 0;
    let mut word: Option<Word> = None;
    proof {
        assert(n.children@.take(0) =~= Seq::<CstNode>::empty());
    }
    while i < m
        invariant
            m == n.children@.len(),
            i <= m,
            cnt <= i,
            cnt == named_of(n.children@.take(i as int)).len(),
            cnt == 0 <==> word is None,
            cnt > 0 ==> {
                let nv = named_of(n.children@.take(i as int));
                nv[0].kind@ == "word"@ && word->0.matches(nv[0])
            },
        decreases m - i,
    {
        proof {
            lemma_named_take_step(n.children@, i as int);
        }
        let c = &n.children[i];
        if c.named {
            if cnt == 0 {
                match Word::from_cursor(c) {
                    Ok(w) => {
                        word = Some(w);
                    },
                    Err(e) => {
                        proof {
                            lemma_named_of_prefix(n.children@, i as int + 1);
                            let nv = named_of(n.children@);
                            assert(nv[0] == named_of(n.children@.take(i as int + 1))[0]);
                        }
                        return Err(e);
                    },
                }
            }
            cnt += 1;
        }
        i += 1;
    }
    proof {
        assert(n.children@.take(m as int) =~= n.children@);
    }
    if cnt == 0 {
        Err(
            FromCursorError::MissingField {
                start: n.start,
                name: String::from_str("text"),
                node_kind: n.kind.clone(),
            },
        )
    } else if cnt > 1 {
        Err(
            FromCursorError::TooManyChildren {
                start: n.start,
                expected: 1,
                actual: cnt,
                node_kind: n.kind.clone(),
            },
        )
    } else {
        match word {
            Some(w) => Ok(w),
            None => {
                proof {
                    assert(false);
                }
                Err(
                    FromCursorError::MissingField {
                        start: n.start,
                        name: String::from_str("text"),
                        node_kind: n.kind.clone(),
                    },
                )
            },
        }
    }
}

/// An argument reference, wrapping a single word.
#[derive(Clone, Debug, PartialEq, Eq)]
pub struct Argument {
    pub text: Word,
}

/// An inline code span, wrapping a single word.
#[derive(Clone, Debug, PartialEq, Eq)]
pub struct Codespan {
    pub text: Word,
}

/// A link to an option name, wrapping a single word.
#[derive(Clone, Debug, PartialEq, Eq)]
pub struct Optionlink {
    pub text: Word,
}

/// A tag definition, wrapping a single word.
#[derive(Clone, Debug, PartialEq, Eq)]
pub struct Tag {
    pub text: Word,
}

/// A link to a tag, wrapping a single word.
#[derive(Clone, Debug, PartialEq, Eq)]
pub struct Taglink {
    pub text: Word,
}

/// A URL, wrapping a single word.
#[derive(Clone, Debug, PartialEq, Eq)]
pub struct Url {
    pub text: Word,
}

impl Argument {
    /// Whether building from `n` succeeds: the kind must be `argument`
    /// with exactly one named `word` child.
    pub open spec fn plan(n: CstNode) -> BuildPlan {
        BuildPlan {
            result: if n.kind@ != "argument"@ {
                Err(type_err(n, "argument"@))
            } else {
                single_word_outcome(n)
            },
            reports: Seq::empty(),
        }
    }

    /// The built value: the single named child as a word.
    pub open spec fn matches(self, n: CstNode) -> bool {
        single_word_matches(self.text, n)
    }

    /// Builds an `Argument` from a CST node of kind `argument`.
    pub fn from_cursor(n: &CstNode) -> (r: Result<Argument, FromCursorError>)
        ensures
            res_ok(r) == Self::plan(*n).result,
            r is Ok ==> r->Ok_0.matches(*n),
    {
        if !str_eq(n.kind.as_str(), "argument") {
            return Err(type_error(n, "argument"));
        }
        match single_word_child(n) {
            Ok(w) => Ok(Argument { text: w }),
            Err(e) => Err(e),
        }
    }
}

impl Codespan {
    /// Whether building from `n` succeeds: the kind must be `codespan`
    /// with exactly one named `word` child.
    pub open spec fn plan(n: CstNode) -> BuildPlan {
        BuildPlan {
            result: if n.kind@ != "codespan"@ {
                Err(type_err(n, "codespan"@))
            } else {
                single_word_outcome(n)
            },
            reports: Seq::empty(),
        }
    }

    /// The built value: the single named child as a word.
    pub open spec fn matches(self, n: CstNode) -> bool {
        single_word_matches(self.text, n)
    }

    /// Builds a `Codespan` from a CST node of kind `codespan`.
    pub fn from_cursor(n: &CstNode) -> (r: Result<Codespan, FromCursorError>)
        ensures
            res_ok(r) == Self::plan(*n).result,
            r is Ok ==> r->Ok_0.matches(*n),
    {
        if !str_eq(n.kind.as_str(), "codespan") {
            return Err(type_error(n, "codespan"));
        }
        match single_word_child(n) {
            Ok(w) => Ok(Codespan { text: w }),
            Err(e) => Err(e),
        }
    }
}

impl Optionlink {
    /// Whether building from `n` succeeds: the kind must be `optionlink`
    /// with exactly one named `word` child.
    pub open spec fn plan(n: CstNode) -> BuildPlan {
        BuildPlan {
            result: if n.kind@ != "optionlink"@ {
                Err(type_err(n, "optionlink"@))
            } else {
                single_word_outcome(n)
            },
            reports: Seq::empty(),
        }
    }

    /// The built value: the single named child as a word.
    pub open spec fn matches(self, n: CstNode) -> bool {
        single_word_matches(self.text, n)
    }

    /// Builds an `Optionlink` from a CST node of kind `optionlink`.
    pub fn from_cursor(n: &CstNode) -> (r: Result<Optionlink, FromCursorError>)
        ensures
            res_ok(r) == Self::plan(*n).result,
            r is Ok ==> r->Ok_0.matches(*n),
    {
        if !str_eq(n.kind.as_str(), "optionlink") {
            return Err(type_error(n, "optionlink"));
        }
        match single_word_child(n) {
            Ok(w) => Ok(Optionlink { text: w }),
            Err(e) => Err(e),
        }
    }
}

impl Tag {
    /// Whether building from `n` succeeds: the kind must be `tag` with
    /// exactly one named `word` child.
    pub open spec fn plan(n: CstNode) -> BuildPlan {
        BuildPlan {
            result: if n.kind@ != "tag"@ {
                Err(type_err(n, "tag"@))
            } else {
                single_word_outcome(n)
            },
            reports: Seq::empty(),
        }
    }

    /// The built value: the single named child as a word.
    pub open spec fn matches(self, n: CstNode) -> bool {
        single_word_matches(self.text, n)
    }

    /// Builds a `Tag` from a CST node of kind `tag`.
    pub fn from_cursor(n: &CstNode) -> (r: Result<Tag, FromCursorError>)
        ensures
            res_ok(r) == Self::plan(*n).result,
            r is Ok ==> r->Ok_0.matches(*n),
    {
        if !str_eq(n.kind.as_str(), "tag") {
            return Err(type_error(n, "tag"));
        }
        match single_word_child(n) {
            Ok(w) => Ok(Tag { text: w }),
            Err(e) => Err(e),
        }
    }
}

impl Taglink {
    /// Whether building from `n` succeeds: the kind must be `taglink`
    /// with exactly one named `word` child.
    pub open spec fn plan(n: CstNode) -> BuildPlan {
        BuildPlan {
            result: if n.kind@ != "taglink"@ {
                Err(type_err(n, "taglink"@))
            } else {
                single_word_outcome(n)
            },
            reports: Seq::empty(),
        }
    }

    /// The built value: the single named child as a word.
    pub open spec fn matches(self, n: CstNode) -> bool {
        single_word_matches(self.text, n)
    }

    /// Builds a `Taglink` from a CST node of kind `taglink`.
    pub fn from_cursor(n: &CstNode) -> (r: Result<Taglink, FromCursorError>)
        ensures
            res_ok(r) == Self::plan(*n).result,
            r is Ok ==> r->Ok_0.matches(*n),
    {
        if !str_eq(n.kind.as_str(), "taglink") {
            return Err(type_error(n, "taglink"));
        }
        match single_word_child(n) {
            Ok(w) => Ok(Taglink { text: w }),
            Err(e) => Err(e),
        }
    }
}

impl Url {
    /// Whether building from `n` succeeds: the kind must be `url` with
    /// exactly one named `word` child.
    pub open spec fn plan(n: CstNode) -> BuildPlan {
        BuildPlan {
            result: if n.kind@ != "url"@ {
                Err(type_err(n, "url"@))
            } else {
                single_word_outcome(n)
            },
            reports: Seq::empty(),
        }
    }

    /// The built value: the single named child as a word.
    pub open spec fn matches(self, n: CstNode) -> bool {
        single_word_matches(self.text, n)
    }

    /// Builds a `Url` from a CST node of kind `url`.
    pub fn from_cursor(n: &CstNode) -> (r: Result<Url, FromCursorError>)
        ensures
            res_ok(r) == Self::plan(*n).result,
            r is Ok ==> r->Ok_0.matches(*n),
    {
        if !str_eq(n.kind.as_str(), "url") {
            return Err(type_error(n, "url"));
        }
        match single_word_child(n) {
            Ok(w) => Ok(Url { text: w }),
            Err(e) => Err(e),
        }
    }
}

// ---------------------------------------------------------------------
// Heading children: the alternatives allowed inside headings.
// ---------------------------------------------------------------------
/// One child of a heading or column heading.
#[derive(Clone, Debug, PartialEq, Eq)]
pub enum HChild {
    Argument(Argument),
    Codespan(Codespan),
    Keycode(Keycode),
    Optionlink(Optionlink),
    Tag(Tag),
    Taglink(Taglink),
    Url(Url),
    Word(Word),
}

impl HChild {
    /// Whether building from `n` succeeds: the kind selects the
    /// alternative; an unknown kind is a type error.
    pub open spec fn plan(n: CstNode) -> BuildPlan {
        if n.kind@ == "argument"@ {
            Argument::plan(n)
        } else if n.kind@ == "codespan"@ {
            Codespan::plan(n)
        } else if n.kind@ == "keycode"@ {
            Keycode::plan(n)
        } else if n.kind@ == "optionlink"@ {
            Optionlink::plan(n)
        } else if n.kind@ == "tag"@ {
            Tag::plan(n)
        } else if n.kind@ == "taglink"@ {
            Taglink::plan(n)
        } else if n.kind@ == "url"@ {
            Url::plan(n)
        } else if n.kind@ == "word"@ {
            Word::plan(n)
        } else {
            BuildPlan {
                result: Err(
                    type_err(
                        n,
                        "argument or codespan or keycode or optionlink or tag or taglink or url or word"@,
                    ),
                ),
                reports: Seq::empty(),
            }
        }
    }

    /// The built value: the alternative chosen by the node's kind.
    pub open spec fn matches(self, n: CstNode) -> bool {
        match self {
            HChild::Argument(x) => n.kind@ == "argument"@ && x.matches(n),
            HChild::Codespan(x) => n.kind@ == "codespan"@ && x.matches(n),
            HChild::Keycode(x) => n.kind@ == "keycode"@ && x.matches(n),
            HChild::Optionlink(x) => n.kind@ == "optionlink"@ && x.matches(n),
            HChild::Tag(x) => n.kind@ == "tag"@ && x.matches(n),
            HChild::Taglink(x) => n.kind@ == "taglink"@ && x.matches(n),
            HChild::Url(x) => n.kind@ == "url"@ && x.matches(n),
            HChild::Word(x) => n.kind@ == "word"@ && x.matches(n),
        }
    }

    /// Builds a heading child by dispatching on the node's kind.
    pub fn from_cursor(n: &CstNode) -> (r: Result<HChild, FromCursorError>)
        ensures
            res_ok(r) == Self::plan(*n).result,
            r is Ok ==> r->Ok_0.matches(*n),
    {
        let k = n.kind.as_str();
        if str_eq(k, "argument") {
            match Argument::from_cursor(n) {
                Ok(x) => Ok(HChild::Argument(x)),
                Err(e) => Err(e),
            }
        } else if str_eq(k, "codespan") {
            match Codespan::from_cursor(n) {
                Ok(x) => Ok(HChild::Codespan(x)),
                Err(e) => Err(e),
            }
        } else if str_eq(k, "keycode") {
            match Keycode::from_cursor(n) {
                Ok(x) => Ok(HChild::Keycode(x)),
                Err(e) => Err(e),
            }
        } else if str_eq(k, "optionlink") {
            match Optionlink::from_cursor(n) {
                Ok(x) => Ok(HChild::Optionlink(x)),
                Err(e) => Err(e),
            }
        } else if str_eq(k, "tag") {
            match Tag::from_cursor(n) {
                Ok(x) => Ok(HChild::Tag(x)),
                Err(e) => Err(e),
            }
        } else if str_eq(k, "taglink") {
            match Taglink::from_cursor(n) {
                Ok(x) => Ok(HChild::Taglink(x)),
                Err(e) => Err(e),
            }
        } else if str_eq(k, "url") {
            match Url::from_cursor(n) {
                Ok(x) => Ok(HChild::Url(x)),
                Err(e) => Err(e),
            }
        } else if str_eq(k, "word") {
            match Word::from_cursor(n) {
                Ok(x) => Ok(HChild::Word(x)),
                Err(e) => Err(e),
            }
        } else {
            Err(
                type_error(
                    n,
                    "argument or codespan or keycode or optionlink or tag or taglink or url or word",
                ),
            )
        }
    }
}

/// The plan of building a sequence of heading children: named malformed
/// children are skipped with a report, the first hard failure stops the
/// build.
pub open spec fn hchild_kids_plan(kids: Seq<CstNode>) -> BuildPlan
    decreases kids,
{
    if kids.len() == 0 {
        BuildPlan { result: Ok(()), reports: Seq::empty() }
    } else {
        let pre = hchild_kids_plan(kids.drop_last());
        if pre.result is Err {
            pre
        } else {
            let c = kids.last();
            if !c.named {
                pre
            } else if c.error || c.missing {
                BuildPlan { result: Ok(()), reports: pre.reports.push(report_of(c)) }
            } else {
                let cb = HChild::plan(c);
                BuildPlan { result: cb.result, reports: pre.reports + cb.reports }
            }
        }
    }
}

/// The built heading children correspond one to one, in order, to the
/// included CST children.
pub open spec fn matches_hchildren(bs: Seq<HChild>, kids: Seq<CstNode>) -> bool
    decreases kids,
{
    if kids.len() == 0 {
        bs.len() == 0
    } else if !included(kids.last()) {
        matches_hchildren(bs, kids.drop_last())
    } else {
        bs.len() > 0 && bs.last().matches(kids.last()) && matches_hchildren(
            bs.drop_last(),
            kids.drop_last(),
        )
    }
}

proof fn lemma_hchild_plan_stable(kids: Seq<CstNode>, j: int)
    requires
        0 <= j <= kids.len(),
        hchild_kids_plan(kids.take(j)).result is Err,
    ensures
        hchild_kids_plan(kids) == hchild_kids_plan(kids.take(j)),
    decreases kids.len() - j,
{
    if j == kids.len() {
        assert(kids.take(j) =~= kids);
    } else {
        assert(kids.take(j + 1).drop_last() =~= kids.take(j));
        lemma_hchild_plan_stable(kids, j + 1);
    }
}

/// Builds the sequence of heading children of `n` from child index
/// `start` on, skipping malformed named children with a report into
/// `diag`.
fn build_hchildren(n: &CstNode, start: usize, diag: &mut Vec<Report>) -> (r: Result<
    Vec<HChild>,
    FromCursorError,
>)
    requires
        start <= n.children@.len(),
    ensures
        ({
            let kids = n.children@.skip(start as int);
            let p = hchild_kids_plan(kids);
            &&& match r {
                Ok(v) => p.result == Ok::<(), ErrModel>(()) && matches_hchildren(v@, kids),
                Err(e) => p.result == Err::<(), ErrModel>(err_model(e)),
            }
            &&& final(diag)@ == old(diag)@ + p.reports
        }),
{
    let ghost kids = n.children@.skip(start as int);
    let m = n.children.len();
    let mut i: usize = start;
    let mut acc: Vec<HChild> = Vec::new();
    proof {
        assert(kids.take(0) =~= Seq::<CstNode>::empty());
        assert(diag@ =~= old(diag)@ + hchild_kids_plan(kids.take(0)).reports);
    }
    while i < m
        invariant
            kids == n.children@.skip(start as int),
            m == n.children@.len(),
            start <= i <= m,
            hchild_kids_plan(kids.take(i - start)).result == Ok::<(), ErrModel>(()),
            diag@ == old(diag)@ + hchild_kids_plan(kids.take(i - start)).reports,
            matches_hchildren(acc@, kids.take(i - start)),
        decreases m - i,
    {
        proof {
            assert(kids.take(i - start + 1).drop_last() =~= kids.take(i - start));
            assert(kids.take(i - start + 1).last() == n.children@[i as int]);
        }
        let c = &n.children[i];
        if c.named {
            if c.error || c.missing {
                diag.push(
                    Report { start: c.start, kind: c.kind.clone(), text: c.text.clone() },
                );
                proof {
                    assert(diag@ =~= old(diag)@ + hchild_kids_plan(
                        kids.take(i - start + 1),
                    ).reports);
                }
            } else {
                match HChild::from_cursor(c) {
                    Ok(x) => {
                        let ghost prev_acc = acc@;
                        acc.push(x);
                        proof {
                            assert(acc@.drop_last() =~= prev_acc);
                            assert(acc@.last() == x);
                            assert(diag@ =~= old(diag)@ + hchild_kids_plan(
                                kids.take(i - start + 1),
                            ).reports);
                        }
                    },
                    Err(e) => {
                        proof {
                            lemma_hchild_plan_stable(kids, i - start + 1);
                            assert(diag@ =~= old(diag)@ + hchild_kids_plan(
                                kids.take(i - start + 1),
                            ).reports);
                        }
                        return Err(e);
                    },
                }
            }
        }
        i += 1;
    }
    proof {
        assert(kids.take(m - start) =~= kids);
    }
    Ok(acc)
}

/// A column heading line.
#[derive(Clone, Debug, PartialEq, Eq)]
pub struct ColumnHeading {
    pub name: Vec<HChild>,
}

/// A top-level heading.
#[derive(Clone, Debug, PartialEq, Eq)]
pub struct H1 {
    pub children: Vec<HChild>,
}

/// A second-level heading.
#[derive(Clone, Debug, PartialEq, Eq)]
pub struct H2 {
    pub children: Vec<HChild>,
}

impl ColumnHeading {
    /// Whether building from `n` succeeds: the kind must be
    /// `column_heading`; malformed named children are skipped.
    pub open spec fn plan(n: CstNode) -> BuildPlan {
        if n.kind@ != "column_heading"@ {
            BuildPlan { result: Err(type_err(n, "column_heading"@)), reports: Seq::empty() }
        } else {
            hchild_kids_plan(n.children@)
        }
    }

    /// The built value: the included children, in order.
    pub open spec fn matches(self, n: CstNode) -> bool {
        matches_hchildren(self.name@, n.children@)
    }

    /// Builds a `ColumnHeading` from a CST node of kind `column_heading`.
    pub fn from_cursor(n: &CstNode, diag: &mut Vec<Report>) -> (r: Result<
        ColumnHeading,
        FromCursorError,
    >)
        ensures
            res_ok(r) == Self::plan(*n).result,
            r is Ok ==> r->Ok_0.matches(*n),
            final(diag)@ == old(diag)@ + Self::plan(*n).reports,
    {
        if !str_eq(n.kind.as_str(), "column_heading") {
            proof {
                assert(diag@ =~= old(diag)@ + Seq::<Report>::empty());
            }
            return Err(type_error(n, "column_heading"));
        }
        proof {
            assert(n.children@.skip(0) =~= n.children@);
        }
        match build_hchildren(n, 0, diag) {
            Ok(v) => Ok(ColumnHeading { name: v }),
            Err(e) => Err(e),
        }
    }
}

impl H1 {
    /// Whether building from `n` succeeds: the kind must be `h1`;
    /// malformed named children are skipped.
    pub open spec fn plan(n: CstNode) -> BuildPlan {
        if n.kind@ != "h1"@ {
            BuildPlan { result: Err(type_err(n, "h1"@)), reports: Seq::empty() }
        } else {
            hchild_kids_plan(n.children@)
        }
    }

    /// The built value: the included children, in order.
    pub open spec fn matches(self, n: CstNode) -> bool {
        matches_hchildren(self.children@, n.children@)
    }

    /// Builds an `H1` from a CST node of kind `h1`.
    pub fn from_cursor(n: &CstNode, diag: &mut Vec<Report>) -> (r: Result<H1, FromCursorError>)
        ensures
            res_ok(r) == Self::plan(*n).result,
            r is Ok ==> r->Ok_0.matches(*n),
            final(diag)@ == old(diag)@ + Self::plan(*n).reports,
    {
        if !str_eq(n.kind.as_str(), "h1") {
            proof {
                assert(diag@ =~= old(diag)@ + Seq::<Report>::empty());
            }
            return Err(type_error(n, "h1"));
        }
        proof {
            assert(n.children@.skip(0) =~= n.children@);
        }
        match build_hchildren(n, 0, diag) {
            Ok(v) => Ok(H1 { children: v }),
            Err(e) => Err(e),
        }
    }
}

impl H2 {
    /// Whether building from `n` succeeds: the kind must be `h2`;
    /// malformed named children are skipped.
    pub open spec fn plan(n: CstNode) -> BuildPlan {
        if n.kind@ != "h2"@ {
            BuildPlan { result: Err(type_err(n, "h2"@)), reports: Seq::empty() }
        } else {
            hchild_kids_plan(n.children@)
        }
    }

    /// The built value: the included children, in order.
    pub open spec fn matches(self, n: CstNode) -> bool {
        matches_hchildren(self.children@, n.children@)
    }

    /// Builds an `H2` from a CST node of kind `h2`.
    pub fn from_cursor(n: &CstNode, diag: &mut Vec<Report>) -> (r: Result<H2, FromCursorError>)
        ensures
            res_ok(r) == Self::plan(*n).result,
            r is Ok ==> r->Ok_0.matches(*n),
            final(diag)@ == old(diag)@ + Self::plan(*n).reports,
    {
        if !str_eq(n.kind.as_str(), "h2") {
            proof {
                assert(diag@ =~= old(diag)@ + Seq::<Report>::empty());
            }
            return Err(type_error(n, "h2"));
        }
        proof {
            assert(n.children@.skip(0) =~= n.children@);
        }
        match build_hchildren(n, 0, diag) {
            Ok(v) => Ok(H2 { children: v }),
            Err(e) => Err(e),
        }
    }
}

// ---------------------------------------------------------------------
// H3: a mandatory leading uppercase name, then heading children.
// ---------------------------------------------------------------------
/// The index of the first named child at or after `p`, or the length.
pub open spec fn first_named_idx(kids: Seq<CstNode>, p: int) -> int
    decreases kids.len() - p,
{
    if p < 0 {
        first_named_idx(kids, 0)
    } else if p >= kids.len() {
        kids.len() as int
    } else if kids[p].named {
        p
    } else {
        first_named_idx(kids, p + 1)
    }
}

pub proof fn lemma_first_named_idx(kids: Seq<CstNode>, p: int)
    requires
        0 <= p <= kids.len(),
    ensures
        p <= first_named_idx(kids, p) <= kids.len(),
        first_named_idx(kids, p) < kids.len() ==> kids[first_named_idx(kids, p)].named,
        forall|q: int| p <= q < first_named_idx(kids, p) ==> !kids[q].named,
    decreases kids.len() - p,
{
    if p < kids.len() && !kids[p].named {
        lemma_first_named_idx(kids, p + 1);
    }
}

/// A third-level heading, led by an upper-case name.
#[derive(Clone, Debug, PartialEq, Eq)]
pub struct H3 {
    pub name: UppercaseName,
    pub children: Vec<HChild>,
}

impl H3 {
    /// Whether building from `n` succeeds: the kind must be `h3`, the
    /// first named child must be an `uppercase_name` (else
    /// `MissingField` when there is none at all), and the remaining
    /// children build as heading children with malformed ones skipped.
    pub open spec fn plan(n: CstNode) -> BuildPlan {
        if n.kind@ != "h3"@ {
            BuildPlan { result: Err(type_err(n, "h3"@)), reports: Seq::empty() }
        } else {
            let fi = first_named_idx(n.children@, 0);
            if fi >= n.children@.len() {
                BuildPlan {
                    result: Err(
                        ErrModel::Missing { start: n.start, name: "name"@, node_kind: n.kind@ },
                    ),
                    reports: Seq::empty(),
                }
            } else {
                let nb = UppercaseName::plan(n.children@[fi]);
                if nb.result is Err {
                    BuildPlan { result: nb.result, reports: Seq::empty() }
                } else {
                    hchild_kids_plan(n.children@.skip(fi + 1))
                }
            }
        }
    }

    /// The built value: the first named child as the name, the included
    /// later children as heading children.
    pub open spec fn matches(self, n: CstNode) -> bool {
        let fi = first_named_idx(n.children@, 0);
        &&& fi < n.children@.len()
        &&& self.name.matches(n.children@[fi])
        &&& matches_hchildren(self.children@, n.children@.skip(fi + 1))
    }

    /// Builds an `H3` from a CST node of kind `h3`.
    pub fn from_cursor(n: &CstNode, diag: &mut Vec<Report>) -> (r: Result<H3, FromCursorError>)
        ensures
            res_ok(r) == Self::plan(*n).result,
            r is Ok ==> r->Ok_0.matches(*n),
            final(diag)@ == old(diag)@ + Self::plan(*n).reports,
    {
        if !str_eq(n.kind.as_str(), "h3") {
            proof {
                assert(diag@ =~= old(diag)@ + Seq::<Report>::empty());
            }
            return Err(type_error(n, "h3"));
        }
        let m = n.children.len();
        let mut i: usize = 0;
        while i < m && !n.children[i].named
            invariant
                m == n.children@.len(),
                i <= m,
                first_named_idx(n.children@, 0) == first_named_idx(n.children@, i as int),
            decreases m - i,
        {
            i += 1;
        }
        proof {
            lemma_first_named_idx(n.children@, 0);
        }
        if i == m {
            proof {
                assert(diag@ =~= old(diag)@ + Seq::<Report>::empty());
            }
            return Err(
                FromCursorError::MissingField {
                    start: n.start,
                    name: String::from_str("name"),
                    node_kind: n.kind.clone(),
                },
            );
        }
        let name = match UppercaseName::from_cursor(&n.children[i]) {
            Ok(x) => x,
            Err(e) => {
                proof {
                    assert(diag@ =~= old(diag)@ + Seq::<Report>::empty());
                }
                return Err(e);
            },
        };
        match build_hchildren(n, i + 1, diag) {
            Ok(v) => Ok(H3 { name, children: v }),
            Err(e) => Err(e),
        }
    }
}

// ---------------------------------------------------------------------
// The mutually recursive block structure.
// ---------------------------------------------------------------------
/// A paragraph-level block of lines and list items.
#[derive(Debug)]
pub struct Block {
    pub children: Vec<BlockChild>,
}

/// One child of a block.
#[derive(Debug)]
pub enum BlockChild {
    Line(Line),
    LineLi(LineLi),
}

/// A line of inline content.
#[derive(Debug)]
pub struct Line {
    pub children: Vec<LineChild>,
}

/// One child of a line.
#[derive(Debug)]
pub enum LineChild {
    Argument(Argument),
    Codeblock(Codeblock),
    Codespan(Codespan),
    ColumnHeading(ColumnHeading),
    H1(H1),
    H2(H2),
    H3(H3),
    Keycode(Keycode),
    Optionlink(Optionlink),
    Tag(Tag),
    Taglink(Taglink),
    Url(Url),
    Word(Word),
}

/// A list item.
#[derive(Debug)]
pub struct LineLi {
    pub children: Vec<LineLiChild>,
}

/// One child of a list item.
#[derive(Debug)]
pub enum LineLiChild {
    Codeblock(Codeblock),
    Line(Line),
}

/// A fenced code block: an optional leading language tag, then lines.
#[derive(Debug)]
pub struct Codeblock {
    pub language: Option<Language>,
    pub children: Vec<Line>,
}

/// The whole help file: a sequence of blocks.
#[derive(Debug)]
pub struct HelpFile {
    pub children: Vec<Block>,
}

impl Line {
    /// Whether building from `n` succeeds: the kind must be `line`;
    /// malformed named children are skipped, the rest build as line
    /// children.
    pub open spec fn plan(n: CstNode) -> BuildPlan
        decreases n, 0int,
    {
        if n.kind@ != "line"@ {
            BuildPlan { result: Err(type_err(n, "line"@)), reports: Seq::empty() }
        } else {
            line_kids_plan(n.children@)
        }
    }

    /// The built value: the included children, in order.
    pub open spec fn matches(self, n: CstNode) -> bool
        decreases n, 0int,
    {
        matches_line_children(self.children@, n.children@)
    }
}

/// The plan of building a sequence of line children.
pub open spec fn line_kids_plan(kids: Seq<CstNode>) -> BuildPlan
    decreases kids, 3int,
{
    if kids.len() == 0 {
        BuildPlan { result: Ok(()), reports: Seq::empty() }
    } else {
        let pre = line_kids_plan(kids.drop_last());
        if pre.result is Err {
            pre
        } else {
            let c = kids.last();
            if !c.named {
                pre
            } else if c.error || c.missing {
                BuildPlan { result: Ok(()), reports: pre.reports.push(report_of(c)) }
            } else {
                let cb = LineChild::plan(c);
                BuildPlan { result: cb.result, reports: pre.reports + cb.reports }
            }
        }
    }
}

/// The built line children correspond one to one, in order, to the
/// included CST children.
pub open spec fn matches_line_children(bs: Seq<LineChild>, kids: Seq<CstNode>) -> bool
    decreases kids, 3int,
{
    if kids.len() == 0 {
        bs.len() == 0
    } else if !included(kids.last()) {
        matches_line_children(bs, kids.drop_last())
    } else {
        bs.len() > 0 && bs.last().matches(kids.last()) && matches_line_children(
            bs.drop_last(),
            kids.drop_last(),
        )
    }
}

impl LineChild {
    /// Whether building from `n` succeeds: the kind selects the
    /// alternative; an unknown kind is a type error.
    pub open spec fn plan(n: CstNode) -> BuildPlan
        decreases n, 1int,
    {
        if n.kind@ == "argument"@ {
            Argument::plan(n)
        } else if n.kind@ == "codeblock"@ {
            Codeblock::plan(n)
        } else if n.kind@ == "codespan"@ {
            Codespan::plan(n)
        } else if n.kind@ == "column_heading"@ {
            ColumnHeading::plan(n)
        } else if n.kind@ == "h1"@ {
            H1::plan(n)
        } else if n.kind@ == "h2"@ {
            H2::plan(n)
        } else if n.kind@ == "h3"@ {
            H3::plan(n)
        } else if n.kind@ == "keycode"@ {
            Keycode::plan(n)
        } else if n.kind@ == "optionlink"@ {
            Optionlink::plan(n)
        } else if n.kind@ == "tag"@ {
            Tag::plan(n)
        } else if n.kind@ == "taglink"@ {
            Taglink::plan(n)
        } else if n.kind@ == "url"@ {
            Url::plan(n)
        } else if n.kind@ == "word"@ {
            Word::plan(n)
        } else {
            BuildPlan {
                result: Err(
                    type_err(
                        n,
                        "argument or codeblock or codespan or column_heading or h1 or h2 or h3 or keycode or optionlink or tag or taglink or url or word"@,
                    ),
                ),
                reports: Seq::empty(),
            }
        }
    }

    /// The built value: the alternative chosen by the node's kind.
    pub open spec fn matches(self, n: CstNode) -> bool
        decreases n, 1int,
    {
        match self {
            LineChild::Argument(x) => n.kind@ == "argument"@ && x.matches(n),
            LineChild::Codeblock(x) => n.kind@ == "codeblock"@ && x.matches(n),
            LineChild::Codespan(x) => n.kind@ == "codespan"@ && x.matches(n),
            LineChild::ColumnHeading(x) => n.kind@ == "column_heading"@ && x.matches(n),
            LineChild::H1(x) => n.kind@ == "h1"@ && x.matches(n),
            LineChild::H2(x) => n.kind@ == "h2"@ && x.matches(n),
            LineChild::H3(x) => n.kind@ == "h3"@ && x.matches(n),
            LineChild::Keycode(x) => n.kind@ == "keycode"@ && x.matches(n),
            LineChild::Optionlink(x) => n.kind@ == "optionlink"@ && x.matches(n),
            LineChild::Tag(x) => n.kind@ == "tag"@ && x.matches(n),
            LineChild::Taglink(x) => n.kind@ == "taglink"@ && x.matches(n),
            LineChild::Url(x) => n.kind@ == "url"@ && x.matches(n),
            LineChild::Word(x) => n.kind@ == "word"@ && x.matches(n),
        }
    }
}

impl Codeblock {
    /// Whether building from `n` succeeds: the kind must be
    /// `codeblock`; a leading `language` child is optional, every other
    /// included child builds as a line, malformed named children are
    /// skipped.
    pub open spec fn plan(n: CstNode) -> BuildPlan
        decreases n, 0int,
    {
        if n.kind@ != "codeblock"@ {
            BuildPlan { result: Err(type_err(n, "codeblock"@)), reports: Seq::empty() }
        } else {
            cb_tail_plan(n.children@, true)
        }
    }

    /// The built value: the language from a leading `language` child if
    /// there is one, the included children as lines.
    pub open spec fn matches(self, n: CstNode) -> bool
        decreases n, 0int,
    {
        let kids = n.children@;
        let fi = first_included_idx(kids, 0);
        if fi < kids.len() && kids[fi].kind@ == "language"@ {
            &&& self.language is Some
            &&& self.language->0.matches(kids[fi])
            &&& matches_lines_after(self.children@, kids, fi + 1)
        } else {
            &&& self.language is None
            &&& matches_lines_after(self.children@, kids, 0)
        }
    }
}

/// The index of the first included child at or after `p`, or the length.
pub open spec fn first_included_idx(kids: Seq<CstNode>, p: int) -> int
    decreases kids.len() - p,
{
    if p < 0 {
        first_included_idx(kids, 0)
    } else if p >= kids.len() {
        kids.len() as int
    } else if included(kids[p]) {
        p
    } else {
        first_included_idx(kids, p + 1)
    }
}

pub proof fn lemma_first_included_idx(kids: Seq<CstNode>, p: int)
    requires
        0 <= p <= kids.len(),
    ensures
        p <= first_included_idx(kids, p) <= kids.len(),
        first_included_idx(kids, p) < kids.len() ==> included(
            kids[first_included_idx(kids, p)],
        ),
        forall|q: int| p <= q < first_included_idx(kids, p) ==> !included(#[trigger] kids[q]),
    decreases kids.len() - p,
{
    if p < kids.len() && !included(kids[p]) {
        lemma_first_included_idx(kids, p + 1);
    }
}

/// The plan of walking a code block's children: while `looking`, the
/// first included child may be a `language`; every other included child
/// builds as a line; malformed named children are skipped.
pub open spec fn cb_tail_plan(kids: Seq<CstNode>, looking: bool) -> BuildPlan
    decreases kids, 3int,
{
    if kids.len() == 0 {
        BuildPlan { result: Ok(()), reports: Seq::empty() }
    } else {
        let c = kids[0];
        let rest = kids.drop_first();
        if !c.named {
            cb_tail_plan(rest, looking)
        } else if c.error || c.missing {
            let r = cb_tail_plan(rest, looking);
            BuildPlan { result: r.result, reports: seq![report_of(c)] + r.reports }
        } else if looking && c.kind@ == "language"@ {
            cb_tail_plan(rest, false)
        } else {
            let lb = Line::plan(c);
            if lb.result is Err {
                lb
            } else {
                let r = cb_tail_plan(rest, false);
                BuildPlan { result: r.result, reports: lb.reports + r.reports }
            }
        }
    }
}

/// The built lines correspond one to one, in order, to the included CST
/// children whose index is at least `from`.
pub open spec fn matches_lines_after(bs: Seq<Line>, kids: Seq<CstNode>, from: int) -> bool
    decreases kids, 3int,
{
    if kids.len() == 0 || kids.len() <= from {
        bs.len() == 0
    } else if !included(kids.last()) {
        matches_lines_after(bs, kids.drop_last(), from)
    } else {
        bs.len() > 0 && bs.last().matches(kids.last()) && matches_lines_after(
            bs.drop_last(),
            kids.drop_last(),
            from,
        )
    }
}

impl LineLi {
    /// Whether building from `n` succeeds: the kind must be `line_li`;
    /// malformed named children are skipped, the rest build as list-item
    /// children.
    pub open spec fn plan(n: CstNode) -> BuildPlan
        decreases n, 0int,
    {
        if n.kind@ != "line_li"@ {
            BuildPlan { result: Err(type_err(n, "line_li"@)), reports: Seq::empty() }
        } else {
            lineli_kids_plan(n.children@)
        }
    }

    /// The built value: the included children, in order.
    pub open spec fn matches(self, n: CstNode) -> bool
        decreases n, 0int,
    {
        matches_lineli_children(self.children@, n.children@)
    }
}

/// The plan of building a sequence of list-item children.
pub open spec fn lineli_kids_plan(kids: Seq<CstNode>) -> BuildPlan
    decreases kids, 3int,
{
    if kids.len() == 0 {
        BuildPlan { result: Ok(()), reports: Seq::empty() }
    } else {
        let pre = lineli_kids_plan(kids.drop_last());
        if pre.result is Err {
            pre
        } else {
            let c = kids.last();
            if !c.named {
                pre
            } else if c.error || c.missing {
                BuildPlan { result: Ok(()), reports: pre.reports.push(report_of(c)) }
            } else {
                let cb = LineLiChild::plan(c);
                BuildPlan { result: cb.result, reports: pre.reports + cb.reports }
            }
        }
    }
}

/// The built list-item children correspond one to one, in order, to the
/// included CST children.
pub open spec fn matches_lineli_children(bs: Seq<LineLiChild>, kids: Seq<CstNode>) -> bool
    decreases kids, 3int,
{
    if kids.len() == 0 {
        bs.len() == 0
    } else if !included(kids.last()) {
        matches_lineli_children(bs, kids.drop_last())
    } else {
        bs.len() > 0 && bs.last().matches(kids.last()) && matches_lineli_children(
            bs.drop_last(),
            kids.drop_last(),
        )
    }
}

impl LineLiChild {
    /// Whether building from `n` succeeds: the kind selects the
    /// alternative; an unknown kind is a type error.
    pub open spec fn plan(n: CstNode) -> BuildPlan
        decreases n, 1int,
    {
        if n.kind@ == "codeblock"@ {
            Codeblock::plan(n)
        } else if n.kind@ == "line"@ {
            Line::plan(n)
        } else {
            BuildPlan {
                result: Err(type_err(n, "codeblock or line"@)),
                reports: Seq::empty(),
            }
        }
    }

    /// The built value: the alternative chosen by the node's kind.
    pub open spec fn matches(self, n: CstNode) -> bool
        decreases n, 1int,
    {
        match self {
            LineLiChild::Codeblock(x) => n.kind@ == "codeblock"@ && x.matches(n),
            LineLiChild::Line(x) => n.kind@ == "line"@ && x.matches(n),
        }
    }
}

impl Block {
    /// Whether building from `n` succeeds: the kind must be `block`;
    /// malformed named children are skipped, the rest build as block
    /// children.
    pub open spec fn plan(n: CstNode) -> BuildPlan
        decreases n, 0int,
    {
        if n.kind@ != "block"@ {
            BuildPlan { result: Err(type_err(n, "block"@)), reports: Seq::empty() }
        } else {
            block_kids_plan(n.children@)
        }
    }

    /// The built value: the included children, in order.
    pub open spec fn matches(self, n: CstNode) -> bool
        decreases n, 0int,
    {
        matches_block_children(self.children@, n.children@)
    }
}

/// The plan of building a sequence of block children.
pub open spec fn block_kids_plan(kids: Seq<CstNode>) -> BuildPlan
    decreases kids, 3int,
{
    if kids.len() == 0 {
        BuildPlan { result: Ok(()), reports: Seq::empty() }
    } else {
        let pre = block_kids_plan(kids.drop_last());
        if pre.result is Err {
            pre
        } else {
            let c = kids.last();
            if !c.named {
                pre
            } else if c.error || c.missing {
                BuildPlan { result: Ok(()), reports: pre.reports.push(report_of(c)) }
            } else {
                let cb = BlockChild::plan(c);
                BuildPlan { result: cb.result, reports: pre.reports + cb.reports }
            }
        }
    }
}

/// The built block children correspond one to one, in order, to the
/// included CST children.
pub open spec fn matches_block_children(bs: Seq<BlockChild>, kids: Seq<CstNode>) -> bool
    decreases kids, 3int,
{
    if kids.len() == 0 {
        bs.len() == 0
    } else if !included(kids.last()) {
        matches_block_children(bs, kids.drop_last())
    } else {
        bs.len() > 0 && bs.last().matches(kids.last()) && matches_block_children(
            bs.drop_last(),
            kids.drop_last(),
        )
    }
}

impl BlockChild {
    /// Whether building from `n` succeeds: the kind selects the
    /// alternative; an unknown kind is a type error.
    pub open spec fn plan(n: CstNode) -> BuildPlan
        decreases n, 1int,
    {
        if n.kind@ == "line"@ {
            Line::plan(n)
        } else if n.kind@ == "line_li"@ {
            LineLi::plan(n)
        } else {
            BuildPlan { result: Err(type_err(n, "line or line_li"@)), reports: Seq::empty() }
        }
    }

    /// The built value: the alternative chosen by the node's kind.
    pub open spec fn matches(self, n: CstNode) -> bool
        decreases n, 1int,
    {
        match self {
            BlockChild::Line(x) => n.kind@ == "line"@ && x.matches(n),
            BlockChild::LineLi(x) => n.kind@ == "line_li"@ && x.matches(n),
        }
    }
}

impl HelpFile {
    /// Whether building from `n` succeeds: the kind must be
    /// `help_file`; malformed named children are skipped, the rest build
    /// as blocks.
    pub open spec fn plan(n: CstNode) -> BuildPlan
        decreases n, 0int,
    {
        if n.kind@ != "help_file"@ {
            BuildPlan { result: Err(type_err(n, "help_file"@)), reports: Seq::empty() }
        } else {
            hf_kids_plan(n.children@)
        }
    }

    /// The built value: the included children, in order.
    pub open spec fn matches(self, n: CstNode) -> bool
        decreases n, 0int,
    {
        matches_blocks(self.children@, n.children@)
    }
}

/// The plan of building a sequence of blocks.
pub open spec fn hf_kids_plan(kids: Seq<CstNode>) -> BuildPlan
    decreases kids, 3int,
{
    if kids.len() == 0 {
        BuildPlan { result: Ok(()), reports: Seq::empty() }
    } else {
        let pre = hf_kids_plan(kids.drop_last());
        if pre.result is Err {
            pre
        } else {
            let c = kids.last();
            if !c.named {
                pre
            } else if c.error || c.missing {
                BuildPlan { result: Ok(()), reports: pre.reports.push(report_of(c)) }
            } else {
                let cb = Block::plan(c);
                BuildPlan { result: cb.result, reports: pre.reports + cb.reports }
            }
        }
    }
}

/// The built blocks correspond one to one, in order, to the included CST
/// children.
pub open spec fn matches_blocks(bs: Seq<Block>, kids: Seq<CstNode>) -> bool
    decreases kids, 3int,
{
    if kids.len() == 0 {
        bs.len() == 0
    } else if !included(kids.last()) {
        matches_blocks(bs, kids.drop_last())
    } else {
        bs.len() > 0 && bs.last().matches(kids.last()) && matches_blocks(
            bs.drop_last(),
            kids.drop_last(),
        )
    }
}


proof fn lemma_hf_plan_stable(kids: Seq<CstNode>, j: int)
    requires
        0 <= j <= kids.len(),
        hf_kids_plan(kids.take(j)).result is Err,
    ensures
        hf_kids_plan(kids) == hf_kids_plan(kids.take(j)),
    decreases kids.len() - j,
{
    if j == kids.len() {
        assert(kids.take(j) =~= kids);
    } else {
        assert(kids.take(j + 1).drop_last() =~= kids.take(j));
        lemma_hf_plan_stable(kids, j + 1);
    }
}

impl HelpFile {
    /// Builds a `HelpFile` from a CST node of kind `help_file`.
    pub fn from_cursor(n: &CstNode, diag: &mut Vec<Report>) -> (r: Result<HelpFile, FromCursorError>)
        ensures
            res_ok(r) == Self::plan(*n).result,
            r is Ok ==> r->Ok_0.matches(*n),
            final(diag)@ == old(diag)@ + Self::plan(*n).reports,
        decreases *n, 0int,
    {
        if !str_eq(n.kind.as_str(), "help_file") {
            proof {
                assert(diag@ =~= old(diag)@ + Seq::<Report>::empty());
            }
            return Err(type_error(n, "help_file"));
        }
        let m = n.children.len();
        let mut i: usize = 0;
        let mut acc: Vec<Block> = Vec::new();
        proof {
            assert(n.children@.take(0) =~= Seq::<CstNode>::empty());
            assert(diag@ =~= old(diag)@ + hf_kids_plan(n.children@.take(0)).reports);
        }
        while i < m
            invariant
                m == n.children@.len(),
                i <= m,
                n.kind@ == "help_file"@,
                hf_kids_plan(n.children@.take(i as int)).result == Ok::<(), ErrModel>(()),
                diag@ == old(diag)@ + hf_kids_plan(n.children@.take(i as int)).reports,
                matches_blocks(acc@, n.children@.take(i as int)),
            decreases m - i,
    {
            proof {
                assert(n.children@.take(i as int + 1).drop_last() =~= n.children@.take(i as int));
                assert(n.children@.take(i as int + 1).last() == n.children@[i as int]);
            }
            let c = &n.children[i];
            if c.named {
                if c.error || c.missing {
                    diag.push(
                        Report { start: c.start, kind: c.kind.clone(), text: c.text.clone() },
                    );
                    proof {
                        assert(diag@ =~= old(diag)@ + hf_kids_plan(
                            n.children@.take(i as int + 1),
                        ).reports);
                    }
                } else {
                    proof {
                        assert(decreases_to!(*n => n.children));
                        assert(decreases_to!(n.children => n.children@));
                        assert(decreases_to!(n.children@ => n.children@[i as int]));
                    }
                    match Block::from_cursor(c, diag) {
                        Ok(x) => {
                            let ghost prev_acc = acc@;
                            acc.push(x);
                            proof {
                                assert(acc@.drop_last() =~= prev_acc);
                                assert(acc@.last() == x);
                                assert(diag@ =~= old(diag)@ + hf_kids_plan(
                                    n.children@.take(i as int + 1),
                                ).reports);
                            }
                        },
                        Err(e) => {
                            proof {
                                lemma_hf_plan_stable(n.children@, i as int + 1);
                                assert(diag@ =~= old(diag)@ + hf_kids_plan(
                                    n.children@.take(i as int + 1),
                                ).reports);
                            }
                            return Err(e);
                        },
                    }
                }
            }
            i += 1;
        }
        proof {
            assert(n.children@.take(m as int) =~= n.children@);
        }
        Ok(HelpFile { children: acc })
    }
}

proof fn lemma_block_plan_stable(kids: Seq<CstNode>, j: int)
    requires
        0 <= j <= kids.len(),
        block_kids_plan(kids.take(j)).result is Err,
    ensures
        block_kids_plan(kids) == block_kids_plan(kids.take(j)),
    decreases kids.len() - j,
{
    if j == kids.len() {
        assert(kids.take(j) =~= kids);
    } else {
        assert(kids.take(j + 1).drop_last() =~= kids.take(j));
        lemma_block_plan_stable(kids, j + 1);
    }
}

impl Block {
    /// Builds a `Block` from a CST node of kind `block`.
    pub fn from_cursor(n: &CstNode, diag: &mut Vec<Report>) -> (r: Result<Block, FromCursorError>)
        ensures
            res_ok(r) == Self::plan(*n).result,
            r is Ok ==> r->Ok_0.matches(*n),
            final(diag)@ == old(diag)@ + Self::plan(*n).reports,
        decreases *n, 0int,
    {
        if !str_eq(n.kind.as_str(), "block") {
            proof {
                assert(diag@ =~= old(diag)@ + Seq::<Report>::empty());
            }
            return Err(type_error(n, "block"));
        }
        let m = n.children.len();
        let mut i: usize = 0;
        let mut acc: Vec<BlockChild> = Vec::new();
        proof {
            assert(n.children@.take(0) =~= Seq::<CstNode>::empty());
            assert(diag@ =~= old(diag)@ + block_kids_plan(n.children@.take(0)).reports);
        }
        while i < m
            invariant
                m == n.children@.len(),
                i <= m,
                n.kind@ == "block"@,
                block_kids_plan(n.children@.take(i as int)).result == Ok::<(), ErrModel>(()),
                diag@ == old(diag)@ + block_kids_plan(n.children@.take(i as int)).reports,
                matches_block_children(acc@, n.children@.take(i as int)),
            decreases m - i,
    {
            proof {
                assert(n.children@.take(i as int + 1).drop_last() =~= n.children@.take(i as int));
                assert(n.children@.take(i as int + 1).last() == n.children@[i as int]);
            }
            let c = &n.children[i];
            if c.named {
                if c.error || c.missing {
                    diag.push(
                        Report { start: c.start, kind: c.kind.clone(), text: c.text.clone() },
                    );
                    proof {
                        assert(diag@ =~= old(diag)@ + block_kids_plan(
                            n.children@.take(i as int + 1),
                        ).reports);
                    }
                } else {
                    proof {
                        assert(decreases_to!(*n => n.children));
                        assert(decreases_to!(n.children => n.children@));
                        assert(decreases_to!(n.children@ => n.children@[i as int]));
                    }
                    match BlockChild::from_cursor(c, diag) {
                        Ok(x) => {
                            let ghost prev_acc = acc@;
                            acc.push(x);
                            proof {
                                assert(acc@.drop_last() =~= prev_acc);
                                assert(acc@.last() == x);
                                assert(diag@ =~= old(diag)@ + block_kids_plan(
                                    n.children@.take(i as int + 1),
                                ).reports);
                            }
                        },
                        Err(e) => {
                            proof {
                                lemma_block_plan_stable(n.children@, i as int + 1);
                                assert(diag@ =~= old(diag)@ + block_kids_plan(
                                    n.children@.take(i as int + 1),
                                ).reports);
                            }
                            return Err(e);
                        },
                    }
                }
            }
            i += 1;
        }
        proof {
            assert(n.children@.take(m as int) =~= n.children@);
        }
        Ok(Block { children: acc })
    }
}

proof fn lemma_line_plan_stable(kids: Seq<CstNode>, j: int)
    requires
        0 <= j <= kids.len(),
        line_kids_plan(kids.take(j)).result is Err,
    ensures
        line_kids_plan(kids) == line_kids_plan(kids.take(j)),
    decreases kids.len() - j,
{
    if j == kids.len() {
        assert(kids.take(j) =~= kids);
    } else {
        assert(kids.take(j + 1).drop_last() =~= kids.take(j));
        lemma_line_plan_stable(kids, j + 1);
    }
}

impl Line {
    /// Builds a `Line` from a CST node of kind `line`.
    pub fn from_cursor(n: &CstNode, diag: &mut Vec<Report>) -> (r: Result<Line, FromCursorError>)
        ensures
            res_ok(r) == Self::plan(*n).result,
            r is Ok ==> r->Ok_0.matches(*n),
            final(diag)@ == old(diag)@ + Self::plan(*n).reports,
        decreases *n, 0int,
    {
        if !str_eq(n.kind.as_str(), "line") {
            proof {
                assert(diag@ =~= old(diag)@ + Seq::<Report>::empty());
            }
            return Err(type_error(n, "line"));
        }
        let m = n.children.len();
        let mut i: usize = 0;
        let mut acc: Vec<LineChild> = Vec::new();
        proof {
            assert(n.children@.take(0) =~= Seq::<CstNode>::empty());
            assert(diag@ =~= old(diag)@ + line_kids_plan(n.children@.take(0)).reports);
        }
        while i < m
            invariant
                m == n.children@.len(),
                i <= m,
                n.kind@ == "line"@,
                line_kids_plan(n.children@.take(i as int)).result == Ok::<(), ErrModel>(()),
                diag@ == old(diag)@ + line_kids_plan(n.children@.take(i as int)).reports,
                matches_line_children(acc@, n.children@.take(i as int)),
            decreases m - i,
    {
            proof {
                assert(n.children@.take(i as int + 1).drop_last() =~= n.children@.take(i as int));
                assert(n.children@.take(i as int + 1).last() == n.children@[i as int]);
            }
            let c = &n.children[i];
            if c.named {
                if c.error || c.missing {
                    diag.push(
                        Report { start: c.start, kind: c.kind.clone(), text: c.text.clone() },
                    );
                    proof {
                        assert(diag@ =~= old(diag)@ + line_kids_plan(
                            n.children@.take(i as int + 1),
                        ).reports);
                    }
                } else {
                    proof {
                        assert(decreases_to!(*n => n.children));
                        assert(decreases_to!(n.children => n.children@));
                        assert(decreases_to!(n.children@ => n.children@[i as int]));
                    }
                    match LineChild::from_cursor(c, diag) {
                        Ok(x) => {
                            let ghost prev_acc = acc@;
                            acc.push(x);
                            proof {
                                assert(acc@.drop_last() =~= prev_acc);
                                assert(acc@.last() == x);
                                assert(diag@ =~= old(diag)@ + line_kids_plan(
                                    n.children@.take(i as int + 1),
                                ).reports);
                            }
                        },
                        Err(e) => {
                            proof {
                                lemma_line_plan_stable(n.children@, i as int + 1);
                                assert(diag@ =~= old(diag)@ + line_kids_plan(
                                    n.children@.take(i as int + 1),
                                ).reports);
                            }
                            return Err(e);
                        },
                    }
                }
            }
            i += 1;
        }
        proof {
            assert(n.children@.take(m as int) =~= n.children@);
        }
        Ok(Line { children: acc })
    }
}

proof fn lemma_lineli_plan_stable(kids: Seq<CstNode>, j: int)
    requires
        0 <= j <= kids.len(),
        lineli_kids_plan(kids.take(j)).result is Err,
    ensures
        lineli_kids_plan(kids) == lineli_kids_plan(kids.take(j)),
    decreases kids.len() - j,
{
    if j == kids.len() {
        assert(kids.take(j) =~= kids);
    } else {
        assert(kids.take(j + 1).drop_last() =~= kids.take(j));
        lemma_lineli_plan_stable(kids, j + 1);
    }
}

impl LineLi {
    /// Builds a `LineLi` from a CST node of kind `line_li`.
    pub fn from_cursor(n: &CstNode, diag: &mut Vec<Report>) -> (r: Result<LineLi, FromCursorError>)
        ensures
            res_ok(r) == Self::plan(*n).result,
            r is Ok ==> r->Ok_0.matches(*n),
            final(diag)@ == old(diag)@ + Self::plan(*n).reports,
        decreases *n, 0int,
    {
        if !str_eq(n.kind.as_str(), "line_li") {
            proof {
                assert(diag@ =~= old(diag)@ + Seq::<Report>::empty());
            }
            return Err(type_error(n, "line_li"));
        }
        let m = n.children.len();
        let mut i: usize = 0;
        let mut acc: Vec<LineLiChild> = Vec::new();
        proof {
            assert(n.children@.take(0) =~= Seq::<CstNode>::empty());
            assert(diag@ =~= old(diag)@ + lineli_kids_plan(n.children@.take(0)).reports);
        }
        while i < m
            invariant
                m == n.children@.len(),
                i <= m,
                n.kind@ == "line_li"@,
                lineli_kids_plan(n.children@.take(i as int)).result == Ok::<(), ErrModel>(()),
                diag@ == old(diag)@ + lineli_kids_plan(n.children@.take(i as int)).reports,
                matches_lineli_children(acc@, n.children@.take(i as int)),
            decreases m - i,
    {
            proof {
                assert(n.children@.take(i as int + 1).drop_last() =~= n.children@.take(i as int));
                assert(n.children@.take(i as int + 1).last() == n.children@[i as int]);
            }
            let c = &n.children[i];
            if c.named {
                if c.error || c.missing {
                    diag.push(
                        Report { start: c.start, kind: c.kind.clone(), text: c.text.clone() },
                    );
                    proof {
                        assert(diag@ =~= old(diag)@ + lineli_kids_plan(
                            n.children@.take(i as int + 1),
                        ).reports);
                    }
                } else {
                    proof {
                        assert(decreases_to!(*n => n.children));
                        assert(decreases_to!(n.children => n.children@));
                        assert(decreases_to!(n.children@ => n.children@[i as int]));
                    }
                    match LineLiChild::from_cursor(c, diag) {
                        Ok(x) => {
                            let ghost prev_acc = acc@;
                            acc.push(x);
                            proof {
                                assert(acc@.drop_last() =~= prev_acc);
                                assert(acc@.last() == x);
                                assert(diag@ =~= old(diag)@ + lineli_kids_plan(
                                    n.children@.take(i as int + 1),
                                ).reports);
                            }
                        },
                        Err(e) => {
                            proof {
                                lemma_lineli_plan_stable(n.children@, i as int + 1);
                                assert(diag@ =~= old(diag)@ + lineli_kids_plan(
                                    n.children@.take(i as int + 1),
                                ).reports);
                            }
                            return Err(e);
                        },
                    }
                }
            }
            i += 1;
        }
        proof {
            assert(n.children@.take(m as int) =~= n.children@);
        }
        Ok(LineLi { children: acc })
    }
}


impl BlockChild {
    /// Builds a block child by dispatching on the node's kind.
    pub fn from_cursor(n: &CstNode, diag: &mut Vec<Report>) -> (r: Result<
        BlockChild,
        FromCursorError,
    >)
        ensures
            res_ok(r) == Self::plan(*n).result,
            r is Ok ==> r->Ok_0.matches(*n),
            final(diag)@ == old(diag)@ + Self::plan(*n).reports,
        decreases *n, 1int,
    {
        let k = n.kind.as_str();
        if str_eq(k, "line") {
            match Line::from_cursor(n, diag) {
                Ok(x) => Ok(BlockChild::Line(x)),
                Err(e) => Err(e),
            }
        } else if str_eq(k, "line_li") {
            match LineLi::from_cursor(n, diag) {
                Ok(x) => Ok(BlockChild::LineLi(x)),
                Err(e) => Err(e),
            }
        } else {
            proof {
                assert(diag@ =~= old(diag)@ + Self::plan(*n).reports);
            }
            Err(type_error(n, "line or line_li"))
        }
    }
}

impl LineLiChild {
    /// Builds a list-item child by dispatching on the node's kind.
    pub fn from_cursor(n: &CstNode, diag: &mut Vec<Report>) -> (r: Result<
        LineLiChild,
        FromCursorError,
    >)
        ensures
            res_ok(r) == Self::plan(*n).result,
            r is Ok ==> r->Ok_0.matches(*n),
            final(diag)@ == old(diag)@ + Self::plan(*n).reports,
        decreases *n, 1int,
    {
        let k = n.kind.as_str();
        if str_eq(k, "codeblock") {
            match Codeblock::from_cursor(n, diag) {
                Ok(x) => Ok(LineLiChild::Codeblock(x)),
                Err(e) => Err(e),
            }
        } else if str_eq(k, "line") {
            match Line::from_cursor(n, diag) {
                Ok(x) => Ok(LineLiChild::Line(x)),
                Err(e) => Err(e),
            }
        } else {
            proof {
                assert(diag@ =~= old(diag)@ + Self::plan(*n).reports);
            }
            Err(type_error(n, "codeblock or line"))
        }
    }
}

impl LineChild {
    /// Builds a line child by dispatching on the node's kind.
    pub fn from_cursor(n: &CstNode, diag: &mut Vec<Report>) -> (r: Result<
        LineChild,
        FromCursorError,
    >)
        ensures
            res_ok(r) == Self::plan(*n).result,
            r is Ok ==> r->Ok_0.matches(*n),
            final(diag)@ == old(diag)@ + Self::plan(*n).reports,
        decreases *n, 1int,
    {
        let k = n.kind.as_str();
        if str_eq(k, "argument") {
            let r = match Argument::from_cursor(n) {
                Ok(x) => Ok(LineChild::Argument(x)),
                Err(e) => Err(e),
            };
            proof {
                assert(diag@ =~= old(diag)@ + Self::plan(*n).reports);
            }
            r
        } else if str_eq(k, "codeblock") {
            match Codeblock::from_cursor(n, diag) {
                Ok(x) => Ok(LineChild::Codeblock(x)),
                Err(e) => Err(e),
            }
        } else if str_eq(k, "codespan") {
            let r = match Codespan::from_cursor(n) {
                Ok(x) => Ok(LineChild::Codespan(x)),
                Err(e) => Err(e),
            };
            proof {
                assert(diag@ =~= old(diag)@ + Self::plan(*n).reports);
            }
            r
        } else if str_eq(k, "column_heading") {
            match ColumnHeading::from_cursor(n, diag) {
                Ok(x) => Ok(LineChild::ColumnHeading(x)),
                Err(e) => Err(e),
            }
        } else if str_eq(k, "h1") {
            match H1::from_cursor(n, diag) {
                Ok(x) => Ok(LineChild::H1(x)),
                Err(e) => Err(e),
            }
        } else if str_eq(k, "h2") {
            match H2::from_cursor(n, diag) {
                Ok(x) => Ok(LineChild::H2(x)),
                Err(e) => Err(e),
            }
        } else if str_eq(k, "h3") {
            match H3::from_cursor(n, diag) {
                Ok(x) => Ok(LineChild::H3(x)),
                Err(e) => Err(e),
            }
        } else if str_eq(k, "keycode") {
            let r = match Keycode::from_cursor(n) {
                Ok(x) => Ok(LineChild::Keycode(x)),
                Err(e) => Err(e),
            };
            proof {
                assert(diag@ =~= old(diag)@ + Self::plan(*n).reports);
            }
            r
        } else if str_eq(k, "optionlink") {
            let r = match Optionlink::from_cursor(n) {
                Ok(x) => Ok(LineChild::Optionlink(x)),
                Err(e) => Err(e),
            };
            proof {
                assert(diag@ =~= old(diag)@ + Self::plan(*n).reports);
            }
            r
        } else if str_eq(k, "tag") {
            let r = match Tag::from_cursor(n) {
                Ok(x) => Ok(LineChild::Tag(x)),
                Err(e) => Err(e),
            };
            proof {
                assert(diag@ =~= old(diag)@ + Self::plan(*n).reports);
            }
            r
        } else if str_eq(k, "taglink") {
            let r = match Taglink::from_cursor(n) {
                Ok(x) => Ok(LineChild::Taglink(x)),
                Err(e) => Err(e),
            };
            proof {
                assert(diag@ =~= old(diag)@ + Self::plan(*n).reports);
            }
            r
        } else if str_eq(k, "url") {
            let r = match Url::from_cursor(n) {
                Ok(x) => Ok(LineChild::Url(x)),
                Err(e) => Err(e),
            };
            proof {
                assert(diag@ =~= old(diag)@ + Self::plan(*n).reports);
            }
            r
        } else if str_eq(k, "word") {
            let r = match Word::from_cursor(n) {
                Ok(x) => Ok(LineChild::Word(x)),
                Err(e) => Err(e),
            };
            proof {
                assert(diag@ =~= old(diag)@ + Self::plan(*n).reports);
            }
            r
        } else {
            proof {
                assert(diag@ =~= old(diag)@ + Self::plan(*n).reports);
            }
            Err(
                type_error(
                    n,
                    "argument or codeblock or codespan or column_heading or h1 or h2 or h3 or keycode or optionlink or tag or taglink or url or word",
                ),
            )
        }
    }
}

impl Codeblock {
    /// Builds a `Codeblock` from a CST node of kind `codeblock`.
    pub fn from_cursor(n: &CstNode, diag: &mut Vec<Report>) -> (r: Result<
        Codeblock,
        FromCursorError,
    >)
        ensures
            res_ok(r) == Self::plan(*n).result,
            r is Ok ==> r->Ok_0.matches(*n),
            final(diag)@ == old(diag)@ + Self::plan(*n).reports,
        decreases *n, 0int,
    {
        if !str_eq(n.kind.as_str(), "codeblock") {
            proof {
                assert(diag@ =~= old(diag)@ + Seq::<Report>::empty());
            }
            return Err(type_error(n, "codeblock"));
        }
        let ghost kids = n.children@;
        let ghost fi = first_included_idx(kids, 0);
        let m = n.children.len();
        let mut i: usize = 0;
        let mut looking = true;
        let mut language: Option<Language> = None;
        let mut acc: Vec<Line> = Vec::new();
        let ghost mut dr = Seq::<Report>::empty();
        proof {
            lemma_first_included_idx(kids, 0);
            assert(kids.skip(0) =~= kids);
            assert(diag@ =~= old(diag)@ + dr);
            assert(kids.take(0) =~= Seq::<CstNode>::empty());
        }
        while i < m
            invariant
                kids == n.children@,
                m == kids.len(),
                i <= m,
                n.kind@ == "codeblock"@,
                fi == first_included_idx(kids, 0),
                0 <= fi <= m,
                fi < m ==> included(kids[fi]),
                forall|q: int| 0 <= q < fi ==> !included(#[trigger] kids[q]),
                cb_tail_plan(kids, true).result == cb_tail_plan(
                    kids.skip(i as int),
                    looking,
                ).result,
                cb_tail_plan(kids, true).reports == dr + cb_tail_plan(
                    kids.skip(i as int),
                    looking,
                ).reports,
                diag@ == old(diag)@ + dr,
                looking <==> i <= fi,
                looking ==> language is None && acc@.len() == 0,
                looking ==> matches_lines_after(acc@, kids.take(i as int), 0),
                !looking && kids[fi].kind@ == "language"@ ==> language is Some
                    && language->0.matches(kids[fi]) && matches_lines_after(
                    acc@,
                    kids.take(i as int),
                    fi + 1,
                ),
                !looking && kids[fi].kind@ != "language"@ ==> language is None
                    && matches_lines_after(acc@, kids.take(i as int), 0),
            decreases m - i,
        {
            proof {
                assert(kids.skip(i as int)[0] == kids[i as int]);
                assert(kids.skip(i as int).drop_first() =~= kids.skip(i as int + 1));
                assert(kids.take(i as int + 1).drop_last() =~= kids.take(i as int));
                assert(kids.take(i as int + 1).last() == kids[i as int]);
            }
            let c = &n.children[i];
            if !c.named {
                proof {
                    if i < fi {
                    } else if i == fi && fi < m {
                        assert(included(kids[fi]));
                        assert(false);
                    }
                }
            } else if c.error || c.missing {
                diag.push(
                    Report { start: c.start, kind: c.kind.clone(), text: c.text.clone() },
                );
                proof {
                    dr = dr.push(report_of(kids[i as int]));
                    assert(diag@ =~= old(diag)@ + dr);
                    assert(dr + (seq![report_of(kids[i as int])] + cb_tail_plan(
                        kids.skip(i as int + 1),
                        looking,
                    ).reports) =~= dr.push(report_of(kids[i as int])) + cb_tail_plan(
                        kids.skip(i as int + 1),
                        looking,
                    ).reports);
                }
            } else {
                proof {
                    assert(i >= fi);
                    assert(decreases_to!(*n => n.children));
                    assert(decreases_to!(n.children => n.children@));
                    assert(decreases_to!(n.children@ => n.children@[i as int]));
                }
                if looking {
                    proof {
                        assert(i == fi);
                    }
                    if str_eq(c.kind.as_str(), "language") {
                        match Language::from_cursor(c) {
                            Ok(l) => {
                                language = Some(l);
                            },
                            Err(e) => {
                                proof {
                                    assert(false);
                                }
                                return Err(e);
                            },
                        }
                        looking = false;
                        proof {
                            assert(kids.take(i as int + 1).len() <= fi + 1);
                            assert(matches_lines_after(acc@, kids.take(i as int + 1), fi + 1));
                        }
                    } else {
                        match Line::from_cursor(c, diag) {
                            Ok(x) => {
                                let ghost prev_acc = acc@;
                                let ghost prev_dr = dr;
                                acc.push(x);
                                proof {
                                    assert(acc@.drop_last() =~= prev_acc);
                                    assert(acc@.last() == x);
                                    dr = dr + Line::plan(kids[i as int]).reports;
                                    assert(diag@ =~= old(diag)@ + dr);
                                    assert(prev_dr + (Line::plan(kids[i as int]).reports
                                        + cb_tail_plan(kids.skip(i as int + 1), false).reports)
                                        =~= dr + cb_tail_plan(kids.skip(i as int + 1), false).reports);
                                }
                            },
                            Err(e) => {
                                proof {
                                    let ghost prev_dr = dr;
                                    dr = dr + Line::plan(kids[i as int]).reports;
                                    assert(diag@ =~= old(diag)@ + dr);
                                }
                                return Err(e);
                            },
                        }
                        looking = false;
                    }
                } else {
                    match Line::from_cursor(c, diag) {
                        Ok(x) => {
                            let ghost prev_acc = acc@;
                            acc.push(x);
                            proof {
                                assert(acc@.drop_last() =~= prev_acc);
                                assert(acc@.last() == x);
                                dr = dr + Line::plan(kids[i as int]).reports;
                                assert(diag@ =~= old(diag)@ + dr);
                            }
                        },
                        Err(e) => {
                            proof {
                                dr = dr + Line::plan(kids[i as int]).reports;
                                assert(diag@ =~= old(diag)@ + dr);
                            }
                            return Err(e);
                        },
                    }
                }
            }
            i += 1;
        }
        proof {
            assert(kids.skip(m as int) =~= Seq::<CstNode>::empty());
            assert(kids.take(m as int) =~= kids);
        }
        Ok(Codeblock { language, children: acc })
    }
}

} // verus!
