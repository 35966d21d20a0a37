//! Conversion of vimdoc help files into HTML and structural debug dumps.
//!
//! The library works on a concrete syntax tree (CST) supplied by the caller:
//! a tree of [`cst::CstNode`] values carrying a kind tag, named/error/missing
//! flags, positions and raw text. From a CST it can build a validated,
//! strongly typed abstract syntax tree ([`types`]) or render output by
//! walking the tree with pluggable rules ([`visit`], [`convert`]).

pub mod convert;
pub mod cst;
pub mod laws;
pub mod types;
pub mod utils;
pub mod visit;

pub use convert::Converter;
pub use convert::ConverterOpt;
pub use convert::ConverterState;
pub use convert::DebugString;
pub use convert::HtmlString;
pub use cst::CstNode;
pub use cst::NodeType;
pub use cst::Point;
pub use visit::Context;
pub use visit::Joiner;
pub use visit::StringJoiner;
pub use visit::Visitor;
