//! A recursive-descent parser for JSON-like text that keeps the line and
//! column of every object, array, property and literal it builds.
//!
//! `ast` holds the tree and the error type, `grammar` the grammar as spec
//! functions over the decoded text, `cursor` the scanning state and its
//! primitive steps, and `parser` one function per production, each proved
//! to compute what the grammar says. `render` writes a tree out as text,
//! `lemmas` and `shape` state and prove laws of the grammar; `shape` erases
//! spans to compare the structure of trees.
//!
//! The grammar, as this library reads it:
//! - whitespace is spaces and newlines only;
//! - a string is the raw text between two quotes: a backslash is kept as it
//!   stands and escapes nothing;
//! - a number is a run of ASCII digits that fits in an `i64`, with no sign,
//!   fraction or exponent;
//! - `true`, `false` and `null` are the only bare words. Any other word is an
//!   `UnexpectedCharacter` error: at its first character that leaves the
//!   keyword its first letter picks, at the letter that follows a whole
//!   keyword (`truex`), or at its first letter if that picks no keyword;
//! - the comma between entries of an object or an array may be left out;
//! - objects and arrays nest at most `MAX_DEPTH` deep;
//! - a document is any number of values, whitespace between them.
//!
//! Every position is a 1-based line and column; a newline ends a line.
use vstd::prelude::*;

pub mod ast;
pub mod cursor;
pub mod grammar;
pub mod lemmas;
pub mod parser;
pub mod render;
pub mod shape;

pub use ast::{
    Array, Expected, Literal, LiteralValue, Node, Object, Point, Property, PropertyValue, Span,
    SyntaxError,
};
pub use cursor::{CharClass, AST};
pub use grammar::MAX_DEPTH;
pub use parser::parse;

verus! {

} // verus!
