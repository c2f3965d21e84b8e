use vstd::prelude::*;

use crate::grammar::{Atom, Lit, Member, ParseError, Val};

verus! {

broadcast use vstd::std_specs::vec::group_vec_axioms, vstd::seq::group_seq_axioms;

/// A 1-based source position.
#[derive(Clone, Copy, Debug, PartialEq, Eq, Structural)]
pub struct Point {
    pub line: u64,
    pub column: u64,
}

/// A half-open source range: `start` is where a construct begins, `end` is
/// the position just past its last character.
#[derive(Clone, Copy, Debug, PartialEq, Eq, Structural)]
pub struct Span {
    pub start: Point,
    pub end: Point,
}

/// What a value can be told apart from when a character is not the one wanted.
#[derive(Clone, Copy, Debug, PartialEq, Eq, Structural)]
pub enum Expected {
    /// This very character.
    Char(char),
    /// The first character of a value: `{`, `[`, `"`, a digit, or a keyword.
    Value,
}

#[derive(Clone, Debug, PartialEq, Eq)]
pub enum LiteralValue {
    Str(String),
    Num(i64),
    Bool(bool),
    Null,
}

#[derive(Clone, Debug, PartialEq, Eq)]
pub struct Literal {
    pub value: LiteralValue,
    pub span: Span,
}

#[derive(Debug, PartialEq, Eq)]
pub enum PropertyValue {
    Object(Object),
    Array(Array),
    Literal(Literal),
}

#[derive(Debug, PartialEq, Eq)]
pub struct Property {
    pub key: Literal,
    pub value: PropertyValue,
    pub span: Span,
}

#[derive(Debug, PartialEq, Eq)]
pub struct Object {
    pub children: Vec<Property>,
    pub span: Span,
}

#[derive(Debug, PartialEq, Eq)]
pub struct Array {
    pub children: Vec<PropertyValue>,
    pub span: Span,
}

/// A top-level value of a document.
#[derive(Debug, PartialEq, Eq)]
pub enum Node {
    Object(Object),
    Array(Array),
    Literal(Literal),
}

/// The one error that ends a parse.
#[derive(Clone, Debug, PartialEq, Eq)]
pub enum SyntaxError {
    UnexpectedCharacter { expected: Expected, found: char, position: Point },
    UnterminatedString { position: Point },
    InvalidNumber { position: Point, raw_text: String },
    UnexpectedEndOfInput { position: Point },
    InvalidObjectKey { position: Point },
    NestingTooDeep { position: Point },
}

impl View for LiteralValue {
    type V = Atom;

    open spec fn view(&self) -> Atom {
        match self {
            LiteralValue::Str(s) => Atom::Str(s@),
            LiteralValue::Num(n) => Atom::Num(*n),
            LiteralValue::Bool(b) => Atom::Bool(*b),
            LiteralValue::Null => Atom::Null,
        }
    }
}

impl View for Literal {
    type V = Lit;

    open spec fn view(&self) -> Lit {
        Lit { value: self.value@, span: self.span }
    }
}

/// The model of a value: the tree with strings and children as sequences.
pub open spec fn value_model(v: PropertyValue) -> Val
    decreases v,
{
    match v {
        PropertyValue::Object(o) => Val::Object {
            members: members_model(o.children@),
            span: o.span,
        },
        PropertyValue::Array(a) => Val::Array { items: items_model(a.children@), span: a.span },
        PropertyValue::Literal(l) => Val::Literal(l@),
    }
}

pub open spec fn members_model(ps: Seq<Property>) -> Seq<Member>
    decreases ps,
{
    if ps.len() == 0 {
        Seq::empty()
    } else {
        let p = ps.last();
        members_model(ps.drop_last()).push(
            Member { key: p.key@, value: value_model(p.value), span: p.span },
        )
    }
}

pub open spec fn items_model(vs: Seq<PropertyValue>) -> Seq<Val>
    decreases vs,
{
    if vs.len() == 0 {
        Seq::empty()
    } else {
        items_model(vs.drop_last()).push(value_model(vs.last()))
    }
}

impl View for PropertyValue {
    type V = Val;

    open spec fn view(&self) -> Val {
        value_model(*self)
    }
}

impl View for Property {
    type V = Member;

    open spec fn view(&self) -> Member {
        Member { key: self.key@, value: value_model(self.value), span: self.span }
    }
}

impl View for Object {
    type V = Val;

    open spec fn view(&self) -> Val {
        Val::Object { members: members_model(self.children@), span: self.span }
    }
}

impl View for Array {
    type V = Val;

    open spec fn view(&self) -> Val {
        Val::Array { items: items_model(self.children@), span: self.span }
    }
}

impl View for Node {
    type V = Val;

    open spec fn view(&self) -> Val {
        match self {
            Node::Object(o) => o@,
            Node::Array(a) => a@,
            Node::Literal(l) => Val::Literal(l@),
        }
    }
}

impl View for SyntaxError {
    type V = ParseError;

    open spec fn view(&self) -> ParseError {
        match self {
            SyntaxError::UnexpectedCharacter { expected, found, position } =>
                ParseError::UnexpectedCharacter {
                expected: *expected,
                found: *found,
                position: *position,
            },
            SyntaxError::UnterminatedString { position } => ParseError::UnterminatedString {
                position: *position,
            },
            SyntaxError::InvalidNumber { position, raw_text } => ParseError::InvalidNumber {
                position: *position,
                raw_text: raw_text@,
            },
            SyntaxError::UnexpectedEndOfInput { position } => ParseError::UnexpectedEndOfInput {
                position: *position,
            },
            SyntaxError::InvalidObjectKey { position } => ParseError::InvalidObjectKey {
                position: *position,
            },
            SyntaxError::NestingTooDeep { position } => ParseError::NestingTooDeep {
                position: *position,
            },
        }
    }
}

} // verus!
