use vstd::prelude::*;
use vstd::string::StringExecFns;

use crate::ast::{
    Expected, SyntaxError, items_model, members_model, Array, Literal, LiteralValue, Node, Object, Point, Property,
    PropertyValue, Span,
};
use crate::cursor::push_char;
use crate::grammar::{Atom, Lit, Member, ParseError, Val};

verus! {

broadcast use vstd::std_specs::vec::group_vec_axioms, vstd::seq::group_seq_axioms;

pub open spec fn digit_char(d: int) -> char {
    seq!['0', '1', '2', '3', '4', '5', '6', '7', '8', '9'][d]
}

/// The decimal digits of `n`, with no leading zero.
pub open spec fn decimal(n: nat) -> Seq<char>
    decreases n,
{
    if n < 10 {
        seq![digit_char(n as int)]
    } else {
        decimal(n / 10).push(digit_char((n % 10) as int))
    }
}

/// `n` in decimal, with a `-` before a negative number.
pub open spec fn signed_decimal(n: int) -> Seq<char> {
    if n < 0 {
        seq!['-'] + decimal((-n) as nat)
    } else {
        decimal(n as nat)
    }
}

pub open spec fn point_text(p: Point) -> Seq<char> {
    " { line: "@ + decimal(p.line as nat) + ", column: "@ + decimal(p.column as nat) + " }"@
}

pub open spec fn span_text(s: Span) -> Seq<char> {
    " { start: "@ + point_text(s.start) + ", end: "@ + point_text(s.end) + " }"@
}

/// A string quoted and escaped as Rust's `Debug` writes it.
pub uninterp spec fn debug_str(s: Seq<char>) -> Seq<char>;

/// Relies on `<str as Debug>::fmt`: the string between quotes, with quotes,
/// backslashes and control characters escaped; the result depends on the
/// characters alone.
#[verifier::external_body]
fn debug_string(s: &String) -> (r: String)
    ensures
        r@ == debug_str(s@),
{
    format!("{:?}", s)
}

/// A string as `debug_str` gives it, a number in decimal, `true`, `false` or `null`.
pub open spec fn atom_text(a: Atom) -> Seq<char> {
    match a {
        Atom::Str(t) => debug_str(t),
        Atom::Num(n) => signed_decimal(n as int),
        Atom::Bool(b) => if b {
            "true"@
        } else {
            "false"@
        },
        Atom::Null => "null"@,
    }
}

pub open spec fn lit_text(l: Lit) -> Seq<char> {
    " { type: \"Literal\", value: "@ + atom_text(l.value) + " }"@
}

/// How a value is rendered, in the shape of a `Debug` struct with an empty
/// name: its kind, its children or its value, and for objects and
/// properties their location. Every part starts with a space.
pub open spec fn val_text(v: Val) -> Seq<char>
    decreases v,
{
    match v {
        Val::Object { members, span } => " { type: \"Object\", children: ["@ + members_text(members)
            + "], loc: "@ + span_text(span) + " }"@,
        Val::Array { items, .. } => " { type: \"Array\", children: ["@ + items_text(items) + "] }"@,
        Val::Literal(l) => lit_text(l),
    }
}

pub open spec fn member_text(m: Member) -> Seq<char>
    decreases m,
{
    " { type: \"Property\", key: "@ + lit_text(m.key) + ", value: "@ + val_text(m.value) + ", loc: "@
        + span_text(m.span) + " }"@
}

/// The entries, separated by `, `.
pub open spec fn members_text(ms: Seq<Member>) -> Seq<char>
    decreases ms,
{
    if ms.len() == 0 {
        Seq::empty()
    } else if ms.len() == 1 {
        member_text(ms[0])
    } else {
        members_text(ms.drop_last()) + ", "@ + member_text(ms.last())
    }
}

/// The elements, separated by `, `.
pub open spec fn items_text(vs: Seq<Val>) -> Seq<char>
    decreases vs,
{
    if vs.len() == 0 {
        Seq::empty()
    } else if vs.len() == 1 {
        val_text(vs[0])
    } else {
        items_text(vs.drop_last()) + ", "@ + val_text(vs.last())
    }
}

/// A one-line description of an error, without its position.
pub open spec fn error_text(e: ParseError) -> Seq<char> {
    match e {
        ParseError::UnexpectedCharacter { expected, found, .. } => match expected {
            Expected::Char(c) => "expected '"@ + seq![c] + "', found '"@ + seq![found] + "'"@,
            Expected::Value => "expected a value, found '"@ + seq![found] + "'"@,
        },
        ParseError::UnterminatedString { .. } => "unterminated string"@,
        ParseError::InvalidNumber { raw_text, .. } => "invalid number: "@ + raw_text,
        ParseError::UnexpectedEndOfInput { .. } => "unexpected end of input"@,
        ParseError::InvalidObjectKey { .. } => "object key is not a string"@,
        ParseError::NestingTooDeep { .. } => "objects and arrays nested too deep"@,
    }
}

proof fn lemma_members_model_len(ps: Seq<Property>)
    ensures
        members_model(ps).len() == ps.len(),
    decreases ps.len(),
{
    if ps.len() > 0 {
        lemma_members_model_len(ps.drop_last());
    }
}

proof fn lemma_items_model_len(vs: Seq<PropertyValue>)
    ensures
        items_model(vs).len() == vs.len(),
    decreases vs.len(),
{
    if vs.len() > 0 {
        lemma_items_model_len(vs.drop_last());
    }
}

fn push_decimal(out: &mut String, n: u64)
    ensures
        final(out)@ == old(out)@ + decimal(n as nat),
    decreases n,
{
    let digits = ['0', '1', '2', '3', '4', '5', '6', '7', '8', '9'];
    assert(digits@ =~= seq!['0', '1', '2', '3', '4', '5', '6', '7', '8', '9']);
    if n >= 10 {
        push_decimal(out, n / 10);
    }
    push_char(out, digits[(n % 10) as usize]);
    assert(out@ =~= old(out)@ + decimal(n as nat));
}

fn push_signed(out: &mut String, n: i64)
    ensures
        final(out)@ == old(out)@ + signed_decimal(n as int),
{
    if n < 0 {
        push_char(out, '-');
        push_decimal(out, (0 - (n as i128)) as u64);
        assert(out@ =~= old(out)@ + signed_decimal(n as int));
    } else {
        push_decimal(out, n as u64);
    }
}

fn push_point(out: &mut String, p: Point)
    ensures
        final(out)@ == old(out)@ + point_text(p),
{
    out.append(" { line: ");
    push_decimal(out, p.line);
    out.append(", column: ");
    push_decimal(out, p.column);
    out.append(" }");
    assert(out@ =~= old(out)@ + point_text(p));
}

fn push_span(out: &mut String, s: Span)
    ensures
        final(out)@ == old(out)@ + span_text(s),
{
    out.append(" { start: ");
    push_point(out, s.start);
    out.append(", end: ");
    push_point(out, s.end);
    out.append(" }");
    assert(out@ =~= old(out)@ + span_text(s));
}

fn push_atom(out: &mut String, v: &LiteralValue)
    ensures
        final(out)@ == old(out)@ + atom_text(v@),
{
    match v {
        LiteralValue::Str(t) => {
            let quoted = debug_string(t);
            out.append(quoted.as_str());
        },
        LiteralValue::Num(n) => {
            push_signed(out, *n);
        },
        LiteralValue::Bool(b) => {
            if *b {
                out.append("true");
            } else {
                out.append("false");
            }
        },
        LiteralValue::Null => {
            out.append("null");
        },
    }
    assert(out@ =~= old(out)@ + atom_text(v@));
}

fn push_literal(out: &mut String, l: &Literal)
    ensures
        final(out)@ == old(out)@ + lit_text(l@),
{
    out.append(" { type: \"Literal\", value: ");
    push_atom(out, &l.value);
    out.append(" }");
    assert(out@ =~= old(out)@ + lit_text(l@));
}

fn push_property(out: &mut String, p: &Property)
    ensures
        final(out)@ == old(out)@ + member_text(p@),
    decreases p, 1int,
{
    out.append(" { type: \"Property\", key: ");
    push_literal(out, &p.key);
    out.append(", value: ");
    push_value(out, &p.value);
    out.append(", loc: ");
    push_span(out, p.span);
    out.append(" }");
    assert(out@ =~= old(out)@ + member_text(p@));
}

fn push_object(out: &mut String, o: &Object)
    ensures
        final(out)@ == old(out)@ + val_text(o@),
    decreases o, 1int,
{
    out.append(" { type: \"Object\", children: [");
    let ghost head = out@;
    let mut i: usize = 0;
    while i < o.children.len()
        invariant
            i <= o.children.len(),
            out@ == head + members_text(members_model(o.children@.take(i as int))),
        decreases o.children.len() - i,
    {
        let ghost before = members_model(o.children@.take(i as int));
        let ghost taken = o.children@.take(i + 1);
        assert(taken.drop_last() =~= o.children@.take(i as int));
        proof {
            lemma_members_model_len(o.children@.take(i as int));
        }
        if i > 0 {
            out.append(", ");
        }
        push_property(out, &o.children[i]);
        assert(members_model(taken).drop_last() =~= before);
        assert(out@ =~= head + members_text(members_model(taken)));
        i = i + 1;
    }
    assert(o.children@.take(i as int) =~= o.children@);
    out.append("], loc: ");
    push_span(out, o.span);
    out.append(" }");
    assert(out@ =~= old(out)@ + val_text(o@));
}

fn push_array(out: &mut String, a: &Array)
    ensures
        final(out)@ == old(out)@ + val_text(a@),
    decreases a, 1int,
{
    out.append(" { type: \"Array\", children: [");
    let ghost head = out@;
    let mut i: usize = 0;
    while i < a.children.len()
        invariant
            i <= a.children.len(),
            out@ == head + items_text(items_model(a.children@.take(i as int))),
        decreases a.children.len() - i,
    {
        let ghost before = items_model(a.children@.take(i as int));
        let ghost taken = a.children@.take(i + 1);
        assert(taken.drop_last() =~= a.children@.take(i as int));
        proof {
            lemma_items_model_len(a.children@.take(i as int));
        }
        if i > 0 {
            out.append(", ");
        }
        push_value(out, &a.children[i]);
        assert(items_model(taken).drop_last() =~= before);
        assert(out@ =~= head + items_text(items_model(taken)));
        i = i + 1;
    }
    assert(a.children@.take(i as int) =~= a.children@);
    out.append("] }");
    assert(out@ =~= old(out)@ + val_text(a@));
}

fn push_value(out: &mut String, v: &PropertyValue)
    ensures
        final(out)@ == old(out)@ + val_text(v@),
    decreases v, 2int,
{
    match v {
        PropertyValue::Object(o) => push_object(out, o),
        PropertyValue::Array(a) => push_array(out, a),
        PropertyValue::Literal(l) => push_literal(out, l),
    }
}

impl Node {
    /// The tree under this node as nested text.
    pub fn render(&self) -> (r: String)
        ensures
            r@ == val_text(self@),
    {
        let mut out = String::new();
        match self {
            Node::Object(o) => push_object(&mut out, o),
            Node::Array(a) => push_array(&mut out, a),
            Node::Literal(l) => push_literal(&mut out, l),
        }
        out
    }
}

impl PropertyValue {
    /// The tree under this value as nested text.
    pub fn render(&self) -> (r: String)
        ensures
            r@ == val_text(self@),
    {
        let mut out = String::new();
        push_value(&mut out, self);
        out
    }
}

impl Object {
    pub fn render(&self) -> (r: String)
        ensures
            r@ == val_text(self@),
    {
        let mut out = String::new();
        push_object(&mut out, self);
        out
    }
}

impl Array {
    pub fn render(&self) -> (r: String)
        ensures
            r@ == val_text(self@),
    {
        let mut out = String::new();
        push_array(&mut out, self);
        out
    }
}

impl Property {
    pub fn render(&self) -> (r: String)
        ensures
            r@ == member_text(self@),
    {
        let mut out = String::new();
        push_property(&mut out, self);
        out
    }
}

impl Literal {
    pub fn render(&self) -> (r: String)
        ensures
            r@ == lit_text(self@),
    {
        let mut out = String::new();
        push_literal(&mut out, self);
        out
    }
}

impl LiteralValue {
    pub fn render(&self) -> (r: String)
        ensures
            r@ == atom_text(self@),
    {
        let mut out = String::new();
        push_atom(&mut out, self);
        out
    }
}

impl Span {
    pub fn render(&self) -> (r: String)
        ensures
            r@ == span_text(*self),
    {
        let mut out = String::new();
        push_span(&mut out, *self);
        out
    }
}

impl Point {
    pub fn render(&self) -> (r: String)
        ensures
            r@ == point_text(*self),
    {
        let mut out = String::new();
        push_point(&mut out, *self);
        out
    }
}

impl SyntaxError {
    /// Where the error was found.
    pub fn position(&self) -> (r: Point)
        ensures
            r == self@.position(),
    {
        match self {
            SyntaxError::UnexpectedCharacter { position, .. } => *position,
            SyntaxError::UnterminatedString { position } => *position,
            SyntaxError::InvalidNumber { position, .. } => *position,
            SyntaxError::UnexpectedEndOfInput { position } => *position,
            SyntaxError::InvalidObjectKey { position } => *position,
            SyntaxError::NestingTooDeep { position } => *position,
        }
    }

    /// What went wrong, in words.
    pub fn message(&self) -> (r: String)
        ensures
            r@ == error_text(self@),
    {
        let mut out = String::new();
        match self {
            SyntaxError::UnexpectedCharacter { expected, found, .. } => {
                match expected {
                    Expected::Char(c) => {
                        out.append("expected '");
                        push_char(&mut out, *c);
                        out.append("', found '");
                    },
                    Expected::Value => {
                        out.append("expected a value, found '");
                    },
                }
                push_char(&mut out, *found);
                out.append("'");
            },
            SyntaxError::UnterminatedString { .. } => {
                out.append("unterminated string");
            },
            SyntaxError::InvalidNumber { raw_text, .. } => {
                out.append("invalid number: ");
                out.append(raw_text.as_str());
            },
            SyntaxError::UnexpectedEndOfInput { .. } => {
                out.append("unexpected end of input");
            },
            SyntaxError::InvalidObjectKey { .. } => {
                out.append("object key is not a string");
            },
            SyntaxError::NestingTooDeep { .. } => {
                out.append("objects and arrays nested too deep");
            },
        }
        assert(out@ =~= error_text(self@));
        out
    }
}

} // verus!
