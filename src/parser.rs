use vstd::prelude::*;

use crate::ast::{
    members_model, items_model, Array, Expected, Literal, LiteralValue, Node, Object, Property,
    PropertyValue, Span, SyntaxError,
};
use crate::cursor::{CharClass, AST};
use crate::grammar::{
    close_array, close_object, digits_end, digits_value, is_digit, p_items, p_keyword, p_members,
    p_nodes, p_number, p_object, p_array, p_scalar, p_string, p_value, p_word, point_at,
    spec_parse, Lit, ParseError, Val, MAX_DEPTH,
};

verus! {

broadcast use vstd::std_specs::vec::group_vec_axioms, vstd::seq::group_seq_axioms;

/// A literal result read as the grammar's result, with `end` as the offset reached.
pub open spec fn lit_result(r: Result<Literal, SyntaxError>, end: int) -> Result<(Lit, int), ParseError> {
    match r {
        Ok(l) => Ok((l@, end)),
        Err(e) => Err(e@),
    }
}

pub open spec fn value_result(r: Result<PropertyValue, SyntaxError>, end: int) -> Result<(Val, int), ParseError> {
    match r {
        Ok(v) => Ok((v@, end)),
        Err(e) => Err(e@),
    }
}

pub open spec fn object_result(r: Result<Object, SyntaxError>, end: int) -> Result<(Val, int), ParseError> {
    match r {
        Ok(o) => Ok((o@, end)),
        Err(e) => Err(e@),
    }
}

pub open spec fn array_result(r: Result<Array, SyntaxError>, end: int) -> Result<(Val, int), ParseError> {
    match r {
        Ok(a) => Ok((a@, end)),
        Err(e) => Err(e@),
    }
}

/// The models of a sequence of top-level nodes.
pub open spec fn nodes_model(ns: Seq<Node>) -> Seq<Val> {
    ns.map_values(|n: Node| n@)
}

pub open spec fn nodes_result(r: Result<Vec<Node>, SyntaxError>) -> Result<Seq<Val>, ParseError> {
    match r {
        Ok(ns) => Ok(nodes_model(ns@)),
        Err(e) => Err(e@),
    }
}

fn node_of(v: PropertyValue) -> (n: Node)
    ensures
        n@ == v@,
{
    match v {
        PropertyValue::Object(o) => Node::Object(o),
        PropertyValue::Array(a) => Node::Array(a),
        PropertyValue::Literal(l) => Node::Literal(l),
    }
}

/// A string of digits denotes a number that is not negative.
pub proof fn lemma_digits_value_nonneg(d: Seq<char>)
    requires
        forall|k: int| 0 <= k < d.len() ==> is_digit(#[trigger] d[k]),
    ensures
        digits_value(d) >= 0,
    decreases d.len(),
{
    if d.len() > 0 {
        lemma_digits_value_nonneg(d.drop_last());
    }
}

impl AST {
    /// A string literal: from an opening quote to the next quote, with the
    /// characters between them taken as they stand.
    pub fn string(&mut self) -> (r: Result<Literal, SyntaxError>)
        requires
            old(self).wf(),
        ensures
            final(self).wf(),
            final(self).text@ == old(self).text@,
            lit_result(r, final(self).pointer as int) == p_string(
                old(self).text@,
                old(self).pointer as int,
            ),
            r is Ok ==> old(self).pointer < final(self).pointer,
    {
        let start = self.point();
        let i = self.pointer;
        match self.consume('"') {
            Err(e) => {
                return Err(e);
            },
            Ok(_) => {},
        }
        if !self.match_until('"') {
            return Err(SyntaxError::UnterminatedString { position: start });
        }
        let value = self.text_between(i + 1, self.pointer - 1);
        Ok(Literal { value: LiteralValue::Str(value), span: Span { start, end: self.point() } })
    }

    /// A number: the longest run of ASCII digits, read as an `i64`.
    pub fn number(&mut self) -> (r: Result<Literal, SyntaxError>)
        requires
            old(self).wf(),
        ensures
            final(self).wf(),
            final(self).text@ == old(self).text@,
            lit_result(r, final(self).pointer as int) == p_number(
                old(self).text@,
                old(self).pointer as int,
            ),
            r is Ok ==> old(self).pointer < final(self).pointer,
    {
        let ghost s = self.text@;
        let start = self.point();
        let i = self.pointer;
        let mut value: i64 = 0;
        let mut fits = true;
        while self.pointer < self.text.len() && Self::check_next(
            self.text[self.pointer],
            CharClass::Digit,
        )
            invariant
                self.wf(),
                self.text@ == s,
                i <= self.pointer,
                forall|k: int| i <= k < self.pointer ==> is_digit(#[trigger] s[k]),
                digits_end(s, i as int) == digits_end(s, self.pointer as int),
                fits ==> value == digits_value(s.subrange(i as int, self.pointer as int)),
                !fits ==> digits_value(s.subrange(i as int, self.pointer as int)) > i64::MAX,
            decreases self.text.len() - self.pointer,
        {
            let ghost before = s.subrange(i as int, self.pointer as int);
            let c = self.text[self.pointer];
            let d = (c as u32 - '0' as u32) as i64;
            if fits {
                match value.checked_mul(10) {
                    Some(m) => match m.checked_add(d) {
                        Some(v) => {
                            value = v;
                        },
                        None => {
                            fits = false;
                        },
                    },
                    None => {
                        fits = false;
                    },
                }
            }
            self.advance();
            proof {
                let after = s.subrange(i as int, self.pointer as int);
                assert(after.drop_last() =~= before);
                assert(after.last() == c);
                lemma_digits_value_nonneg(before);
            }
        }
        if self.pointer == i || !fits {
            return Err(
                SyntaxError::InvalidNumber {
                    position: start,
                    raw_text: self.text_between(i, self.pointer),
                },
            );
        }
        Ok(Literal { value: LiteralValue::Num(value), span: Span { start, end: self.point() } })
    }

    /// Consumes the characters of `word`, one after the other.
    pub fn consume_word(&mut self, word: &[char]) -> (r: Result<(), SyntaxError>)
        requires
            old(self).wf(),
        ensures
            final(self).wf(),
            final(self).text@ == old(self).text@,
            match r {
                Ok(_) => p_word(old(self).text@, old(self).pointer as int, word@) == Ok::<
                    int,
                    ParseError,
                >(final(self).pointer as int),
                Err(e) => p_word(old(self).text@, old(self).pointer as int, word@) == Err::<
                    int,
                    ParseError,
                >(e@),
            },
            r is Ok ==> final(self).pointer == old(self).pointer + word@.len(),
            r matches Err(e) ==> e@.position() == point_at(final(self).text@, final(self).pointer as int),
    {
        let ghost s = self.text@;
        let ghost i = self.pointer as int;
        let mut k: usize = 0;
        assert(word@.subrange(0, word@.len() as int) =~= word@);
        while k < word.len()
            invariant
                self.wf(),
                self.text@ == s,
                s == old(self).text@,
                i == old(self).pointer,
                k <= word@.len(),
                self.pointer == i + k,
                p_word(s, i, word@) == p_word(s, self.pointer as int, word@.subrange(k as int, word@.len() as int)),
            decreases word@.len() - k,
        {
            let ghost rest = word@.subrange(k as int, word@.len() as int);
            assert(rest[0] == word@[k as int]);
            match self.consume(word[k]) {
                Err(e) => {
                    return Err(e);
                },
                Ok(_) => {},
            }
            assert(rest.drop_first() =~= word@.subrange(k + 1, word@.len() as int));
            k = k + 1;
        }
        assert(word@.subrange(k as int, word@.len() as int) =~= Seq::<char>::empty());
        Ok(())
    }

    /// `true`, `false` or `null`, chosen by the current character. Any other
    /// word is an error at its first character that does not fit the chosen
    /// keyword; a character that starts none of them is an error too.
    pub fn boolean_null(&mut self) -> (r: Result<Literal, SyntaxError>)
        requires
            old(self).wf(),
        ensures
            final(self).wf(),
            final(self).text@ == old(self).text@,
            lit_result(r, final(self).pointer as int) == p_keyword(
                old(self).text@,
                old(self).pointer as int,
            ),
            r is Ok ==> old(self).pointer < final(self).pointer,
    {
        let start = self.point();
        let c = match self.get_chr(self.pointer) {
            None => {
                return Err(SyntaxError::UnexpectedEndOfInput { position: start });
            },
            Some(c) => c,
        };
        let value = if c == 't' {
            let word = ['t', 'r', 'u', 'e'];
            assert(word@ =~= seq!['t', 'r', 'u', 'e']);
            match self.consume_word(&word) {
                Err(e) => {
                    return Err(e);
                },
                Ok(_) => LiteralValue::Bool(true),
            }
        } else if c == 'f' {
            let word = ['f', 'a', 'l', 's', 'e'];
            assert(word@ =~= seq!['f', 'a', 'l', 's', 'e']);
            match self.consume_word(&word) {
                Err(e) => {
                    return Err(e);
                },
                Ok(_) => LiteralValue::Bool(false),
            }
        } else if c == 'n' {
            let word = ['n', 'u', 'l', 'l'];
            assert(word@ =~= seq!['n', 'u', 'l', 'l']);
            match self.consume_word(&word) {
                Err(e) => {
                    return Err(e);
                },
                Ok(_) => LiteralValue::Null,
            }
        } else {
            return Err(
                SyntaxError::UnexpectedCharacter {
                    expected: Expected::Value,
                    found: c,
                    position: start,
                },
            );
        };
        match self.get_chr(self.pointer) {
            Some(next) => {
                if Self::check_next(next, CharClass::Letter) {
                    return Err(
                        SyntaxError::UnexpectedCharacter {
                            expected: Expected::Value,
                            found: next,
                            position: self.point(),
                        },
                    );
                }
            },
            None => {},
        }
        Ok(Literal { value, span: Span { start, end: self.point() } })
    }

    /// A literal that is not a string: a number if the current character is
    /// a digit, else a keyword.
    pub fn abstract_literal(&mut self) -> (r: Result<Literal, SyntaxError>)
        requires
            old(self).wf(),
        ensures
            final(self).wf(),
            final(self).text@ == old(self).text@,
            lit_result(r, final(self).pointer as int) == p_scalar(
                old(self).text@,
                old(self).pointer as int,
            ),
            r is Ok ==> old(self).pointer < final(self).pointer,
    {
        match self.get_chr(self.pointer) {
            Some(c) => {
                if Self::check_next(c, CharClass::Digit) {
                    return self.number();
                }
            },
            None => {},
        }
        self.boolean_null()
    }

    /// A value, chosen by the current character: an object, an array, a
    /// string, a number or a keyword. `depth` is how many more objects and
    /// arrays may still open around it.
    pub fn value(&mut self, depth: u64) -> (r: Result<PropertyValue, SyntaxError>)
        requires
            old(self).wf(),
        ensures
            final(self).wf(),
            final(self).text@ == old(self).text@,
            value_result(r, final(self).pointer as int) == p_value(
                old(self).text@,
                old(self).pointer as int,
                depth as nat,
            ),
            r is Ok ==> old(self).pointer < final(self).pointer,
        decreases depth, 2int,
    {
        match self.get_chr(self.pointer) {
            None => Err(SyntaxError::UnexpectedEndOfInput { position: self.point() }),
            Some(c) => {
                if c == '{' {
                    match self.object(depth) {
                        Ok(o) => Ok(PropertyValue::Object(o)),
                        Err(e) => Err(e),
                    }
                } else if c == '[' {
                    match self.array(depth) {
                        Ok(a) => Ok(PropertyValue::Array(a)),
                        Err(e) => Err(e),
                    }
                } else if c == '"' {
                    match self.string() {
                        Ok(l) => Ok(PropertyValue::Literal(l)),
                        Err(e) => Err(e),
                    }
                } else {
                    match self.abstract_literal() {
                        Ok(l) => Ok(PropertyValue::Literal(l)),
                        Err(e) => Err(e),
                    }
                }
            },
        }
    }

    /// An object: `{`, then entries `"key": value` up to the matching `}`.
    /// Whitespace may stand around keys, colons and values, and a comma
    /// between entries may be left out.
    pub fn object(&mut self, depth: u64) -> (r: Result<Object, SyntaxError>)
        requires
            old(self).wf(),
        ensures
            final(self).wf(),
            final(self).text@ == old(self).text@,
            object_result(r, final(self).pointer as int) == p_object(
                old(self).text@,
                old(self).pointer as int,
                depth as nat,
            ),
            r is Ok ==> old(self).pointer < final(self).pointer,
        decreases depth, 1int,
    {
        let ghost s = self.text@;
        let ghost i0 = self.pointer as int;
        let start = self.point();
        if depth == 0 {
            return Err(SyntaxError::NestingTooDeep { position: start });
        }
        match self.consume('{') {
            Err(e) => {
                return Err(e);
            },
            Ok(_) => {},
        }
        self.consume_space_new_line();
        let mut children: Vec<Property> = Vec::new();
        loop
            invariant
                self.wf(),
                self.text@ == s,
                s == old(self).text@,
                i0 == old(self).pointer,
                i0 < self.pointer,
                depth > 0,
                start == point_at(s, i0),
                close_object(s, i0, p_members(s, self.pointer as int, (depth - 1) as nat, members_model(children@)))
                    == p_object(s, i0, depth as nat),
            decreases self.text.len() - self.pointer,
        {
            let entry_start = self.point();
            match self.get_chr(self.pointer) {
                None => {
                    return Err(SyntaxError::UnexpectedEndOfInput { position: entry_start });
                },
                Some(c) => {
                    if c == '}' {
                        self.advance();
                        return Ok(Object { children, span: Span { start, end: self.point() } });
                    }
                    if c != '"' {
                        return Err(SyntaxError::InvalidObjectKey { position: entry_start });
                    }
                },
            }
            let key = match self.string() {
                Ok(k) => k,
                Err(e) => {
                    return Err(e);
                },
            };
            self.consume_space_new_line();
            match self.consume(':') {
                Err(e) => {
                    return Err(e);
                },
                Ok(_) => {},
            }
            self.consume_space_new_line();
            let value = match self.value(depth - 1) {
                Ok(v) => v,
                Err(e) => {
                    return Err(e);
                },
            };
            let prop = Property { key, value, span: Span { start: entry_start, end: self.point() } };
            let ghost before = children@;
            children.push(prop);
            proof {
                assert(children@.drop_last() =~= before);
            }
            self.consume_space_new_line();
            self.consume_or(',');
            self.consume_space_new_line();
        }
    }

    /// An array: `[`, then values up to the matching `]`. Whitespace may
    /// stand around values, and a comma between them may be left out.
    pub fn array(&mut self, depth: u64) -> (r: Result<Array, SyntaxError>)
        requires
            old(self).wf(),
        ensures
            final(self).wf(),
            final(self).text@ == old(self).text@,
            array_result(r, final(self).pointer as int) == p_array(
                old(self).text@,
                old(self).pointer as int,
                depth as nat,
            ),
            r is Ok ==> old(self).pointer < final(self).pointer,
        decreases depth, 1int,
    {
        let ghost s = self.text@;
        let ghost i0 = self.pointer as int;
        let start = self.point();
        if depth == 0 {
            return Err(SyntaxError::NestingTooDeep { position: start });
        }
        match self.consume('[') {
            Err(e) => {
                return Err(e);
            },
            Ok(_) => {},
        }
        self.consume_space_new_line();
        let mut children: Vec<PropertyValue> = Vec::new();
        loop
            invariant
                self.wf(),
                self.text@ == s,
                s == old(self).text@,
                i0 == old(self).pointer,
                i0 < self.pointer,
                depth > 0,
                start == point_at(s, i0),
                close_array(s, i0, p_items(s, self.pointer as int, (depth - 1) as nat, items_model(children@)))
                    == p_array(s, i0, depth as nat),
            decreases self.text.len() - self.pointer,
        {
            match self.get_chr(self.pointer) {
                None => {
                    return Err(SyntaxError::UnexpectedEndOfInput { position: self.point() });
                },
                Some(c) => {
                    if c == ']' {
                        self.advance();
                        return Ok(Array { children, span: Span { start, end: self.point() } });
                    }
                },
            }
            let value = match self.value(depth - 1) {
                Ok(v) => v,
                Err(e) => {
                    return Err(e);
                },
            };
            let ghost before = children@;
            children.push(value);
            proof {
                assert(children@.drop_last() =~= before);
            }
            self.consume_space_new_line();
            self.consume_or(',');
            self.consume_space_new_line();
        }
    }

    /// The top-level values from the current offset to the end of the input,
    /// with whitespace between them skipped.
    pub fn parse_tree(&mut self) -> (r: Result<Vec<Node>, SyntaxError>)
        requires
            old(self).wf(),
        ensures
            final(self).wf(),
            final(self).text@ == old(self).text@,
            nodes_result(r) == p_nodes(old(self).text@, old(self).pointer as int, Seq::empty()),
    {
        let ghost s = self.text@;
        let mut result: Vec<Node> = Vec::new();
        assert(nodes_model(result@) =~= Seq::<Val>::empty());
        loop
            invariant
                self.wf(),
                self.text@ == s,
                s == old(self).text@,
                p_nodes(s, self.pointer as int, nodes_model(result@)) == p_nodes(
                    s,
                    old(self).pointer as int,
                    Seq::empty(),
                ),
            decreases self.text.len() - self.pointer,
        {
            self.consume_space_new_line();
            if self.at_end() {
                return Ok(result);
            }
            match self.value(MAX_DEPTH) {
                Err(e) => {
                    return Err(e);
                },
                Ok(v) => {
                    let n = node_of(v);
                    let ghost before = nodes_model(result@);
                    result.push(n);
                    assert(nodes_model(result@) =~= before.push(n@));
                },
            }
        }
    }

    /// The top-level values of the whole input, from its start.
    pub fn build_ast(&mut self) -> (r: Result<Vec<Node>, SyntaxError>)
        requires
            old(self).wf(),
        ensures
            final(self).wf(),
            final(self).text@ == old(self).text@,
            nodes_result(r) == spec_parse(old(self).text@),
    {
        self.pointer = 0;
        self.line = 1;
        self.column = 1;
        self.parse_tree()
    }
}

/// Parses `text` into its top-level values, or the first error in it.
pub fn parse(text: &str) -> (r: Result<Vec<Node>, SyntaxError>)
    requires
        text@.len() < usize::MAX,
    ensures
        nodes_result(r) == spec_parse(text@),
{
    let mut cursor = AST::new(text);
    cursor.build_ast()
}

} // verus!
