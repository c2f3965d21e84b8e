use vstd::prelude::*;

use crate::ast::{Expected, Point, Span};

verus! {

/// Deepest nesting of objects and arrays that a parse accepts.
pub const MAX_DEPTH: u64 = 128;

/// The value of a literal.
pub enum Atom {
    Str(Seq<char>),
    Num(i64),
    Bool(bool),
    Null,
}

pub struct Lit {
    pub value: Atom,
    pub span: Span,
}

/// A parsed value: an object, an array or a literal.
pub enum Val {
    Object { members: Seq<Member>, span: Span },
    Array { items: Seq<Val>, span: Span },
    Literal(Lit),
}

/// One `key: value` entry of an object.
pub struct Member {
    pub key: Lit,
    pub value: Val,
    pub span: Span,
}

pub enum ParseError {
    UnexpectedCharacter { expected: Expected, found: char, position: Point },
    UnterminatedString { position: Point },
    InvalidNumber { position: Point, raw_text: Seq<char> },
    UnexpectedEndOfInput { position: Point },
    InvalidObjectKey { position: Point },
    NestingTooDeep { position: Point },
}

impl ParseError {
    pub open spec fn position(self) -> Point {
        match self {
            ParseError::UnexpectedCharacter { position, .. } => position,
            ParseError::UnterminatedString { position } => position,
            ParseError::InvalidNumber { position, .. } => position,
            ParseError::UnexpectedEndOfInput { position } => position,
            ParseError::InvalidObjectKey { position } => position,
            ParseError::NestingTooDeep { position } => position,
        }
    }
}

pub open spec fn is_ws(c: char) -> bool {
    c == ' ' || c == '\n'
}

pub open spec fn is_digit(c: char) -> bool {
    '0' <= c && c <= '9'
}

/// Line of the character at offset `i`: one more than the newlines before it.
pub open spec fn line_at(s: Seq<char>, i: int) -> int
    decreases i,
{
    if i <= 0 {
        1
    } else if s[i - 1] == '\n' {
        line_at(s, i - 1) + 1
    } else {
        line_at(s, i - 1)
    }
}

/// Column of the character at offset `i`: one more than the characters
/// between it and the last newline before it.
pub open spec fn column_at(s: Seq<char>, i: int) -> int
    decreases i,
{
    if i <= 0 {
        1
    } else if s[i - 1] == '\n' {
        1
    } else {
        column_at(s, i - 1) + 1
    }
}

pub open spec fn point_at(s: Seq<char>, i: int) -> Point {
    Point { line: line_at(s, i) as u64, column: column_at(s, i) as u64 }
}

pub open spec fn span_of(s: Seq<char>, i: int, j: int) -> Span {
    Span { start: point_at(s, i), end: point_at(s, j) }
}

/// First offset at or after `i` that is not a space or a newline.
pub open spec fn skip_ws(s: Seq<char>, i: int) -> int
    decreases s.len() - i,
{
    if 0 <= i < s.len() && is_ws(s[i]) {
        skip_ws(s, i + 1)
    } else {
        i
    }
}

/// Offset after an optional `c` at `i`.
pub open spec fn skip_char(s: Seq<char>, i: int, c: char) -> int {
    if 0 <= i < s.len() && s[i] == c {
        i + 1
    } else {
        i
    }
}

/// First offset at or after `i` that holds `c`, or the length if none does.
pub open spec fn find_char(s: Seq<char>, i: int, c: char) -> int
    decreases s.len() - i,
{
    if 0 <= i < s.len() && s[i] != c {
        find_char(s, i + 1, c)
    } else {
        i
    }
}

/// End of the run of ASCII digits that starts at `i`.
pub open spec fn digits_end(s: Seq<char>, i: int) -> int
    decreases s.len() - i,
{
    if 0 <= i < s.len() && is_digit(s[i]) {
        digits_end(s, i + 1)
    } else {
        i
    }
}

/// The number that a string of decimal digits denotes.
pub open spec fn digits_value(d: Seq<char>) -> int
    decreases d.len(),
{
    if d.len() == 0 {
        0
    } else {
        10 * digits_value(d.drop_last()) + (d.last() as int - '0' as int)
    }
}

/// `c` at offset `i`, or why not.
pub open spec fn p_consume(s: Seq<char>, i: int, c: char) -> Result<int, ParseError> {
    if i >= s.len() {
        Err(ParseError::UnexpectedEndOfInput { position: point_at(s, i) })
    } else if s[i] != c {
        Err(ParseError::UnexpectedCharacter { expected: Expected::Char(c), found: s[i], position: point_at(s, i) })
    } else {
        Ok(i + 1)
    }
}

/// The characters of `w`, one after the other, from offset `i`.
pub open spec fn p_word(s: Seq<char>, i: int, w: Seq<char>) -> Result<int, ParseError>
    decreases w.len(),
{
    if w.len() == 0 {
        Ok(i)
    } else {
        match p_consume(s, i, w[0]) {
            Ok(j) => p_word(s, j, w.drop_first()),
            Err(e) => Err(e),
        }
    }
}

/// A string: the raw characters between two quotes, with no escapes.
pub open spec fn p_string(s: Seq<char>, i: int) -> Result<(Lit, int), ParseError> {
    match p_consume(s, i, '"') {
        Err(e) => Err(e),
        Ok(j) => {
            let k = find_char(s, j, '"');
            if k >= s.len() {
                Err(ParseError::UnterminatedString { position: point_at(s, i) })
            } else {
                Ok((Lit { value: Atom::Str(s.subrange(j, k)), span: span_of(s, i, k + 1) }, k + 1))
            }
        },
    }
}

/// A number: the longest run of digits, which must be there and fit in an `i64`.
pub open spec fn p_number(s: Seq<char>, i: int) -> Result<(Lit, int), ParseError> {
    let j = digits_end(s, i);
    let raw = s.subrange(i, j);
    if j == i || digits_value(raw) > i64::MAX {
        Err(ParseError::InvalidNumber { position: point_at(s, i), raw_text: raw })
    } else {
        Ok((Lit { value: Atom::Num(digits_value(raw) as i64), span: span_of(s, i, j) }, j))
    }
}

pub open spec fn is_letter(c: char) -> bool {
    ('a' <= c && c <= 'z') || ('A' <= c && c <= 'Z')
}

/// The keyword `w` at offset `i`, read as `a`. A letter right after it
/// makes it a longer word, which is refused at that letter.
pub open spec fn keyword_lit(s: Seq<char>, i: int, w: Seq<char>, a: Atom) -> Result<(Lit, int), ParseError> {
    match p_word(s, i, w) {
        Ok(j) => if 0 <= j < s.len() && is_letter(s[j]) {
            Err(ParseError::UnexpectedCharacter { expected: Expected::Value, found: s[j], position: point_at(s, j) })
        } else {
            Ok((Lit { value: a, span: span_of(s, i, j) }, j))
        },
        Err(e) => Err(e),
    }
}

/// `true`, `false` or `null`, chosen by the first character. Any other
/// word is refused: at its first character that leaves the chosen keyword,
/// at the letter that follows a whole keyword, or at its first character
/// if that starts no keyword.
pub open spec fn p_keyword(s: Seq<char>, i: int) -> Result<(Lit, int), ParseError> {
    if i >= s.len() {
        Err(ParseError::UnexpectedEndOfInput { position: point_at(s, i) })
    } else if s[i] == 't' {
        keyword_lit(s, i, seq!['t', 'r', 'u', 'e'], Atom::Bool(true))
    } else if s[i] == 'f' {
        keyword_lit(s, i, seq!['f', 'a', 'l', 's', 'e'], Atom::Bool(false))
    } else if s[i] == 'n' {
        keyword_lit(s, i, seq!['n', 'u', 'l', 'l'], Atom::Null)
    } else {
        Err(ParseError::UnexpectedCharacter { expected: Expected::Value, found: s[i], position: point_at(s, i) })
    }
}

/// A literal that is not a string: a number if it starts with a digit, else a keyword.
pub open spec fn p_scalar(s: Seq<char>, i: int) -> Result<(Lit, int), ParseError> {
    if 0 <= i < s.len() && is_digit(s[i]) {
        p_number(s, i)
    } else {
        p_keyword(s, i)
    }
}

pub open spec fn as_value(r: Result<(Lit, int), ParseError>) -> Result<(Val, int), ParseError> {
    match r {
        Ok((l, j)) => Ok((Val::Literal(l), j)),
        Err(e) => Err(e),
    }
}

/// A value, chosen by its first character. `depth` is how many more
/// objects and arrays may still open around it.
pub open spec fn p_value(s: Seq<char>, i: int, depth: nat) -> Result<(Val, int), ParseError>
    decreases depth, 2int, 0int,
{
    if i < 0 || i >= s.len() {
        Err(ParseError::UnexpectedEndOfInput { position: point_at(s, i) })
    } else if s[i] == '{' {
        p_object(s, i, depth)
    } else if s[i] == '[' {
        p_array(s, i, depth)
    } else if s[i] == '"' {
        as_value(p_string(s, i))
    } else {
        as_value(p_scalar(s, i))
    }
}

/// Where the next entry of a list starts, after the one that ended at `k`:
/// whitespace, an optional comma, whitespace.
pub open spec fn next_entry(s: Seq<char>, k: int) -> int {
    skip_ws(s, skip_char(s, skip_ws(s, k), ','))
}

pub open spec fn close_object(s: Seq<char>, i: int, r: Result<(Seq<Member>, int), ParseError>) -> Result<(Val, int), ParseError> {
    match r {
        Ok((ms, k)) => Ok((Val::Object { members: ms, span: span_of(s, i, k + 1) }, k + 1)),
        Err(e) => Err(e),
    }
}

pub open spec fn close_array(s: Seq<char>, i: int, r: Result<(Seq<Val>, int), ParseError>) -> Result<(Val, int), ParseError> {
    match r {
        Ok((vs, k)) => Ok((Val::Array { items: vs, span: span_of(s, i, k + 1) }, k + 1)),
        Err(e) => Err(e),
    }
}

/// An object that opens at `i`.
pub open spec fn p_object(s: Seq<char>, i: int, depth: nat) -> Result<(Val, int), ParseError>
    decreases depth, 1int, 0int,
{
    if depth == 0 {
        Err(ParseError::NestingTooDeep { position: point_at(s, i) })
    } else {
        match p_consume(s, i, '{') {
            Ok(j) => close_object(s, i, p_members(s, skip_ws(s, j), (depth - 1) as nat, Seq::empty())),
            Err(e) => Err(e),
        }
    }
}

/// The entries of an object from offset `j` up to its `}`: `acc` followed by
/// those entries, and the offset of the `}`.
pub open spec fn p_members(s: Seq<char>, j: int, depth: nat, acc: Seq<Member>) -> Result<(Seq<Member>, int), ParseError>
    decreases depth + 1, 0int, s.len() - j,
{
    if j < 0 || j >= s.len() {
        Err(ParseError::UnexpectedEndOfInput { position: point_at(s, j) })
    } else if s[j] == '}' {
        Ok((acc, j))
    } else if s[j] != '"' {
        Err(ParseError::InvalidObjectKey { position: point_at(s, j) })
    } else {
        match p_string(s, j) {
            Err(e) => Err(e),
            Ok((key, k1)) => match p_consume(s, skip_ws(s, k1), ':') {
                Err(e) => Err(e),
                Ok(k2) => match p_value(s, skip_ws(s, k2), depth) {
                    Err(e) => Err(e),
                    Ok((v, k3)) => {
                        let m = Member { key, value: v, span: span_of(s, j, k3) };
                        let k4 = next_entry(s, k3);
                        // A value always ends after it starts (`law_value_ends_after_start`), so
                        // this test always holds; it is here to show that the recursion ends.
                        if j < k4 <= s.len() {
                            p_members(s, k4, depth, acc.push(m))
                        } else {
                            Err(ParseError::UnexpectedEndOfInput { position: point_at(s, k4) })
                        }
                    },
                },
            },
        }
    }
}

/// An array that opens at `i`.
pub open spec fn p_array(s: Seq<char>, i: int, depth: nat) -> Result<(Val, int), ParseError>
    decreases depth, 1int, 0int,
{
    if depth == 0 {
        Err(ParseError::NestingTooDeep { position: point_at(s, i) })
    } else {
        match p_consume(s, i, '[') {
            Ok(j) => close_array(s, i, p_items(s, skip_ws(s, j), (depth - 1) as nat, Seq::empty())),
            Err(e) => Err(e),
        }
    }
}

/// The elements of an array from offset `j` up to its `]`: `acc` followed by
/// those elements, and the offset of the `]`.
pub open spec fn p_items(s: Seq<char>, j: int, depth: nat, acc: Seq<Val>) -> Result<(Seq<Val>, int), ParseError>
    decreases depth + 1, 0int, s.len() - j,
{
    if j < 0 || j >= s.len() {
        Err(ParseError::UnexpectedEndOfInput { position: point_at(s, j) })
    } else if s[j] == ']' {
        Ok((acc, j))
    } else {
        match p_value(s, j, depth) {
            Err(e) => Err(e),
            Ok((v, k)) => {
                let k4 = next_entry(s, k);
                // A value always ends after it starts (`law_value_ends_after_start`), so
                // this test always holds; it is here to show that the recursion ends.
                if j < k4 <= s.len() {
                    p_items(s, k4, depth, acc.push(v))
                } else {
                    Err(ParseError::UnexpectedEndOfInput { position: point_at(s, k4) })
                }
            },
        }
    }
}

/// The top-level values from offset `i` to the end: `acc` followed by them.
pub open spec fn p_nodes(s: Seq<char>, i: int, acc: Seq<Val>) -> Result<Seq<Val>, ParseError>
    decreases s.len() - i,
{
    let j = skip_ws(s, i);
    if i < 0 || j >= s.len() {
        Ok(acc)
    } else {
        match p_value(s, j, MAX_DEPTH as nat) {
            Err(e) => Err(e),
            Ok((v, k)) => if i < k <= s.len() {
                p_nodes(s, k, acc.push(v))
            } else {
                Err(ParseError::UnexpectedEndOfInput { position: point_at(s, k) })
            },
        }
    }
}

/// What parsing the whole of `s` gives.
pub open spec fn spec_parse(s: Seq<char>) -> Result<Seq<Val>, ParseError> {
    p_nodes(s, 0, Seq::empty())
}

} // verus!
