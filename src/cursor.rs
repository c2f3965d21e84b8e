use vstd::prelude::*;

use crate::ast::{Expected, Point, SyntaxError};
use crate::grammar::{
    column_at, find_char, is_digit, is_letter, is_ws, line_at, p_consume, point_at, skip_char, skip_ws,
    ParseError,
};

verus! {

broadcast use vstd::std_specs::vec::group_vec_axioms, vstd::seq::group_seq_axioms;

/// The scanning state of one parse: the decoded input, the offset of the
/// next character, and that character's line and column.
pub struct AST {
    pub text: Vec<char>,
    pub pointer: usize,
    pub line: u64,
    pub column: u64,
}

/// Classes of characters that the grammar tells apart.
#[derive(Clone, Copy, Debug, PartialEq, Eq, Structural)]
pub enum CharClass {
    /// `0` to `9`.
    Digit,
    /// `\n`.
    NewLine,
    /// A space or a newline; tabs and carriage returns are not whitespace here.
    Space,
    /// An ASCII letter.
    Letter,
}

/// Relies on `String::push`: appends one character at the end.
#[verifier::external_body]
pub(crate) fn push_char(s: &mut String, c: char)
    ensures
        final(s)@ == old(s)@.push(c),
{
    s.push(c);
}

/// Lines and columns start at 1 and grow by at most one per character.
pub proof fn lemma_point_bounds(s: Seq<char>, i: int)
    requires
        0 <= i,
    ensures
        1 <= line_at(s, i) <= i + 1,
        1 <= column_at(s, i) <= i + 1,
    decreases i,
{
    if i > 0 {
        lemma_point_bounds(s, i - 1);
    }
}

impl AST {
    /// The cursor's position agrees with its offset, and every position fits.
    pub open spec fn wf(&self) -> bool {
        &&& self.text.len() < usize::MAX
        &&& self.pointer <= self.text.len()
        &&& self.line as int == line_at(self.text@, self.pointer as int)
        &&& self.column as int == column_at(self.text@, self.pointer as int)
    }

    /// A cursor at the start of `file`.
    pub fn new(file: &str) -> (r: AST)
        requires
            file@.len() < usize::MAX,
        ensures
            r.wf(),
            r.text@ == file@,
            r.pointer == 0,
    {
        let mut text: Vec<char> = Vec::new();
        for c in it: file.chars()
            invariant
                text@ == it.seq().take(it.index() as int),
        {
            text.push(c);
        }
        AST { text, pointer: 0, line: 1, column: 1 }
    }

    /// The current position.
    pub fn point(&self) -> (r: Point)
        requires
            self.wf(),
        ensures
            r == point_at(self.text@, self.pointer as int),
    {
        Point { line: self.line, column: self.column }
    }

    /// The character at offset `pos`, if the input reaches that far.
    pub fn get_chr(&self, pos: usize) -> (r: Option<char>)
        ensures
            r == (if pos < self.text.len() {
                Some(self.text@[pos as int])
            } else {
                None::<char>
            }),
    {
        if pos < self.text.len() {
            Some(self.text[pos])
        } else {
            None
        }
    }

    /// Whether the whole input has been consumed.
    pub fn at_end(&self) -> (r: bool)
        requires
            self.wf(),
        ensures
            r == (self.pointer == self.text.len()),
    {
        self.pointer == self.text.len()
    }

    /// Whether `chr` belongs to `class`.
    pub fn check_next(chr: char, class: CharClass) -> (r: bool)
        ensures
            r == match class {
                CharClass::Digit => is_digit(chr),
                CharClass::NewLine => chr == '\n',
                CharClass::Space => is_ws(chr),
                CharClass::Letter => is_letter(chr),
            },
    {
        match class {
            CharClass::Digit => '0' <= chr && chr <= '9',
            CharClass::NewLine => chr == '\n',
            CharClass::Space => chr == ' ' || chr == '\n',
            CharClass::Letter => ('a' <= chr && chr <= 'z') || ('A' <= chr && chr <= 'Z'),
        }
    }

    /// Consumes the current character: a newline moves to column 1 of the
    /// next line, any other character one column on.
    pub fn advance(&mut self)
        requires
            old(self).wf(),
            old(self).pointer < old(self).text.len(),
        ensures
            final(self).wf(),
            final(self).text@ == old(self).text@,
            final(self).pointer == old(self).pointer + 1,
    {
        proof {
            lemma_point_bounds(self.text@, self.pointer as int);
        }
        if self.text[self.pointer] == '\n' {
            self.line = self.line + 1;
            self.column = 1;
        } else {
            self.column = self.column + 1;
        }
        self.pointer = self.pointer + 1;
    }

    /// Consumes `chr`, which must be the current character.
    pub fn consume(&mut self, chr: char) -> (r: Result<(), SyntaxError>)
        requires
            old(self).wf(),
        ensures
            final(self).wf(),
            final(self).text@ == old(self).text@,
            match r {
                Ok(_) => p_consume(old(self).text@, old(self).pointer as int, chr) == Ok::<
                    int,
                    ParseError,
                >(final(self).pointer as int),
                Err(e) => p_consume(old(self).text@, old(self).pointer as int, chr) == Err::<
                    int,
                    ParseError,
                >(e@),
            },
            r is Err ==> final(self).pointer == old(self).pointer,
    {
        match self.get_chr(self.pointer) {
            None => Err(SyntaxError::UnexpectedEndOfInput { position: self.point() }),
            Some(c) => {
                if c != chr {
                    Err(
                        SyntaxError::UnexpectedCharacter {
                            expected: Expected::Char(chr),
                            found: c,
                            position: self.point(),
                        },
                    )
                } else {
                    self.advance();
                    Ok(())
                }
            },
        }
    }

    /// Consumes `chr` if it is the current character; returns whether it did.
    pub fn consume_or(&mut self, chr: char) -> (r: bool)
        requires
            old(self).wf(),
        ensures
            final(self).wf(),
            final(self).text@ == old(self).text@,
            final(self).pointer == skip_char(old(self).text@, old(self).pointer as int, chr),
            r == (final(self).pointer != old(self).pointer),
    {
        if self.get_chr(self.pointer) == Some(chr) {
            self.advance();
            true
        } else {
            false
        }
    }

    /// Consumes the longest run of spaces and newlines.
    pub fn consume_space_new_line(&mut self)
        requires
            old(self).wf(),
        ensures
            final(self).wf(),
            final(self).text@ == old(self).text@,
            final(self).pointer == skip_ws(old(self).text@, old(self).pointer as int),
            final(self).pointer >= old(self).pointer,
    {
        while self.pointer < self.text.len() && Self::check_next(
            self.text[self.pointer],
            CharClass::Space,
        )
            invariant
                self.wf(),
                self.text@ == old(self).text@,
                self.pointer >= old(self).pointer,
                skip_ws(self.text@, self.pointer as int) == skip_ws(
                    old(self).text@,
                    old(self).pointer as int,
                ),
            decreases self.text.len() - self.pointer,
        {
            self.advance();
        }
    }

    /// Consumes everything up to the next `chr`, and that `chr` too. Returns
    /// whether there was one; if not, the cursor is left at the end.
    pub fn match_until(&mut self, chr: char) -> (found: bool)
        requires
            old(self).wf(),
        ensures
            final(self).wf(),
            final(self).text@ == old(self).text@,
            found == (find_char(old(self).text@, old(self).pointer as int, chr)
                < old(self).text.len()),
            final(self).pointer == (if found {
                find_char(old(self).text@, old(self).pointer as int, chr) + 1
            } else {
                old(self).text.len() as int
            }),
            final(self).pointer >= old(self).pointer,
            found ==> final(self).pointer > old(self).pointer,
    {
        while self.pointer < self.text.len() && self.text[self.pointer] != chr
            invariant
                self.wf(),
                self.text@ == old(self).text@,
                self.pointer >= old(self).pointer,
                find_char(self.text@, self.pointer as int, chr) == find_char(
                    old(self).text@,
                    old(self).pointer as int,
                    chr,
                ),
            decreases self.text.len() - self.pointer,
        {
            self.advance();
        }
        if self.pointer < self.text.len() {
            self.advance();
            true
        } else {
            false
        }
    }

    /// The characters from offset `from` up to, not including, `to`.
    pub fn text_between(&self, from: usize, to: usize) -> (r: String)
        requires
            from <= to <= self.text.len(),
        ensures
            r@ == self.text@.subrange(from as int, to as int),
    {
        let mut out = String::new();
        let mut k: usize = from;
        while k < to
            invariant
                from <= k <= to <= self.text.len(),
                out@ == self.text@.subrange(from as int, k as int),
            decreases to - k,
        {
            push_char(&mut out, self.text[k]);
            k = k + 1;
            assert(out@ =~= self.text@.subrange(from as int, k as int));
        }
        out
    }
}

} // verus!
