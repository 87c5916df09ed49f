//! The scanner: a cursor that moves forward over the input and knows the
//! line and the column it stands at, and the lexical helpers built on it.

use crate::beatmap::error::{Error, ErrorModel, Token};
use crate::beatmap::text::{
    byte, CARRIAGE_RETURN, find, FORM_FEED, is_line_break, is_space, lemma_find_unique, LINE_FEED,
    SPACE, TAB,
};
use vstd::prelude::*;

verus! {

/// The line of the byte at `pos`: how many line feeds stand before it.
pub open spec fn line_at(input: Seq<u8>, pos: int) -> nat
    decreases pos,
{
    if pos <= 0 {
        0
    } else if input[pos - 1] == LINE_FEED {
        line_at(input, pos - 1) + 1
    } else {
        line_at(input, pos - 1)
    }
}

/// The column of the byte at `pos`: how many bytes stand between it and the
/// line feed before it, or the start of the input.
pub open spec fn column_at(input: Seq<u8>, pos: int) -> nat
    decreases pos,
{
    if pos <= 0 {
        0
    } else if input[pos - 1] == LINE_FEED {
        0
    } else {
        column_at(input, pos - 1) + 1
    }
}

/// Neither the line nor the column is ever greater than the position.
pub proof fn lemma_line_column_bound(input: Seq<u8>, pos: int)
    requires
        0 <= pos,
    ensures
        line_at(input, pos) <= pos,
        column_at(input, pos) <= pos,
    decreases pos,
{
    if pos > 0 {
        lemma_line_column_bound(input, pos - 1);
    }
}

/// The test for a byte that is no whitespace, as a value.
pub open spec fn not_space() -> spec_fn(u8) -> bool {
    |b: u8| !is_space(b)
}

/// The test for a byte that is no whitespace or ends a line, as a value.
pub open spec fn not_inline_space() -> spec_fn(u8) -> bool {
    |b: u8| !is_space(b) || is_line_break(b)
}

/// The test for a byte that ends a line, as a value.
pub open spec fn line_break() -> spec_fn(u8) -> bool {
    |b: u8| is_line_break(b)
}

/// The test for a byte that is among the terminators `endpoint`, as a
/// value. The end of the input is written `None` in such a list.
pub open spec fn one_of(endpoint: Seq<Option<u8>>) -> spec_fn(u8) -> bool {
    |b: u8| endpoint.contains(Some(b))
}

/// Where the whitespace that starts at `pos` ends.
pub open spec fn space_end(input: Seq<u8>, pos: int) -> int {
    find(input, pos, not_space())
}

/// Where the whitespace that starts at `pos` ends, if it is not to run over
/// the end of the line.
pub open spec fn inline_space_end(input: Seq<u8>, pos: int) -> int {
    find(input, pos, not_inline_space())
}

/// Where the line that `pos` stands in ends: at the next line feed or
/// carriage return, or at the end of the input.
pub open spec fn line_end(input: Seq<u8>, pos: int) -> int {
    find(input, pos, line_break())
}

/// Where a comment that starts at `pos` ends: behind the next line feed, or
/// at the end of the input.
pub open spec fn comment_end(input: Seq<u8>, pos: int) -> int {
    let feed = find(input, pos, byte(LINE_FEED));
    if feed < input.len() {
        feed + 1
    } else {
        input.len() as int
    }
}

/// Where the token that starts at `pos` ends: at the first byte that is
/// among `endpoint`, or at the end of the input.
pub open spec fn token_end(input: Seq<u8>, pos: int, endpoint: Seq<Option<u8>>) -> int {
    find(input, pos, one_of(endpoint))
}

/// Whether a token from `pos` on is closed: a terminator is found before
/// the input ends, or the end of the input is itself a terminator.
pub open spec fn token_closed(input: Seq<u8>, pos: int, endpoint: Seq<Option<u8>>) -> bool {
    token_end(input, pos, endpoint) < input.len() || endpoint.contains(None)
}

/// A cursor into the input.
pub struct Scanner<'a> {
    input: &'a [u8],
    pos: usize,
    line: usize,
    col: usize,
}

impl<'a> Scanner<'a> {
    /// The input that is scanned.
    pub closed spec fn source(&self) -> Seq<u8> {
        self.input@
    }

    /// How many bytes have been consumed.
    pub closed spec fn position(&self) -> int {
        self.pos as int
    }

    /// The cursor is within the input, and its line and column are those of
    /// its position.
    pub closed spec fn well_formed(&self) -> bool {
        &&& self.pos <= self.input@.len()
        &&& self.line == line_at(self.input@, self.pos as int)
        &&& self.col == column_at(self.input@, self.pos as int)
    }

    /// The cursor lies within the input.
    pub proof fn lemma_in_range(&self)
        requires
            self.well_formed(),
        ensures
            0 <= self.position() <= self.source().len(),
    {
    }

    /// A scanner at the start of `input`.
    pub fn new(input: &'a [u8]) -> (s: Scanner<'a>)
        ensures
            s.well_formed(),
            s.source() == input@,
            s.position() == 0,
    {
        Scanner { input, pos: 0, line: 0, col: 0 }
    }

    /// Whether the input is used up.
    pub fn eof(&self) -> (r: bool)
        requires
            self.well_formed(),
        ensures
            r == (self.position() == self.source().len()),
    {
        self.pos >= self.input.len()
    }

    /// The current byte, or `None` at the end of the input.
    pub fn chr(&self) -> (r: Option<u8>)
        requires
            self.well_formed(),
        ensures
            r == if self.position() < self.source().len() {
                Some(self.source()[self.position()])
            } else {
                None
            },
    {
        if self.pos < self.input.len() {
            Some(self.input[self.pos])
        } else {
            None
        }
    }

    /// Whether the byte behind the current one is `b`.
    pub fn next_is(&self, b: u8) -> (r: bool)
        requires
            self.well_formed(),
        ensures
            r == (self.position() + 1 < self.source().len() && self.source()[self.position() + 1]
                == b),
    {
        self.pos < self.input.len() && self.pos + 1 < self.input.len() && self.input[self.pos + 1]
            == b
    }

    /// The line of the current byte, counted from 0.
    pub fn line(&self) -> (r: usize)
        requires
            self.well_formed(),
        ensures
            r == line_at(self.source(), self.position()),
    {
        self.line
    }

    /// The column of the current byte, counted from 0.
    pub fn col(&self) -> (r: usize)
        requires
            self.well_formed(),
        ensures
            r == column_at(self.source(), self.position()),
    {
        self.col
    }

    /// Consumes the current byte. A line feed starts a new line, any other
    /// byte moves one column on. At the end of the input nothing changes.
    pub fn bump(&mut self)
        requires
            old(self).well_formed(),
        ensures
            final(self).well_formed(),
            final(self).source() == old(self).source(),
            final(self).position() == if old(self).position() < old(self).source().len() {
                old(self).position() + 1
            } else {
                old(self).position()
            },
    {
        if self.pos < self.input.len() {
            proof {
                lemma_line_column_bound(self.input@, self.pos as int);
            }
            if self.input[self.pos] == LINE_FEED {
                self.line += 1;
                self.col = 0;
            } else {
                self.col += 1;
            }
            self.pos += 1;
        }
    }

    /// Consumes whitespace, line breaks too, up to the first byte that is
    /// none.
    pub fn parse_whitespace(&mut self)
        requires
            old(self).well_formed(),
        ensures
            final(self).well_formed(),
            final(self).source() == old(self).source(),
            final(self).position() == space_end(old(self).source(), old(self).position()),
    {
        let ghost from = self.pos as int;
        while self.pos < self.input.len() && is_space_byte(self.input[self.pos])
            invariant
                self.well_formed(),
                self.input@ == old(self).input@,
                from <= self.pos <= self.input@.len(),
                forall|k: int| from <= k < self.pos ==> is_space(#[trigger] self.input@[k]),
            decreases self.input@.len() - self.pos,
        {
            self.bump();
        }
        proof {
            lemma_find_unique(self.input@, from, not_space(), self.pos as int);
        }
    }

    /// Consumes whitespace up to the first byte that is none or that ends the
    /// line.
    pub fn parse_whitespace_except_line_break(&mut self)
        requires
            old(self).well_formed(),
        ensures
            final(self).well_formed(),
            final(self).source() == old(self).source(),
            final(self).position() == inline_space_end(old(self).source(), old(self).position()),
    {
        let ghost from = self.pos as int;
        while self.pos < self.input.len() && is_space_byte(self.input[self.pos])
            && !is_line_break_byte(self.input[self.pos])
            invariant
                self.well_formed(),
                self.input@ == old(self).input@,
                from <= self.pos <= self.input@.len(),
                forall|k: int|
                    from <= k < self.pos ==> is_space(#[trigger] self.input@[k]) && !is_line_break(
                        self.input@[k],
                    ),
            decreases self.input@.len() - self.pos,
        {
            self.bump();
        }
        proof {
            lemma_find_unique(self.input@, from, not_inline_space(), self.pos as int);
        }
    }

    /// Consumes a comment: everything up to and with the next line feed.
    pub fn parse_comment(&mut self)
        requires
            old(self).well_formed(),
        ensures
            final(self).well_formed(),
            final(self).source() == old(self).source(),
            final(self).position() == comment_end(old(self).source(), old(self).position()),
    {
        let ghost from = self.pos as int;
        while self.pos < self.input.len() && self.input[self.pos] != LINE_FEED
            invariant
                self.well_formed(),
                self.input@ == old(self).input@,
                from <= self.pos <= self.input@.len(),
                forall|k: int| from <= k < self.pos ==> #[trigger] self.input@[k] != LINE_FEED,
            decreases self.input@.len() - self.pos,
        {
            self.bump();
        }
        proof {
            lemma_find_unique(self.input@, from, byte(LINE_FEED), self.pos as int);
        }
        self.bump();
    }

    /// Consumes bytes up to the first that is among `endpoint`, where `None`
    /// stands for the end of the input, and returns them. The terminator is
    /// not consumed. Where the input ends first and its end is no terminator,
    /// the token `what` is left open: that is the error, and the input is
    /// used up.
    pub fn parse_str_until(&mut self, endpoint: &[Option<u8>], what: Token) -> (r: Result<
        &'a [u8],
        Error,
    >)
        requires
            old(self).well_formed(),
        ensures
            final(self).well_formed(),
            final(self).source() == old(self).source(),
            final(self).position() == token_end(
                old(self).source(),
                old(self).position(),
                endpoint@,
            ),
            token_closed(old(self).source(), old(self).position(), endpoint@) ==> (r matches Ok(s)
                && s@ == old(self).source().subrange(
                old(self).position(),
                final(self).position(),
            )),
            !token_closed(old(self).source(), old(self).position(), endpoint@) ==> (r matches Err(
                e,
            ) && e@ == ErrorModel::UnexpectedEndOfInput(what)),
    {
        let from = self.pos;
        while self.pos < self.input.len() && !contains_byte(endpoint, self.input[self.pos])
            invariant
                self.well_formed(),
                self.input@ == old(self).input@,
                from <= self.pos <= self.input@.len(),
                forall|k: int|
                    from <= k < self.pos ==> !endpoint@.contains(Some(#[trigger] self.input@[k])),
            decreases self.input@.len() - self.pos,
        {
            self.bump();
        }
        proof {
            lemma_find_unique(self.input@, from as int, one_of(endpoint@), self.pos as int);
        }
        if self.pos >= self.input.len() && !contains_end(endpoint) {
            return Err(Error::UnexpectedEndOfInput(what));
        }
        Ok(&self.input[from..self.pos])
    }

    /// Consumes the rest of the line and returns it. The byte that ends the
    /// line is not consumed.
    pub fn parse_str_until_eol(&mut self) -> (r: &'a [u8])
        requires
            old(self).well_formed(),
        ensures
            final(self).well_formed(),
            final(self).source() == old(self).source(),
            final(self).position() == line_end(old(self).source(), old(self).position()),
            r@ == old(self).source().subrange(old(self).position(), final(self).position()),
    {
        let from = self.pos;
        while self.pos < self.input.len() && !is_line_break_byte(self.input[self.pos])
            invariant
                self.well_formed(),
                self.input@ == old(self).input@,
                from <= self.pos <= self.input@.len(),
                forall|k: int| from <= k < self.pos ==> !is_line_break(#[trigger] self.input@[k]),
            decreases self.input@.len() - self.pos,
        {
            self.bump();
        }
        proof {
            lemma_find_unique(self.input@, from as int, line_break(), self.pos as int);
        }
        &self.input[from..self.pos]
    }
}

/// Whether `b` is whitespace.
pub fn is_space_byte(b: u8) -> (r: bool)
    ensures
        r == is_space(b),
{
    b == SPACE || b == TAB || b == LINE_FEED || b == FORM_FEED || b == CARRIAGE_RETURN
}

/// Whether `b` ends a line.
pub fn is_line_break_byte(b: u8) -> (r: bool)
    ensures
        r == is_line_break(b),
{
    b == LINE_FEED || b == CARRIAGE_RETURN
}

/// Whether `b` is among the terminators.
fn contains_byte(endpoint: &[Option<u8>], b: u8) -> (r: bool)
    ensures
        r == endpoint@.contains(Some(b)),
{
    let mut i: usize = 0;
    while i < endpoint.len()
        invariant
            i <= endpoint.len(),
            forall|k: int| 0 <= k < i ==> endpoint@[k] != Some(b),
        decreases endpoint.len() - i,
    {
        match endpoint[i] {
            Some(x) => {
                if x == b {
                    return true;
                }
            },
            None => {},
        }
        i += 1;
    }
    false
}

/// Whether the end of the input is among the terminators.
fn contains_end(endpoint: &[Option<u8>]) -> (r: bool)
    ensures
        r == endpoint@.contains(None),
{
    let mut i: usize = 0;
    while i < endpoint.len()
        invariant
            i <= endpoint.len(),
            forall|k: int| 0 <= k < i ==> endpoint@[k] != None::<u8>,
        decreases endpoint.len() - i,
    {
        if endpoint[i].is_none() {
            return true;
        }
        i += 1;
    }
    false
}

} // verus!
