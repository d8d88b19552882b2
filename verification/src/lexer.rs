//! The lexer: a cursor over a buffer of characters that hands out one token
//! per step.

use crate::laws::law_byte_len_is_utf8_length;
use crate::lemmas::{
    lemma_advance_none, lemma_advance_step, lemma_byte_len_push, lemma_byte_len_step,
    lemma_next_token, lemma_octal_value_step,
};
use crate::model::{
    byte_len, is_padded, next_token, octal_end, octal_value, peek_token, scan_state, skip,
    string_end, symbol_end, token_at, Cursor, ScanState, SpecTokenValue,
};
use crate::text::{
    invalid_literal_message, invalid_token_message, is_blank, is_octal_digit, is_symbol_char,
    octal_digit_value, punctuation, start_state, substring, to_chars, utf8_width,
};
use crate::token::{token_view, Token, TokenValue};
use crate::word::{U12, U12_LIMIT, U9};
use vstd::prelude::*;

verus! {

/// A position of a lexer, to come back to later.
#[derive(Clone, Copy, Debug, PartialEq, Eq)]
pub struct LexerState {
    index: usize,
    pos: usize,
    lino: usize,
    charpos: usize,
}

impl View for LexerState {
    type V = Cursor;

    closed spec fn view(&self) -> Cursor {
        Cursor {
            index: self.index as nat,
            pos: self.pos as nat,
            lino: self.lino as nat,
            charpos: self.charpos as nat,
        }
    }
}

/// A lexer over one source text.
pub struct Lexer {
    /// The name of the source, for diagnostics.
    pub filename: String,
    state: LexerState,
    string: Vec<char>,
}

impl Lexer {
    /// The buffer: the source text and the one space added to it.
    pub closed spec fn text(&self) -> Seq<char> {
        self.string@
    }

    /// The name of the source.
    pub closed spec fn name(&self) -> Seq<char> {
        self.filename@
    }

    /// Where the lexer stands in its buffer.
    pub closed spec fn cursor(&self) -> Cursor {
        self.state@
    }

    /// What holds of every lexer: its buffer is padded and its cursor is a
    /// position of that buffer.
    pub open spec fn wf(&self) -> bool {
        &&& is_padded(self.text())
        &&& self.cursor().valid_for(self.text())
    }

    /// Whether a lexer can be made for `string`: whether its length in bytes
    /// leaves room for the one byte that is added to it.
    pub fn accepts(string: &str) -> (r: bool)
        ensures
            r == (byte_len(string@) < usize::MAX),
    {
        proof {
            law_byte_len_is_utf8_length(string@);
        }
        string.as_bytes().len() < usize::MAX
    }

    /// A lexer at the beginning of `string`, whose source is called
    /// `filename`.
    ///
    /// The buffer is `string` with one space added, so the UTF-8 length of
    /// `string` has to leave room for that one byte: see [`Lexer::accepts`].
    pub fn new(filename: &str, string: &str) -> (r: Lexer)
        requires
            byte_len(string@) < usize::MAX,
        ensures
            r.wf(),
            r.name() == filename@,
            r.text() == string@.push(' '),
            r.cursor() == Cursor::start(),
    {
        let mut chars = to_chars(string);
        chars.push(' ');
        proof {
            lemma_byte_len_push(string@, ' ');
            assert(chars@.take(0) == Seq::<char>::empty());
        }
        Lexer {
            filename: filename.to_owned(),
            state: LexerState { index: 0, pos: 0, lino: 1, charpos: 0 },
            string: chars,
        }
    }

    /// Whether the cursor's byte offset has reached the end of the buffer.
    pub fn eof(&self) -> (r: bool)
        requires
            self.wf(),
        ensures
            r == (self.cursor().pos >= byte_len(self.text())),
            r == (self.cursor().index >= self.text().len()),
    {
        proof {
            if self.state.index < self.string.len() {
                lemma_byte_len_step(self.string@, self.state.index as int);
            } else {
                assert(self.string@.take(self.state.index as int) == self.string@);
            }
        }
        self.state.index >= self.string.len()
    }

    /// The line on which the cursor stands.
    pub fn get_lino(&self) -> (r: usize)
        ensures
            r == self.cursor().lino,
    {
        self.state.lino
    }

    /// The name of the source.
    pub fn get_filename(&self) -> (r: &String)
        ensures
            r@ == self.name(),
    {
        &self.filename
    }

    /// The cursor, to hand to [`Lexer::recall`] later.
    pub fn save(&self) -> (r: LexerState)
        ensures
            r@ == self.cursor(),
    {
        self.state
    }

    /// Puts the cursor back to `state`, which is a position of this lexer's
    /// buffer.
    pub fn recall(&mut self, state: LexerState)
        requires
            is_padded(old(self).text()),
            state@.valid_for(old(self).text()),
        ensures
            final(self).wf(),
            final(self).cursor() == state@,
            final(self).text() == old(self).text(),
            final(self).name() == old(self).name(),
    {
        self.state = state;
    }

    /// Moves the cursor past blanks and comments.
    fn skip_whitespace(&mut self)
        requires
            old(self).wf(),
        ensures
            final(self).wf(),
            final(self).cursor() == skip(old(self).text(), old(self).cursor(), false),
            final(self).text() == old(self).text(),
            final(self).name() == old(self).name(),
    {
        let mut in_comment = false;
        while self.state.index < self.string.len()
            invariant
                self.wf(),
                self.text() == old(self).text(),
                self.name() == old(self).name(),
                skip(self.text(), self.cursor(), in_comment) == skip(
                    old(self).text(),
                    old(self).cursor(),
                    false,
                ),
            ensures
                skip(self.text(), self.cursor(), in_comment) == self.cursor(),
            decreases self.text().len() - self.cursor().index,
        {
            let c = self.string[self.state.index];
            if in_comment && c == '\n' {
                self.line_break();
                in_comment = false;
            } else if in_comment || is_blank(c) {
                self.step();
            } else if c == ';' {
                self.step();
                in_comment = true;
            } else {
                break ;
            }
        }
    }

    /// Reads the symbol that begins under the cursor.
    fn scan_symbol(&mut self) -> (r: TokenValue)
        requires
            old(self).wf(),
            old(self).cursor().index < old(self).text().len(),
            scan_state(old(self).text()[old(self).cursor().index as int]) == ScanState::Symbol,
        ensures
            final(self).wf(),
            (r@, final(self).cursor()) == token_at(old(self).text(), old(self).cursor()),
            final(self).text() == old(self).text(),
            final(self).name() == old(self).name(),
    {
        let ghost at = self.cursor();
        let start = self.state.index;
        proof {
            lemma_advance_none(self.text(), at);
            lemma_advance_step(self.text(), at, at.index);
        }
        self.step();
        while self.state.index < self.string.len() && is_symbol_char(self.string[self.state.index])
            invariant
                self.wf(),
                self.text() == old(self).text(),
                self.name() == old(self).name(),
                at == old(self).cursor(),
                start == at.index,
                at.index < self.cursor().index,
                self.cursor() == at.advance_to(self.text(), self.cursor().index),
                symbol_end(self.text(), self.cursor().index) == symbol_end(
                    self.text(),
                    at.index + 1,
                ),
            decreases self.text().len() - self.cursor().index,
        {
            proof {
                lemma_advance_step(self.text(), at, self.cursor().index);
            }
            self.step();
        }
        TokenValue::Symbol(substring(&self.string, start, self.state.index))
    }

    /// Reads the octal literal that begins under the cursor.
    fn scan_literal(&mut self) -> (r: TokenValue)
        requires
            old(self).wf(),
            old(self).cursor().index < old(self).text().len(),
            scan_state(old(self).text()[old(self).cursor().index as int]) == ScanState::Literal,
        ensures
            final(self).wf(),
            (r@, final(self).cursor()) == token_at(old(self).text(), old(self).cursor()),
            final(self).text() == old(self).text(),
            final(self).name() == old(self).name(),
    {
        let ghost at = self.cursor();
        let start = self.state.index;
        // The value read so far, or some number of 4096 or more once the
        // value has reached 4096.
        let mut value: u16 = 0;
        proof {
            lemma_advance_none(self.text(), at);
        }
        while self.state.index < self.string.len() && is_octal_digit(self.string[self.state.index])
            invariant
                self.wf(),
                self.text() == old(self).text(),
                self.name() == old(self).name(),
                at == old(self).cursor(),
                start == at.index,
                at.index <= self.cursor().index,
                at.index < self.text().len(),
                scan_state(self.text()[at.index as int]) == ScanState::Literal,
                self.cursor() == at.advance_to(self.text(), self.cursor().index),
                self.cursor().index == at.index || octal_end(self.text(), self.cursor().index)
                    == octal_end(self.text(), at.index + 1),
                value < U12_LIMIT ==> value == octal_value(
                    self.text().subrange(at.index as int, self.cursor().index as int),
                ),
                value >= U12_LIMIT ==> octal_value(
                    self.text().subrange(at.index as int, self.cursor().index as int),
                ) >= U12_LIMIT,
                value <= 8 * U12_LIMIT,
            decreases self.text().len() - self.cursor().index,
        {
            proof {
                lemma_advance_step(self.text(), at, self.cursor().index);
                lemma_octal_value_step(self.text(), at.index as int, self.cursor().index as int);
            }
            if value < U12_LIMIT {
                value = value * 8 + octal_digit_value(self.string[self.state.index]);
            }
            self.step();
        }
        let digits = substring(&self.string, start, self.state.index);
        match U9::new(value) {
            Some(n) => TokenValue::NineBitLiteral(n),
            None => match U12::new(value) {
                Some(n) => TokenValue::TwelveBitLiteral(n),
                None => TokenValue::Error(invalid_literal_message(digits.as_str())),
            },
        }
    }

    /// Reads the string literal that opens under the cursor.
    fn scan_string(&mut self) -> (r: TokenValue)
        requires
            old(self).wf(),
            old(self).cursor().index < old(self).text().len(),
            scan_state(old(self).text()[old(self).cursor().index as int]) == ScanState::Text,
        ensures
            final(self).wf(),
            (r@, final(self).cursor()) == token_at(old(self).text(), old(self).cursor()),
            final(self).text() == old(self).text(),
            final(self).name() == old(self).name(),
    {
        let ghost at = self.cursor();
        let start = self.state.index;
        let last = self.string.len() - 1;
        proof {
            lemma_advance_none(self.text(), at);
            lemma_advance_step(self.text(), at, at.index);
        }
        self.step();
        while self.state.index < last && self.string[self.state.index] != '"'
            invariant
                self.wf(),
                self.text() == old(self).text(),
                self.name() == old(self).name(),
                at == old(self).cursor(),
                start == at.index,
                last == self.text().len() - 1,
                at.index < self.cursor().index <= last,
                self.cursor() == at.advance_to(self.text(), self.cursor().index),
                string_end(self.text(), self.cursor().index) == string_end(
                    self.text(),
                    at.index + 1,
                ),
            decreases self.text().len() - self.cursor().index,
        {
            proof {
                lemma_advance_step(self.text(), at, self.cursor().index);
            }
            self.step();
        }
        if self.string[self.state.index] == '"' {
            let contents = substring(&self.string, start + 1, self.state.index);
            proof {
                lemma_advance_step(self.text(), at, self.cursor().index);
            }
            self.step();
            TokenValue::StringLiteral(contents)
        } else {
            TokenValue::Error(substring(&self.string, start, self.state.index))
        }
    }

    /// Reads the next token and moves the cursor past it. Returns `None`
    /// where only blanks and comments were left, which are then read.
    ///
    /// A token that is returned is a classified one, possibly an error, and
    /// at least one character was read for it, so that a caller who goes on
    /// after an error makes progress.
    pub fn next(&mut self) -> (r: Option<Token>)
        requires
            old(self).wf(),
        ensures
            final(self).wf(),
            (token_view(r), final(self).cursor()) == next_token(
                old(self).text(),
                old(self).cursor(),
            ),
            final(self).text() == old(self).text(),
            final(self).name() == old(self).name(),
            r is None ==> final(self).cursor().index == final(self).text().len(),
            r matches Some(token) ==> {
                &&& token.value@ != SpecTokenValue::Unclassified
                &&& old(self).cursor().index < final(self).cursor().index
                &&& old(self).cursor().pos <= token.pos < final(self).cursor().pos
            },
    {
        proof {
            lemma_next_token(self.text(), self.cursor());
        }
        self.skip_whitespace();
        if self.state.index >= self.string.len() {
            return None;
        }
        let pos = self.state.pos;
        let lino = self.state.lino;
        let charpos = self.state.charpos;
        let c = self.string[self.state.index];
        let value = match start_state(c) {
            ScanState::SingleChar => {
                if c == '\n' {
                    self.line_break();
                } else {
                    self.step();
                }
                punctuation(c).unwrap()
            },
            ScanState::Symbol => self.scan_symbol(),
            ScanState::Literal => self.scan_literal(),
            ScanState::Text => self.scan_string(),
            ScanState::Idle => {
                self.step();
                TokenValue::Error(invalid_token_message(c))
            },
        };
        Some(Token { pos, lino, charpos, value })
    }

    /// The token that [`Lexer::next`] would return, with the cursor left
    /// where it stands.
    pub fn peek(&mut self) -> (r: Option<Token>)
        requires
            old(self).wf(),
        ensures
            final(self).wf(),
            (token_view(r), final(self).cursor()) == peek_token(
                old(self).text(),
                old(self).cursor(),
            ),
            final(self).text() == old(self).text(),
            final(self).name() == old(self).name(),
    {
        let state = self.state;
        let token = self.next();
        self.state = state;
        token
    }

    /// Reads the character under the cursor, on the current line.
    fn step(&mut self)
        requires
            old(self).wf(),
            old(self).cursor().index < old(self).text().len(),
        ensures
            final(self).wf(),
            final(self).cursor() == old(self).cursor().step(
                old(self).text()[old(self).cursor().index as int],
            ),
            final(self).text() == old(self).text(),
            final(self).name() == old(self).name(),
    {
        let c = self.string[self.state.index];
        proof {
            lemma_byte_len_step(self.string@, self.state.index as int);
            assert(self.string@.len() == self.string.len());
        }
        let width = utf8_width(c);
        self.state.index += 1;
        self.state.pos += width;
        self.state.charpos += 1;
    }

    /// Reads the line feed under the cursor and begins a new line.
    fn line_break(&mut self)
        requires
            old(self).wf(),
            old(self).cursor().index < old(self).text().len(),
            old(self).text()[old(self).cursor().index as int] == '\n',
        ensures
            final(self).wf(),
            final(self).cursor() == old(self).cursor().line_break(),
            final(self).text() == old(self).text(),
            final(self).name() == old(self).name(),
    {
        proof {
            lemma_byte_len_step(self.string@, self.state.index as int);
            assert(self.string@.len() == self.string.len());
            assert(self.string@.last() == ' ');
        }
        self.state.index += 1;
        self.state.pos += 1;
        self.state.lino += 1;
        self.state.charpos = 0;
    }
}

} // verus!
