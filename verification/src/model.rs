//! The mathematical description of the token stream.
//!
//! A buffer is a sequence of characters, a position in it is a [`Cursor`], and
//! [`next_token`] says which token starts at a cursor and where the cursor
//! stands afterwards. The lexer's contracts are stated over these functions.

use crate::lemmas::lemma_next_token;
use vstd::prelude::*;

verus! {

/// A space or a tab.
pub open spec fn is_blank(c: char) -> bool {
    c == ' ' || c == '\t'
}

/// An ASCII letter.
pub open spec fn is_letter(c: char) -> bool {
    ('a' <= c && c <= 'z') || ('A' <= c && c <= 'Z')
}

/// A character that may begin a symbol: an ASCII letter or an underscore.
pub open spec fn is_symbol_start(c: char) -> bool {
    is_letter(c) || c == '_'
}

/// A character that may continue a symbol: an ASCII letter, a decimal digit
/// or an underscore.
pub open spec fn is_symbol_char(c: char) -> bool {
    is_letter(c) || ('0' <= c && c <= '9') || c == '_'
}

/// One of the digits `0` to `7`.
pub open spec fn is_octal_digit(c: char) -> bool {
    '0' <= c && c <= '7'
}

/// The number of bytes that `c` takes in UTF-8.
pub open spec fn char_width(c: char) -> nat {
    if c <= '\u{7f}' {
        1
    } else if c <= '\u{7ff}' {
        2
    } else if c <= '\u{ffff}' {
        3
    } else {
        4
    }
}

/// The number of bytes that the characters of `s` take in UTF-8.
pub open spec fn byte_len(s: Seq<char>) -> nat
    decreases s.len(),
{
    if s.len() == 0 {
        0
    } else {
        byte_len(s.drop_last()) + char_width(s.last())
    }
}

/// A position in a buffer, with the line and column that a diagnostic would
/// show for it.
pub struct Cursor {
    /// How many characters stand before the position.
    pub index: nat,
    /// How many bytes those characters take in UTF-8.
    pub pos: nat,
    /// The line number; the first line is line 1.
    pub lino: nat,
    /// How many characters were read since the line began.
    pub charpos: nat,
}

impl Cursor {
    /// The cursor at the beginning of a buffer.
    pub open spec fn start() -> Cursor {
        Cursor { index: 0, pos: 0, lino: 1, charpos: 0 }
    }

    /// The cursor after reading the character `c` on the current line.
    pub open spec fn step(self, c: char) -> Cursor {
        Cursor {
            index: self.index + 1,
            pos: self.pos + char_width(c),
            lino: self.lino,
            charpos: self.charpos + 1,
        }
    }

    /// The cursor after reading a line feed that ends the current line.
    pub open spec fn line_break(self) -> Cursor {
        Cursor { index: self.index + 1, pos: self.pos + 1, lino: self.lino + 1, charpos: 0 }
    }

    /// The cursor after reading the characters of `text` up to index `end`,
    /// all on the current line.
    pub open spec fn advance_to(self, text: Seq<char>, end: nat) -> Cursor {
        Cursor {
            index: end,
            pos: self.pos + byte_len(text.subrange(self.index as int, end as int)),
            lino: self.lino,
            charpos: self.charpos + (end - self.index) as nat,
        }
    }

    /// Whether the cursor is a position of `text`: its index lies within the
    /// buffer, its byte offset is that of the index, and its line and column
    /// are no larger than reading up to the index can have made them.
    pub open spec fn valid_for(self, text: Seq<char>) -> bool {
        &&& self.index <= text.len()
        &&& self.pos == byte_len(text.take(self.index as int))
        &&& self.lino <= self.index + 1
        &&& self.charpos <= self.index
    }
}

/// Whether `text` is a buffer that a lexer can hold: it ends in the one space
/// that was added to the input, and its UTF-8 length fits in a `usize`.
pub open spec fn is_padded(text: Seq<char>) -> bool {
    &&& text.len() > 0
    &&& text.last() == ' '
    &&& byte_len(text) <= usize::MAX
}

/// The cursor after passing over blanks and comments, starting at `cur`.
///
/// A space or a tab is passed over. A semicolon opens a comment, which runs
/// up to the next line feed and takes that line feed with it. `in_comment`
/// says whether `cur` stands inside a comment.
pub open spec fn skip(text: Seq<char>, cur: Cursor, in_comment: bool) -> Cursor
    decreases text.len() - cur.index,
{
    if cur.index >= text.len() {
        cur
    } else {
        let c = text[cur.index as int];
        if in_comment && c == '\n' {
            skip(text, cur.line_break(), false)
        } else if in_comment || is_blank(c) {
            skip(text, cur.step(c), in_comment)
        } else if c == ';' {
            skip(text, cur.step(c), true)
        } else {
            cur
        }
    }
}

/// The end of the run of symbol characters that begins at `from`: the first
/// index at or after `from` whose character cannot continue a symbol, or the
/// length of `text` where there is none.
pub open spec fn symbol_end(text: Seq<char>, from: nat) -> nat
    decreases text.len() - from,
{
    if from < text.len() && is_symbol_char(text[from as int]) {
        symbol_end(text, from + 1)
    } else {
        from
    }
}

/// The end of the run of octal digits that begins at `from`: the first index
/// at or after `from` whose character is no octal digit, or the length of
/// `text` where there is none.
pub open spec fn octal_end(text: Seq<char>, from: nat) -> nat
    decreases text.len() - from,
{
    if from < text.len() && is_octal_digit(text[from as int]) {
        octal_end(text, from + 1)
    } else {
        from
    }
}

/// Where the contents of a string literal end, when they begin at `from`: the
/// first index at or after `from` that holds a double quote or is the last
/// index of `text`.
pub open spec fn string_end(text: Seq<char>, from: nat) -> nat
    decreases text.len() - from,
{
    if from + 1 < text.len() && text[from as int] != '"' {
        string_end(text, from + 1)
    } else {
        from
    }
}

/// The number that the octal digits `digits` write, the first digit being the
/// most significant one.
pub open spec fn octal_value(digits: Seq<char>) -> nat
    decreases digits.len(),
{
    if digits.len() == 0 {
        0
    } else {
        octal_value(digits.drop_last()) * 8 + (digits.last() as nat - '0' as nat) as nat
    }
}

/// What a token is, apart from where it stands.
pub enum SpecTokenValue {
    /// No token: nothing has been classified yet.
    Unclassified,
    /// A lexical error, with its message.
    Error(Seq<char>),
    /// `(`
    LParen,
    /// `)`
    RParen,
    /// `:`
    Colon,
    /// `,`
    Comma,
    /// A line feed outside a comment.
    Newline,
    /// `<`
    LessThan,
    /// `>`
    GreaterThan,
    /// `.`
    Dot,
    /// An identifier, with its name.
    Symbol(Seq<char>),
    /// An octal literal below 512.
    NineBitLiteral(nat),
    /// An octal literal from 512 up to 4095.
    TwelveBitLiteral(nat),
    /// A string literal, with the characters between its quotes.
    StringLiteral(Seq<char>),
}

/// A token with the position at which it begins.
pub struct SpecToken {
    /// The byte offset of the token's first character.
    pub pos: nat,
    /// The line on which the token begins.
    pub lino: nat,
    /// The column at which the token begins.
    pub charpos: nat,
    /// What the token is.
    pub value: SpecTokenValue,
}

/// The token that the single character `c` makes, if it makes one.
pub open spec fn punctuation(c: char) -> Option<SpecTokenValue> {
    if c == '(' {
        Some(SpecTokenValue::LParen)
    } else if c == ')' {
        Some(SpecTokenValue::RParen)
    } else if c == ':' {
        Some(SpecTokenValue::Colon)
    } else if c == ',' {
        Some(SpecTokenValue::Comma)
    } else if c == '\n' {
        Some(SpecTokenValue::Newline)
    } else if c == '<' {
        Some(SpecTokenValue::LessThan)
    } else if c == '>' {
        Some(SpecTokenValue::GreaterThan)
    } else if c == '.' {
        Some(SpecTokenValue::Dot)
    } else {
        None
    }
}

/// The message of the error for a character that begins no token.
pub open spec fn invalid_token_message(c: char) -> Seq<char> {
    "Invalid token '"@.push(c).push('\'')
}

/// The message of the error for an octal literal of 4096 or more.
pub open spec fn invalid_literal_message(digits: Seq<char>) -> Seq<char> {
    "'"@ + digits + "' is an invalid 12 bit integer"@
}

/// The token that the octal digits `digits` make: a nine-bit literal where
/// their value is below 512, else a twelve-bit literal where it is below
/// 4096, else an error.
pub open spec fn literal_value(digits: Seq<char>) -> SpecTokenValue {
    let n = octal_value(digits);
    if n < 512 {
        SpecTokenValue::NineBitLiteral(n)
    } else if n < 4096 {
        SpecTokenValue::TwelveBitLiteral(n)
    } else {
        SpecTokenValue::Error(invalid_literal_message(digits))
    }
}

/// What the scanner does once it has seen the first character of a token.
#[derive(Clone, Copy, Debug, PartialEq, Eq)]
pub enum ScanState {
    /// The character begins no token.
    Idle,
    /// The character begins a symbol.
    Symbol,
    /// The character begins an octal literal.
    Literal,
    /// The character opens a string literal.
    Text,
    /// The character is a token by itself.
    SingleChar,
}

/// The state that the first character `c` of a token puts the scanner in.
pub open spec fn scan_state(c: char) -> ScanState {
    if punctuation(c) is Some {
        ScanState::SingleChar
    } else if is_symbol_start(c) {
        ScanState::Symbol
    } else if is_octal_digit(c) {
        ScanState::Literal
    } else if c == '"' {
        ScanState::Text
    } else {
        ScanState::Idle
    }
}

/// The token that begins at `at`, and the cursor after it.
///
/// `at` stands on a character of `text`, and that character decides the kind
/// of token:
/// - a punctuation character is a token by itself, and a line feed, which is
///   one of them, begins a new line;
/// - a letter or an underscore begins a symbol, which runs as far as symbol
///   characters follow;
/// - an octal digit begins a literal, which runs as far as octal digits
///   follow;
/// - a double quote begins a string literal, which runs up to the next double
///   quote and takes it in; where the last character of `text` is reached
///   first, the token is an error whose message is what was read, and the last
///   character is left unread;
/// - any other character is an error, and is read.
pub open spec fn token_at(text: Seq<char>, at: Cursor) -> (SpecTokenValue, Cursor) {
    let c = text[at.index as int];
    match scan_state(c) {
        ScanState::SingleChar => (
            punctuation(c)->0,
            if c == '\n' {
                at.line_break()
            } else {
                at.step(c)
            },
        ),
        ScanState::Symbol => {
            let end = symbol_end(text, at.index + 1);
            (
                SpecTokenValue::Symbol(text.subrange(at.index as int, end as int)),
                at.advance_to(text, end),
            )
        },
        ScanState::Literal => {
            let end = octal_end(text, at.index + 1);
            (literal_value(text.subrange(at.index as int, end as int)), at.advance_to(text, end))
        },
        ScanState::Text => {
            let end = string_end(text, at.index + 1);
            if text[end as int] == '"' {
                (
                    SpecTokenValue::StringLiteral(text.subrange((at.index + 1) as int, end as int)),
                    at.advance_to(text, end + 1),
                )
            } else {
                (
                    SpecTokenValue::Error(text.subrange(at.index as int, end as int)),
                    at.advance_to(text, end),
                )
            }
        },
        ScanState::Idle => (SpecTokenValue::Error(invalid_token_message(c)), at.step(c)),
    }
}

/// What one step of the lexer gives when its cursor is `cur`: the next token,
/// or `None` where only blanks and comments are left, and the cursor after
/// the step.
pub open spec fn next_token(text: Seq<char>, cur: Cursor) -> (Option<SpecToken>, Cursor) {
    let at = skip(text, cur, false);
    if at.index >= text.len() {
        (None, at)
    } else {
        let (value, after) = token_at(text, at);
        (Some(SpecToken { pos: at.pos, lino: at.lino, charpos: at.charpos, value }), after)
    }
}

/// What a look ahead gives when the cursor is `cur`: the token that the next
/// step would give, and the cursor where it stood.
pub open spec fn peek_token(text: Seq<char>, cur: Cursor) -> (Option<SpecToken>, Cursor) {
    (next_token(text, cur).0, cur)
}

/// The tokens that successive steps give, from the cursor `cur` up to the
/// step that gives none.
pub open spec fn token_stream(text: Seq<char>, cur: Cursor) -> Seq<SpecToken>
    decreases text.len() - cur.index,
    when is_padded(text) && cur.valid_for(text)
{
    let (token, after) = next_token(text, cur);
    match token {
        None => Seq::empty(),
        Some(t) => {
            proof {
                lemma_next_token(text, cur);
            }
            seq![t] + token_stream(text, after)
        },
    }
}

/// The number of bytes that successive steps read, from the cursor `cur` up
/// to and including the step that gives no token. What a step reads is the
/// blanks and comments before its token, and the token.
pub open spec fn bytes_read(text: Seq<char>, cur: Cursor) -> nat
    decreases text.len() - cur.index,
    when is_padded(text) && cur.valid_for(text)
{
    let (token, after) = next_token(text, cur);
    let span = (after.pos - cur.pos) as nat;
    match token {
        None => span,
        Some(_) => {
            proof {
                lemma_next_token(text, cur);
            }
            span + bytes_read(text, after)
        },
    }
}

/// Whether index `i` of `text` lies inside a comment: on its line, a
/// semicolon stands before it.
pub open spec fn inside_comment(text: Seq<char>, i: int) -> bool
    decreases i,
{
    0 < i <= text.len() && text[i - 1] != '\n' && (text[i - 1] == ';' || inside_comment(
        text,
        i - 1,
    ))
}

/// Whether `text` holds nothing but blanks and comments: each character is a
/// space, a tab or a semicolon, or lies inside a comment.
pub open spec fn is_blank_text(text: Seq<char>) -> bool {
    forall|i: int|
        0 <= i < text.len() ==> is_blank(#[trigger] text[i]) || text[i] == ';' || inside_comment(
            text,
            i,
        )
}

} // verus!
