//! Executable work on characters and strings.

use crate::model;
use crate::model::ScanState;
use crate::token::TokenValue;
use vstd::string::StringExecFns;
use vstd::prelude::*;

verus! {

/// `String::push` appends the one character `c` to the string.
pub assume_specification[ String::push ](s: &mut String, c: char)
    ensures
        final(s)@ == old(s)@.push(c),
;

/// Whether `c` is a space or a tab.
pub fn is_blank(c: char) -> (r: bool)
    ensures
        r == model::is_blank(c),
{
    c == ' ' || c == '\t'
}

/// Whether `c` may begin a symbol.
pub fn is_symbol_start(c: char) -> (r: bool)
    ensures
        r == model::is_symbol_start(c),
{
    ('a' <= c && c <= 'z') || ('A' <= c && c <= 'Z') || c == '_'
}

/// Whether `c` may continue a symbol.
pub fn is_symbol_char(c: char) -> (r: bool)
    ensures
        r == model::is_symbol_char(c),
{
    ('a' <= c && c <= 'z') || ('A' <= c && c <= 'Z') || ('0' <= c && c <= '9') || c == '_'
}

/// Whether `c` is one of the digits `0` to `7`.
pub fn is_octal_digit(c: char) -> (r: bool)
    ensures
        r == model::is_octal_digit(c),
{
    '0' <= c && c <= '7'
}

/// The token that the single character `c` makes, if it makes one.
pub fn punctuation(c: char) -> (r: Option<TokenValue>)
    ensures
        r is Some <==> model::punctuation(c) is Some,
        r is Some ==> model::punctuation(c) == Some(r->0@),
{
    if c == '(' {
        Some(TokenValue::LParen)
    } else if c == ')' {
        Some(TokenValue::RParen)
    } else if c == ':' {
        Some(TokenValue::Colon)
    } else if c == ',' {
        Some(TokenValue::Comma)
    } else if c == '\n' {
        Some(TokenValue::Newline)
    } else if c == '<' {
        Some(TokenValue::LessThan)
    } else if c == '>' {
        Some(TokenValue::GreaterThan)
    } else if c == '.' {
        Some(TokenValue::Dot)
    } else {
        None
    }
}

/// The state that the first character `c` of a token puts the scanner in.
pub fn start_state(c: char) -> (r: ScanState)
    ensures
        r == model::scan_state(c),
{
    if punctuation(c).is_some() {
        ScanState::SingleChar
    } else if is_symbol_start(c) {
        ScanState::Symbol
    } else if is_octal_digit(c) {
        ScanState::Literal
    } else if c == '"' {
        ScanState::Text
    } else {
        ScanState::Idle
    }
}

/// The value of the octal digit `c`.
pub fn octal_digit_value(c: char) -> (r: u16)
    requires
        model::is_octal_digit(c),
    ensures
        r == c as nat - '0' as nat,
        r < 8,
{
    (c as u32 - '0' as u32) as u16
}

/// The message of the error for a character that begins no token.
pub fn invalid_token_message(c: char) -> (r: String)
    ensures
        r@ == model::invalid_token_message(c),
{
    let mut message = "Invalid token '".to_owned();
    message.push(c);
    message.push('\'');
    message
}

/// The message of the error for an octal literal of 4096 or more.
pub fn invalid_literal_message(digits: &str) -> (r: String)
    ensures
        r@ == model::invalid_literal_message(digits@),
{
    let mut message = "'".to_owned();
    message.append(digits);
    message.append("' is an invalid 12 bit integer");
    message
}

/// The number of bytes that `c` takes in UTF-8.
pub fn utf8_width(c: char) -> (r: usize)
    ensures
        r == model::char_width(c),
        1 <= r <= 4,
{
    if c <= '\u{7f}' {
        1
    } else if c <= '\u{7ff}' {
        2
    } else if c <= '\u{ffff}' {
        3
    } else {
        4
    }
}

/// The characters of `s`, in order.
pub fn to_chars(s: &str) -> (r: Vec<char>)
    ensures
        r@ == s@,
{
    let mut out: Vec<char> = Vec::new();
    let it = s.chars();
    for c in iter: it
        invariant
            iter.seq() == s@,
            out@ == s@.take(iter.index()),
    {
        out.push(c);
        assert(s@.take(iter.index() + 1) == s@.take(iter.index()).push(s@[iter.index()]));
    }
    assert(s@.take(s@.len() as int) == s@);
    out
}

/// The characters of `text` from index `from` up to index `to`, as a string.
pub fn substring(text: &Vec<char>, from: usize, to: usize) -> (r: String)
    requires
        from <= to <= text@.len(),
    ensures
        r@ == text@.subrange(from as int, to as int),
{
    let mut out = String::new();
    let mut i: usize = from;
    while i < to
        invariant
            from <= i <= to <= text@.len(),
            out@ == text@.subrange(from as int, i as int),
        decreases to - i,
    {
        out.push(text[i]);
        i += 1;
        assert(text@.subrange(from as int, i as int) == text@.subrange(from as int, i - 1).push(
            text@[i - 1],
        ));
    }
    out
}

} // verus!
