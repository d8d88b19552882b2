//! What holds of every token stream.

use crate::lemmas::{
    lemma_byte_len_ascii, lemma_byte_len_push, lemma_next_token, lemma_octal_end,
    lemma_string_end, lemma_symbol_end, lemma_token_at,
};
use crate::model::{
    byte_len, bytes_read, char_width, inside_comment, invalid_literal_message, is_blank,
    is_blank_text, is_octal_digit, is_padded, is_symbol_char, is_symbol_start, next_token,
    octal_end, octal_value, peek_token, scan_state, skip, string_end, symbol_end, token_at,
    token_stream, Cursor, ScanState, SpecToken, SpecTokenValue,
};
use vstd::prelude::*;
use vstd::utf8::{char_is_scalar, encode_scalar, encode_utf8};

verus! {

/// A look ahead and the step after it give the same token, and a look ahead
/// leaves the lexer as it was: a second look ahead gives what the first gave.
pub proof fn law_peek_then_next(text: Seq<char>, cur: Cursor)
    ensures
        next_token(text, peek_token(text, cur).1).0 == peek_token(text, cur).0,
        next_token(text, peek_token(text, cur).1).1 == next_token(text, cur).1,
        peek_token(text, peek_token(text, cur).1) == peek_token(text, cur),
{
}

/// Once a step has given no token, every later step gives none and leaves the
/// cursor at the end of the text.
pub proof fn law_exhaustion_is_final(text: Seq<char>, cur: Cursor)
    requires
        is_padded(text),
        cur.valid_for(text),
        next_token(text, cur).0 is None,
    ensures
        next_token(text, next_token(text, cur).1) == (None::<SpecToken>, next_token(text, cur).1),
{
    lemma_next_token(text, cur);
}

/// Whether a position lies inside a comment depends on the characters before
/// it only.
proof fn lemma_inside_comment_prefix(s: Seq<char>, c: char, i: int)
    requires
        0 <= i <= s.len(),
    ensures
        inside_comment(s.push(c), i) == inside_comment(s, i),
    decreases i,
{
    if i > 0 {
        lemma_inside_comment_prefix(s, c, i - 1);
    }
}

/// From a position after which nothing but blanks and comments stand, passing
/// over blanks and comments leads to the end of the text.
proof fn lemma_skip_blank_text(text: Seq<char>, cur: Cursor, in_comment: bool)
    requires
        cur.index <= text.len(),
        in_comment == inside_comment(text, cur.index as int),
        forall|i: int|
            cur.index <= i < text.len() ==> is_blank(#[trigger] text[i]) || text[i] == ';'
                || inside_comment(text, i),
    ensures
        skip(text, cur, in_comment).index == text.len(),
    decreases text.len() - cur.index,
{
    if cur.index < text.len() {
        let c = text[cur.index as int];
        if in_comment && c == '\n' {
            lemma_skip_blank_text(text, cur.line_break(), false);
        } else if in_comment || is_blank(c) {
            lemma_skip_blank_text(text, cur.step(c), in_comment);
        } else if c == ';' {
            lemma_skip_blank_text(text, cur.step(c), true);
        }
    }
}

/// A lexer over an input of nothing but blanks and comments gives no token:
/// its first step reports exhaustion, with no error before it, and has then
/// read the whole buffer.
pub proof fn law_blank_text_has_no_token(input: Seq<char>)
    requires
        is_blank_text(input),
        byte_len(input) < usize::MAX,
    ensures
        next_token(input.push(' '), Cursor::start()).0 is None,
        next_token(input.push(' '), Cursor::start()).1.index == input.len() + 1,
        token_stream(input.push(' '), Cursor::start()) == Seq::<SpecToken>::empty(),
{
    let text = input.push(' ');
    assert forall|i: int| 0 <= i < text.len() implies is_blank(#[trigger] text[i]) || text[i] == ';'
        || inside_comment(text, i) by {
        if i < input.len() {
            assert(text[i] == input[i]);
            lemma_inside_comment_prefix(input, ' ', i);
        }
    }
    lemma_skip_blank_text(text, Cursor::start(), false);
    lemma_fresh_lexer(input);
}

/// The buffer of a lexer over `input` is padded, and its first cursor is a
/// position of it.
pub proof fn lemma_fresh_lexer(input: Seq<char>)
    requires
        byte_len(input) < usize::MAX,
    ensures
        is_padded(input.push(' ')),
        Cursor::start().valid_for(input.push(' ')),
        byte_len(input.push(' ')) == byte_len(input) + 1,
{
    lemma_byte_len_push(input, ' ');
    assert(input.push(' ').take(0) == Seq::<char>::empty());
}

/// The spans that successive steps read lie end to end and cover the text:
/// from any position, the steps up to and including the one that gives no
/// token read every byte from that position to the end of the buffer.
pub proof fn law_steps_read_the_rest(text: Seq<char>, cur: Cursor)
    requires
        is_padded(text),
        cur.valid_for(text),
    ensures
        cur.pos + bytes_read(text, cur) == byte_len(text),
    decreases text.len() - cur.index,
{
    lemma_next_token(text, cur);
    if next_token(text, cur).0 is Some {
        law_steps_read_the_rest(text, next_token(text, cur).1);
    }
}

/// From the beginning of an input, the steps up to and including the one that
/// gives no token read as many bytes as the input has, and the one byte of
/// the pad.
pub proof fn law_steps_read_the_input(input: Seq<char>)
    requires
        byte_len(input) < usize::MAX,
    ensures
        bytes_read(input.push(' '), Cursor::start()) == byte_len(input) + 1,
{
    lemma_fresh_lexer(input);
    law_steps_read_the_rest(input.push(' '), Cursor::start());
}

/// A symbol is a longest run of symbol characters: it begins with a letter or
/// an underscore, holds symbol characters only, and the character after it is
/// none. Its name is what was read, one byte and one column for each
/// character.
pub proof fn law_symbol_is_a_longest_run(text: Seq<char>, at: Cursor)
    requires
        is_padded(text),
        at.valid_for(text),
        at.index < text.len(),
        scan_state(text[at.index as int]) == ScanState::Symbol,
    ensures
        ({
            let (value, after) = token_at(text, at);
            &&& value is Symbol
            &&& at.index < after.index < text.len()
            &&& value->Symbol_0 == text.subrange(at.index as int, after.index as int)
            &&& is_symbol_start(text[at.index as int])
            &&& forall|k: int| at.index <= k < after.index ==> is_symbol_char(#[trigger] text[k])
            &&& !is_symbol_char(text[after.index as int])
            &&& after.pos == at.pos + (after.index - at.index)
            &&& after.charpos == at.charpos + (after.index - at.index)
            &&& after.lino == at.lino
        }),
{
    lemma_token_at(text, at);
    lemma_symbol_end(text, at.index + 1);
    let end = symbol_end(text, at.index + 1);
    lemma_byte_len_ascii(text.subrange(at.index as int, end as int));
}

/// An octal literal is a longest run of octal digits, and its token goes by
/// the number that the digits write: a nine-bit literal below 512, a
/// twelve-bit literal from 512 up to 4095, an error from 4096 on.
pub proof fn law_literal_is_a_longest_run(text: Seq<char>, at: Cursor)
    requires
        is_padded(text),
        at.valid_for(text),
        at.index < text.len(),
        scan_state(text[at.index as int]) == ScanState::Literal,
    ensures
        ({
            let (value, after) = token_at(text, at);
            let digits = text.subrange(at.index as int, after.index as int);
            &&& at.index < after.index < text.len()
            &&& forall|k: int| at.index <= k < after.index ==> is_octal_digit(#[trigger] text[k])
            &&& !is_octal_digit(text[after.index as int])
            &&& octal_value(digits) < 512 ==> value == SpecTokenValue::NineBitLiteral(
                octal_value(digits),
            )
            &&& 512 <= octal_value(digits) < 4096 ==> value == SpecTokenValue::TwelveBitLiteral(
                octal_value(digits),
            )
            &&& 4096 <= octal_value(digits) ==> value == SpecTokenValue::Error(
                invalid_literal_message(digits),
            )
            &&& after.pos == at.pos + (after.index - at.index)
            &&& after.charpos == at.charpos + (after.index - at.index)
            &&& after.lino == at.lino
        }),
{
    lemma_token_at(text, at);
    lemma_octal_end(text, at.index + 1);
    let end = octal_end(text, at.index + 1);
    lemma_byte_len_ascii(text.subrange(at.index as int, end as int));
}

/// A string literal runs from its opening double quote up to the next one,
/// which is read with it, and its contents are the characters between the
/// two. Where no double quote follows, the token is an error whose message is
/// the opening double quote and all that follows it up to the pad, and the
/// pad is left unread.
pub proof fn law_string_runs_to_the_next_quote(text: Seq<char>, at: Cursor)
    requires
        is_padded(text),
        at.valid_for(text),
        at.index < text.len(),
        scan_state(text[at.index as int]) == ScanState::Text,
    ensures
        ({
            let (value, after) = token_at(text, at);
            let closed = exists|k: int| at.index < k < text.len() && text[k] == '"';
            &&& closed ==> {
                &&& value is StringLiteral
                &&& text[after.index - 1] == '"'
                &&& value->StringLiteral_0 == text.subrange((at.index + 1) as int, after.index - 1)
                &&& forall|k: int| at.index < k < after.index - 1 ==> #[trigger] text[k] != '"'
            }
            &&& !closed ==> {
                &&& value is Error
                &&& after.index == text.len() - 1
                &&& value->Error_0 == text.subrange(at.index as int, text.len() - 1)
            }
            &&& at.index < after.index < text.len()
            &&& after.charpos == at.charpos + (after.index - at.index)
            &&& after.lino == at.lino
        }),
{
    lemma_token_at(text, at);
    lemma_string_end(text, at.index + 1);
    let end = string_end(text, at.index + 1);
    if text[end as int] == '"' {
        assert(at.index < end < text.len() && text[end as int] == '"');
    }
}

/// The UTF-8 encoding of a sequence with one more character is the encoding
/// of the sequence, followed by that of the character.
proof fn lemma_encode_utf8_push(s: Seq<char>, c: char)
    ensures
        encode_utf8(s.push(c)) == encode_utf8(s) + encode_scalar(c as u32),
    decreases s.len(),
{
    if s.len() == 0 {
        assert(s.push(c).drop_first() == s);
        assert(encode_utf8(s.push(c)) == encode_scalar(c as u32) + encode_utf8(s));
        assert(encode_utf8(s) + encode_scalar(c as u32) == encode_scalar(c as u32) + encode_utf8(s));
    } else {
        lemma_encode_utf8_push(s.drop_first(), c);
        assert(s.push(c).drop_first() == s.drop_first().push(c));
        assert(encode_utf8(s.push(c)) == encode_scalar(s[0] as u32) + (encode_utf8(s.drop_first())
            + encode_scalar(c as u32)));
        assert(encode_scalar(s[0] as u32) + (encode_utf8(s.drop_first()) + encode_scalar(c as u32))
            == (encode_scalar(s[0] as u32) + encode_utf8(s.drop_first())) + encode_scalar(
            c as u32,
        ));
    }
}

/// Byte lengths are lengths in UTF-8: the length that `str::len` gives for a
/// string of these characters.
pub proof fn law_byte_len_is_utf8_length(s: Seq<char>)
    ensures
        byte_len(s) == encode_utf8(s).len(),
    decreases s.len(),
{
    if s.len() > 0 {
        law_byte_len_is_utf8_length(s.drop_last());
        lemma_encode_utf8_push(s.drop_last(), s.last());
        assert(s.drop_last().push(s.last()) == s);
        lemma_char_width(s.last());
    }
}

/// The width of a character is the length of its UTF-8 encoding.
proof fn lemma_char_width(c: char)
    ensures
        char_width(c) == encode_scalar(c as u32).len(),
{
    char_is_scalar(c);
    let v = c as u32;
    assert(c <= '\u{7f}' <==> v <= 0x7f);
    assert(c <= '\u{7ff}' <==> v <= 0x7ff);
    assert(c <= '\u{ffff}' <==> v <= 0xffff);
}

} // verus!
