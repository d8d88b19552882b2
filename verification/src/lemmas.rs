//! Facts about byte lengths and runs of characters that the lexer's proofs
//! rest on.

use crate::model::{
    byte_len, char_width, is_blank, is_octal_digit, is_padded, is_symbol_char, next_token,
    octal_end, octal_value, skip, string_end, symbol_end, token_at, Cursor, SpecTokenValue,
};
use vstd::prelude::*;

verus! {

/// Appending one character adds its width.
pub proof fn lemma_byte_len_push(s: Seq<char>, c: char)
    ensures
        byte_len(s.push(c)) == byte_len(s) + char_width(c),
{
    assert(s.push(c).drop_last() == s);
}

/// The byte length of a concatenation is the sum of the byte lengths.
pub proof fn lemma_byte_len_concat(a: Seq<char>, b: Seq<char>)
    ensures
        byte_len(a + b) == byte_len(a) + byte_len(b),
    decreases b.len(),
{
    if b.len() == 0 {
        assert(a + b == a);
    } else {
        lemma_byte_len_concat(a, b.drop_last());
        assert((a + b).drop_last() == a + b.drop_last());
    }
}

/// Every character takes at least one byte and at most four.
pub proof fn lemma_byte_len_bounds(s: Seq<char>)
    ensures
        s.len() <= byte_len(s) <= 4 * s.len(),
    decreases s.len(),
{
    if s.len() > 0 {
        lemma_byte_len_bounds(s.drop_last());
    }
}

/// The bytes before index `j` are those before index `i` and those of the
/// characters from `i` up to `j`.
pub proof fn lemma_byte_len_split(text: Seq<char>, i: int, j: int)
    requires
        0 <= i <= j <= text.len(),
    ensures
        byte_len(text.take(j)) == byte_len(text.take(i)) + byte_len(text.subrange(i, j)),
        byte_len(text.take(i)) <= byte_len(text.take(j)) <= byte_len(text),
{
    lemma_byte_len_concat(text.take(i), text.subrange(i, j));
    assert(text.take(i) + text.subrange(i, j) == text.take(j));
    lemma_byte_len_concat(text.take(j), text.skip(j));
    assert(text.take(j) + text.skip(j) == text);
}

/// Reading one more character moves the byte offset on by its width.
pub proof fn lemma_byte_len_step(text: Seq<char>, i: int)
    requires
        0 <= i < text.len(),
    ensures
        byte_len(text.take(i + 1)) == byte_len(text.take(i)) + char_width(text[i]),
        byte_len(text.take(i + 1)) <= byte_len(text),
        byte_len(text.take(i)) < byte_len(text),
{
    assert(text.take(i + 1) == text.take(i).push(text[i]));
    lemma_byte_len_push(text.take(i), text[i]);
    lemma_byte_len_split(text, i + 1, text.len() as int);
    assert(text.take(text.len() as int) == text);
}

/// Extending a span by one character adds that character's width.
pub proof fn lemma_byte_len_span_step(text: Seq<char>, i: int, j: int)
    requires
        0 <= i <= j < text.len(),
    ensures
        byte_len(text.subrange(i, j + 1)) == byte_len(text.subrange(i, j)) + char_width(text[j]),
{
    assert(text.subrange(i, j + 1) == text.subrange(i, j).push(text[j]));
    lemma_byte_len_push(text.subrange(i, j), text[j]);
}

/// Characters of one byte each take as many bytes as they are.
pub proof fn lemma_byte_len_ascii(s: Seq<char>)
    requires
        forall|k: int| 0 <= k < s.len() ==> #[trigger] s[k] <= '\u{7f}',
    ensures
        byte_len(s) == s.len(),
    decreases s.len(),
{
    if s.len() > 0 {
        assert(s.last() == s[s.len() - 1]);
        lemma_byte_len_ascii(s.drop_last());
    }
}

/// Reading one more digit multiplies the value by eight and adds the digit.
pub proof fn lemma_octal_value_step(text: Seq<char>, i: int, j: int)
    requires
        0 <= i <= j < text.len(),
    ensures
        octal_value(text.subrange(i, j + 1)) == octal_value(text.subrange(i, j)) * 8 + (
        text[j] as nat - '0' as nat) as nat,
{
    assert(text.subrange(i, j + 1).drop_last() == text.subrange(i, j));
}

/// Reading up to where the cursor already stands changes nothing.
pub proof fn lemma_advance_none(text: Seq<char>, at: Cursor)
    requires
        at.index <= text.len(),
    ensures
        at.advance_to(text, at.index) == at,
{
    assert(text.subrange(at.index as int, at.index as int).len() == 0);
}

/// Reading up to index `i` and then the character at `i` is reading up to
/// index `i + 1`.
pub proof fn lemma_advance_step(text: Seq<char>, at: Cursor, i: nat)
    requires
        at.index <= i < text.len(),
    ensures
        at.advance_to(text, i).step(text[i as int]) == at.advance_to(text, i + 1),
{
    lemma_byte_len_span_step(text, at.index as int, i as int);
}

/// A run of symbol characters ends within the text, holds symbol characters
/// only, and is followed by none.
pub proof fn lemma_symbol_end(text: Seq<char>, from: nat)
    requires
        from <= text.len(),
    ensures
        from <= symbol_end(text, from) <= text.len(),
        forall|k: int| from <= k < symbol_end(text, from) ==> is_symbol_char(#[trigger] text[k]),
        symbol_end(text, from) < text.len() ==> !is_symbol_char(
            text[symbol_end(text, from) as int],
        ),
    decreases text.len() - from,
{
    if from < text.len() && is_symbol_char(text[from as int]) {
        lemma_symbol_end(text, from + 1);
    }
}

/// A run of octal digits ends within the text, holds octal digits only, and
/// is followed by none.
pub proof fn lemma_octal_end(text: Seq<char>, from: nat)
    requires
        from <= text.len(),
    ensures
        from <= octal_end(text, from) <= text.len(),
        forall|k: int| from <= k < octal_end(text, from) ==> is_octal_digit(#[trigger] text[k]),
        octal_end(text, from) < text.len() ==> !is_octal_digit(text[octal_end(text, from) as int]),
    decreases text.len() - from,
{
    if from < text.len() && is_octal_digit(text[from as int]) {
        lemma_octal_end(text, from + 1);
    }
}

/// The contents of a string literal end at or before the last character of
/// the text, hold no double quote, and end before the last character only at
/// a double quote.
pub proof fn lemma_string_end(text: Seq<char>, from: nat)
    requires
        from < text.len(),
    ensures
        from <= string_end(text, from) < text.len(),
        forall|k: int| from <= k < string_end(text, from) ==> #[trigger] text[k] != '"',
        string_end(text, from) + 1 < text.len() ==> text[string_end(text, from) as int] == '"',
    decreases text.len() - from,
{
    if from + 1 < text.len() && text[from as int] != '"' {
        lemma_string_end(text, from + 1);
    }
}

/// Reading on from a position of the text up to a later index gives a
/// position of the text again.
pub proof fn lemma_advance_valid(text: Seq<char>, at: Cursor, end: nat)
    requires
        at.valid_for(text),
        at.index <= end <= text.len(),
    ensures
        at.advance_to(text, end).valid_for(text),
        at.pos + (end - at.index) <= at.advance_to(text, end).pos,
{
    lemma_byte_len_split(text, at.index as int, end as int);
    lemma_byte_len_bounds(text.subrange(at.index as int, end as int));
}

/// Passing over blanks and comments leads from a position of the text to a
/// later one, which is the end of the text or holds a character that is
/// neither a blank nor a semicolon.
pub proof fn lemma_skip(text: Seq<char>, cur: Cursor, in_comment: bool)
    requires
        cur.valid_for(text),
    ensures
        skip(text, cur, in_comment).valid_for(text),
        cur.index <= skip(text, cur, in_comment).index,
        cur.pos <= skip(text, cur, in_comment).pos,
        skip(text, cur, in_comment).index < text.len() ==> {
            let c = text[skip(text, cur, in_comment).index as int];
            !is_blank(c) && c != ';'
        },
    decreases text.len() - cur.index,
{
    if cur.index < text.len() {
        let c = text[cur.index as int];
        lemma_byte_len_step(text, cur.index as int);
        if in_comment && c == '\n' {
            lemma_skip(text, cur.line_break(), false);
        } else if in_comment || is_blank(c) {
            lemma_skip(text, cur.step(c), in_comment);
        } else if c == ';' {
            lemma_skip(text, cur.step(c), true);
        }
    }
}

/// A token that begins at a position of a padded text is a classified one,
/// reads at least one character, leaves the pad unread, and a literal lies in
/// the range of its width.
pub proof fn lemma_token_at(text: Seq<char>, at: Cursor)
    requires
        is_padded(text),
        at.valid_for(text),
        at.index < text.len(),
        !is_blank(text[at.index as int]),
    ensures
        token_at(text, at).1.valid_for(text),
        at.index < token_at(text, at).1.index < text.len(),
        at.pos < token_at(text, at).1.pos,
        token_at(text, at).0 != SpecTokenValue::Unclassified,
        token_at(text, at).0 matches SpecTokenValue::NineBitLiteral(n) ==> n < 512,
        token_at(text, at).0 matches SpecTokenValue::TwelveBitLiteral(n) ==> 512 <= n < 4096,
{
    let last = (text.len() - 1) as nat;
    assert(text[last as int] == ' ');
    assert(at.index < last);
    lemma_byte_len_step(text, at.index as int);
    lemma_symbol_end(text, at.index + 1);
    lemma_octal_end(text, at.index + 1);
    lemma_string_end(text, at.index + 1);
    let end = string_end(text, at.index + 1);
    lemma_advance_valid(text, at, symbol_end(text, at.index + 1));
    lemma_advance_valid(text, at, octal_end(text, at.index + 1));
    lemma_advance_valid(text, at, end);
    if end + 1 <= text.len() {
        lemma_advance_valid(text, at, end + 1);
    }
}

/// A step from a position of a padded text leads to a position of that text.
/// Where it gives no token it has read the whole text; where it gives one,
/// the token begins at or after the position, reads at least one character
/// and leaves the pad unread.
pub proof fn lemma_next_token(text: Seq<char>, cur: Cursor)
    requires
        is_padded(text),
        cur.valid_for(text),
    ensures
        next_token(text, cur).1.valid_for(text),
        cur.pos <= next_token(text, cur).1.pos <= byte_len(text),
        next_token(text, cur).0 is None ==> next_token(text, cur).1.index == text.len()
            && next_token(text, cur).1.pos == byte_len(text),
        next_token(text, cur).0 matches Some(token) ==> {
            &&& cur.index < next_token(text, cur).1.index < text.len()
            &&& cur.pos <= token.pos < next_token(text, cur).1.pos
            &&& token.value != SpecTokenValue::Unclassified
        },
{
    let at = skip(text, cur, false);
    lemma_skip(text, cur, false);
    if at.index < text.len() {
        lemma_token_at(text, at);
    }
    let after = next_token(text, cur).1;
    lemma_byte_len_split(text, after.index as int, text.len() as int);
    assert(text.take(text.len() as int) == text);
}

} // verus!
