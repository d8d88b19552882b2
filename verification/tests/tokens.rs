use asm_lexer::lexer::Lexer;
use asm_lexer::token::{Token, TokenValue};
use asm_lexer::word::{U12, U9};

fn all_tokens(input: &str) -> Vec<Token> {
    let mut lexer = Lexer::new("test.s", input);
    let mut out = Vec::new();
    while let Some(token) = lexer.next() {
        out.push(token);
        assert!(out.len() <= input.len() + 1);
    }
    out
}

fn values(input: &str) -> Vec<TokenValue> {
    all_tokens(input).into_iter().map(|t| t.value).collect()
}

fn nine(v: u16) -> TokenValue {
    TokenValue::NineBitLiteral(U9::new(v).unwrap())
}

fn twelve(v: u16) -> TokenValue {
    TokenValue::TwelveBitLiteral(U12::new(v).unwrap())
}

fn symbol(name: &str) -> TokenValue {
    TokenValue::Symbol(String::from(name))
}

fn error(message: &str) -> TokenValue {
    TokenValue::Error(String::from(message))
}

#[test]
fn octal_777_is_a_nine_bit_literal() {
    assert_eq!(values("777"), vec![nine(511)]);
}

#[test]
fn octal_1000_is_a_twelve_bit_literal() {
    assert_eq!(values("1000"), vec![twelve(512)]);
}

#[test]
fn octal_7777_is_a_twelve_bit_literal() {
    assert_eq!(values("7777"), vec![twelve(4095)]);
}

#[test]
fn octal_10000_is_an_error() {
    assert_eq!(values("10000"), vec![error("'10000' is an invalid 12 bit integer")]);
}

#[test]
fn octal_zero_is_a_nine_bit_literal() {
    assert_eq!(values("0"), vec![nine(0)]);
    assert_eq!(values("000"), vec![nine(0)]);
}

#[test]
fn leading_zeros_do_not_change_the_width() {
    assert_eq!(values("0000777"), vec![nine(511)]);
    assert_eq!(values("00001000"), vec![twelve(512)]);
}

#[test]
fn very_long_literal_is_an_error() {
    let digits = "7".repeat(64);
    let message = format!("'{}' is an invalid 12 bit integer", digits);
    assert_eq!(values(&digits), vec![TokenValue::Error(message)]);
}

#[test]
fn literal_stops_at_the_digit_eight() {
    assert_eq!(values("78"), vec![nine(7), error("Invalid token '8'")]);
}

#[test]
fn literal_followed_by_letters() {
    assert_eq!(values("12ab"), vec![nine(10), symbol("ab")]);
}

#[test]
fn symbol_with_digits_and_underscore() {
    let tokens = all_tokens("abc_123 ");
    assert_eq!(tokens.len(), 1);
    assert_eq!(tokens[0].value, symbol("abc_123"));
    assert_eq!(tokens[0].pos, 0);
    assert_eq!(tokens[0].lino, 1);
    assert_eq!(tokens[0].charpos, 0);
}

#[test]
fn symbol_may_begin_with_an_underscore() {
    assert_eq!(values("_x9 Y"), vec![symbol("_x9"), symbol("Y")]);
}

#[test]
fn symbol_may_hold_the_digits_eight_and_nine() {
    assert_eq!(values("r89"), vec![symbol("r89")]);
}

#[test]
fn closed_string_literal() {
    assert_eq!(values("\"hello\""), vec![TokenValue::StringLiteral(String::from("hello"))]);
}

#[test]
fn empty_string_literal() {
    assert_eq!(values("\"\""), vec![TokenValue::StringLiteral(String::new())]);
}

#[test]
fn unterminated_string_is_an_error_with_what_was_read() {
    assert_eq!(values("\"hello"), vec![error("\"hello")]);
}

#[test]
fn lone_quote_is_an_error() {
    assert_eq!(values("\""), vec![error("\"")]);
}

#[test]
fn string_literal_keeps_blanks_comment_marks_and_line_feeds() {
    assert_eq!(
        values("\"a ;b\n\tc\" x"),
        vec![TokenValue::StringLiteral(String::from("a ;b\n\tc")), symbol("x")]
    );
}

#[test]
fn string_literal_has_no_escapes() {
    assert_eq!(
        values("\"a\\\"b"),
        vec![TokenValue::StringLiteral(String::from("a\\")), symbol("b")]
    );
}

#[test]
fn punctuation_tokens() {
    assert_eq!(
        values("():,<>."),
        vec![
            TokenValue::LParen,
            TokenValue::RParen,
            TokenValue::Colon,
            TokenValue::Comma,
            TokenValue::LessThan,
            TokenValue::GreaterThan,
            TokenValue::Dot,
        ]
    );
}

#[test]
fn invalid_character_is_an_error_and_scanning_goes_on() {
    let tokens = all_tokens("# foo");
    assert_eq!(tokens.len(), 2);
    assert_eq!(tokens[0].value, error("Invalid token '#'"));
    assert_eq!(tokens[0].pos, 0);
    assert_eq!(tokens[1].value, symbol("foo"));
    assert_eq!(tokens[1].pos, 2);
    assert_eq!(tokens[1].charpos, 2);
}

#[test]
fn lone_invalid_character() {
    assert_eq!(values("#"), vec![error("Invalid token '#'")]);
}

#[test]
fn invalid_characters_one_after_another() {
    assert_eq!(values("#9"), vec![error("Invalid token '#'"), error("Invalid token '9'")]);
}

#[test]
fn invalid_character_of_several_bytes() {
    let tokens = all_tokens("\u{e9}a");
    assert_eq!(tokens.len(), 2);
    assert_eq!(tokens[0].value, error("Invalid token '\u{e9}'"));
    assert_eq!(tokens[1].value, symbol("a"));
    assert_eq!(tokens[1].pos, 2);
    assert_eq!(tokens[1].charpos, 1);
}

#[test]
fn comment_and_its_line_feed_make_no_token() {
    let tokens = all_tokens("; comment\nfoo");
    assert_eq!(tokens.len(), 1);
    assert_eq!(tokens[0].value, symbol("foo"));
    assert_eq!(tokens[0].lino, 2);
    assert_eq!(tokens[0].charpos, 0);
    assert_eq!(tokens[0].pos, 10);
}

#[test]
fn bare_line_feed_is_a_token() {
    let tokens = all_tokens("\nfoo");
    assert_eq!(tokens.len(), 2);
    assert_eq!(tokens[0].value, TokenValue::Newline);
    assert_eq!(tokens[0].lino, 1);
    assert_eq!(tokens[0].charpos, 0);
    assert_eq!(tokens[1].value, symbol("foo"));
    assert_eq!(tokens[1].lino, 2);
    assert_eq!(tokens[1].charpos, 0);
    assert_eq!(tokens[1].pos, 1);
}

#[test]
fn line_feed_after_a_token_and_after_a_comment() {
    let tokens = all_tokens("a\n; c\n\nb");
    let got: Vec<(usize, usize, usize)> =
        tokens.iter().map(|t| (t.pos, t.lino, t.charpos)).collect();
    assert_eq!(
        values("a\n; c\n\nb"),
        vec![symbol("a"), TokenValue::Newline, TokenValue::Newline, symbol("b")]
    );
    assert_eq!(got, vec![(0, 1, 0), (1, 1, 1), (6, 3, 0), (7, 4, 0)]);
}

#[test]
fn columns_count_every_character_read() {
    let tokens = all_tokens("ab  12\t( \"xy\" z");
    let got: Vec<(usize, usize)> = tokens.iter().map(|t| (t.pos, t.charpos)).collect();
    assert_eq!(got, vec![(0, 0), (4, 4), (7, 7), (9, 9), (14, 14)]);
}

#[test]
fn byte_offsets_count_bytes_and_columns_count_characters() {
    let tokens = all_tokens("\"\u{e9}\u{4e2d}\" x ; \u{1f600}\ny");
    assert_eq!(tokens.len(), 3);
    assert_eq!(tokens[0].value, TokenValue::StringLiteral(String::from("\u{e9}\u{4e2d}")));
    assert_eq!(tokens[1].value, symbol("x"));
    assert_eq!((tokens[1].pos, tokens[1].lino, tokens[1].charpos), (8, 1, 5));
    assert_eq!(tokens[2].value, symbol("y"));
    assert_eq!((tokens[2].pos, tokens[2].lino, tokens[2].charpos), (17, 2, 0));
}

#[test]
fn blanks_and_comments_alone_give_no_token() {
    assert_eq!(values(""), vec![]);
    assert_eq!(values("   \t "), vec![]);
    assert_eq!(values("; only a comment"), vec![]);
    assert_eq!(values(" ; one\n\t; two\n ;"), vec![]);
}

#[test]
fn exhausted_lexer_stays_exhausted() {
    let mut lexer = Lexer::new("test.s", " ; c");
    assert!(lexer.next().is_none());
    assert!(lexer.eof());
    assert!(lexer.next().is_none());
    assert!(lexer.peek().is_none());
    assert!(lexer.eof());
}

#[test]
fn a_line_of_assembly() {
    assert_eq!(
        values("loop: add r1, 0777 ; inc\n .word <4000>\n"),
        vec![
            symbol("loop"),
            TokenValue::Colon,
            symbol("add"),
            symbol("r1"),
            TokenValue::Comma,
            nine(511),
            TokenValue::Dot,
            symbol("word"),
            TokenValue::LessThan,
            twelve(2048),
            TokenValue::GreaterThan,
            TokenValue::Newline,
        ]
    );
}
