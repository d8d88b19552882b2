use asm_lexer::model::ScanState;
use asm_lexer::text::{
    invalid_literal_message, invalid_token_message, is_blank, is_octal_digit, is_symbol_char,
    is_symbol_start, octal_digit_value, punctuation, start_state, substring, to_chars, utf8_width,
};
use asm_lexer::token::TokenValue;

#[test]
fn blanks_are_space_and_tab() {
    assert!(is_blank(' '));
    assert!(is_blank('\t'));
    assert!(!is_blank('\n'));
    assert!(!is_blank('\r'));
    assert!(!is_blank(';'));
    assert!(!is_blank('\u{a0}'));
}

#[test]
fn symbol_characters() {
    for c in ['a', 'z', 'A', 'Z', '_', 'm'] {
        assert!(is_symbol_start(c));
        assert!(is_symbol_char(c));
    }
    for c in ['0', '7', '8', '9'] {
        assert!(!is_symbol_start(c));
        assert!(is_symbol_char(c));
    }
    for c in ['`', '{', '@', '[', '-', ' ', '\u{e9}', '/', ':'] {
        assert!(!is_symbol_start(c));
        assert!(!is_symbol_char(c));
    }
}

#[test]
fn octal_digits_end_at_seven() {
    for c in ['0', '1', '7'] {
        assert!(is_octal_digit(c));
    }
    for c in ['8', '9', '/', 'a'] {
        assert!(!is_octal_digit(c));
    }
}

#[test]
fn octal_digit_values() {
    assert_eq!(octal_digit_value('0'), 0);
    assert_eq!(octal_digit_value('5'), 5);
    assert_eq!(octal_digit_value('7'), 7);
}

#[test]
fn widths_in_utf8() {
    assert_eq!(utf8_width('\0'), 1);
    assert_eq!(utf8_width('\u{7f}'), 1);
    assert_eq!(utf8_width('\u{80}'), 2);
    assert_eq!(utf8_width('\u{7ff}'), 2);
    assert_eq!(utf8_width('\u{800}'), 3);
    assert_eq!(utf8_width('\u{ffff}'), 3);
    assert_eq!(utf8_width('\u{10000}'), 4);
    assert_eq!(utf8_width('\u{10ffff}'), 4);
    for c in ['a', '\u{e9}', '\u{4e2d}', '\u{1f600}', '\u{d7ff}', '\u{e000}'] {
        assert_eq!(utf8_width(c), c.len_utf8());
    }
}

#[test]
fn characters_of_a_string() {
    assert_eq!(to_chars(""), Vec::<char>::new());
    assert_eq!(to_chars("a\u{e9}\u{1f600}"), vec!['a', '\u{e9}', '\u{1f600}']);
}

#[test]
fn substring_of_characters() {
    let text = vec!['a', '\u{e9}', 'c', 'd'];
    assert_eq!(substring(&text, 0, 4), "a\u{e9}cd");
    assert_eq!(substring(&text, 1, 3), "\u{e9}c");
    assert_eq!(substring(&text, 2, 2), "");
    assert_eq!(substring(&text, 4, 4), "");
}

#[test]
fn punctuation_characters() {
    assert_eq!(punctuation('('), Some(TokenValue::LParen));
    assert_eq!(punctuation(')'), Some(TokenValue::RParen));
    assert_eq!(punctuation(':'), Some(TokenValue::Colon));
    assert_eq!(punctuation(','), Some(TokenValue::Comma));
    assert_eq!(punctuation('\n'), Some(TokenValue::Newline));
    assert_eq!(punctuation('<'), Some(TokenValue::LessThan));
    assert_eq!(punctuation('>'), Some(TokenValue::GreaterThan));
    assert_eq!(punctuation('.'), Some(TokenValue::Dot));
    assert_eq!(punctuation(';'), None);
    assert_eq!(punctuation('a'), None);
    assert_eq!(punctuation('"'), None);
}

#[test]
fn first_character_decides_the_state() {
    assert_eq!(start_state('('), ScanState::SingleChar);
    assert_eq!(start_state('\n'), ScanState::SingleChar);
    assert_eq!(start_state('_'), ScanState::Symbol);
    assert_eq!(start_state('q'), ScanState::Symbol);
    assert_eq!(start_state('0'), ScanState::Literal);
    assert_eq!(start_state('7'), ScanState::Literal);
    assert_eq!(start_state('"'), ScanState::Text);
    assert_eq!(start_state('8'), ScanState::Idle);
    assert_eq!(start_state('#'), ScanState::Idle);
    assert_eq!(start_state(' '), ScanState::Idle);
    assert_eq!(start_state('\''), ScanState::Idle);
}

#[test]
fn error_messages() {
    assert_eq!(invalid_token_message('#'), "Invalid token '#'");
    assert_eq!(invalid_token_message('\''), "Invalid token '''");
    assert_eq!(invalid_literal_message("10000"), "'10000' is an invalid 12 bit integer");
}
