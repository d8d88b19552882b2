//! Tokens as the lexer hands them out.

use crate::model::{SpecToken, SpecTokenValue};
use crate::word::{U12, U9};
use vstd::prelude::*;

verus! {

/// What a token is, apart from where it stands.
#[derive(Clone, Debug, PartialEq, Eq)]
pub enum TokenValue {
    /// No token: nothing has been classified yet. The lexer never hands out a
    /// token with this value.
    Unclassified,
    /// A lexical error, with its message.
    Error(String),
    /// `(`
    LParen,
    /// `)`
    RParen,
    /// `:`
    Colon,
    /// `,`
    Comma,
    /// A line feed outside a comment.
    Newline,
    /// `<`
    LessThan,
    /// `>`
    GreaterThan,
    /// `.`
    Dot,
    /// An identifier, with its name.
    Symbol(String),
    /// An octal literal below 512.
    NineBitLiteral(U9),
    /// An octal literal from 512 up to 4095.
    TwelveBitLiteral(U12),
    /// A string literal, with the characters between its quotes.
    StringLiteral(String),
}

impl View for TokenValue {
    type V = SpecTokenValue;

    open spec fn view(&self) -> SpecTokenValue {
        match self {
            TokenValue::Unclassified => SpecTokenValue::Unclassified,
            TokenValue::Error(message) => SpecTokenValue::Error(message@),
            TokenValue::LParen => SpecTokenValue::LParen,
            TokenValue::RParen => SpecTokenValue::RParen,
            TokenValue::Colon => SpecTokenValue::Colon,
            TokenValue::Comma => SpecTokenValue::Comma,
            TokenValue::Newline => SpecTokenValue::Newline,
            TokenValue::LessThan => SpecTokenValue::LessThan,
            TokenValue::GreaterThan => SpecTokenValue::GreaterThan,
            TokenValue::Dot => SpecTokenValue::Dot,
            TokenValue::Symbol(name) => SpecTokenValue::Symbol(name@),
            TokenValue::NineBitLiteral(n) => SpecTokenValue::NineBitLiteral(n@),
            TokenValue::TwelveBitLiteral(n) => SpecTokenValue::TwelveBitLiteral(n@),
            TokenValue::StringLiteral(contents) => SpecTokenValue::StringLiteral(contents@),
        }
    }
}

/// A token with the position at which it begins.
#[derive(Clone, Debug, PartialEq, Eq)]
pub struct Token {
    /// The byte offset of the token's first character.
    pub pos: usize,
    /// The line on which the token begins; the first line is line 1.
    pub lino: usize,
    /// The column at which the token begins.
    pub charpos: usize,
    /// What the token is.
    pub value: TokenValue,
}

impl View for Token {
    type V = SpecToken;

    open spec fn view(&self) -> SpecToken {
        SpecToken {
            pos: self.pos as nat,
            lino: self.lino as nat,
            charpos: self.charpos as nat,
            value: self.value@,
        }
    }
}

/// The model of what a step of the lexer returned.
pub open spec fn token_view(token: Option<Token>) -> Option<SpecToken> {
    match token {
        Some(t) => Some(t@),
        None => None,
    }
}

} // verus!
