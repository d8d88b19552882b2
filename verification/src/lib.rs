//! A tokenizer for an assembly language whose immediate values are octal
//! literals of nine or twelve bits.
//!
//! [`lexer::Lexer`] turns source text into positioned tokens, one per call.
//! [`model`] holds the mathematical description that the lexer is proved
//! against, and [`laws`] what holds of every token stream.

pub mod laws;
pub mod lemmas;
pub mod lexer;
pub mod model;
pub mod text;
pub mod token;
pub mod word;
