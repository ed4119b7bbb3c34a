//! A lexical scanner for the Lox scripting language.
//!
//! The scanner walks a character stream, classifies lexemes, tracks line and
//! column, and reports malformed input as values without giving up the scan.
//! Every executable function carries a contract over a mathematical model of
//! the input: a sequence of characters and a position in it.

pub mod chars;
pub mod text;
pub mod source;
pub mod tokens;
pub mod grammar;
pub mod scanner;
pub mod driver;
pub mod laws;
