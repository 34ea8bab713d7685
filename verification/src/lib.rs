//! Lexical scanner for the Titan language.
//!
//! A [`scanner::Context`] holds a source text and a cursor; [`scanner::scan_tokens`] moves the
//! cursor to the end of the text and appends the tokens it finds on the way: keywords,
//! identifiers, negative numbers, quoted literals, separators and operators. Characters that
//! start no lexeme are skipped. A quoted literal that is never closed, or a numeric lexeme
//! that denotes no number, ends the scan with a [`error::ScanError`].
//!
//! What the scanner does is defined in [`grammar`], over plain sequences of characters; what
//! holds of every scan is proved in [`laws`].

pub mod classes;
pub mod error;
pub mod grammar;
pub mod laws;
pub mod number;
pub mod scanner;
pub mod token;
pub mod word;

pub use error::ScanError;
pub use scanner::{scan_tokens, Context};
pub use token::{Token, TokenCategory, TokenType};
