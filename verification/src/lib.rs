//! A lexical scanner for a small Lox-style scripting language.
//!
//! [`scan`] reads a source text into its tokens and its lexical errors; [`Scanner`] is the
//! cursor that does the reading, one lexeme at a time. What the tokens and errors of a
//! text are is defined in [`grammar`], every function here is proved against it, and
//! [`laws`] holds what follows for every scan.

pub mod bytes;
pub mod error;
pub mod grammar;
pub mod keyword;
pub mod laws;
pub mod scanner;
pub mod text;
pub mod token;

pub use error::ScanError;
pub use scanner::{scan, Scanner};
pub use token::{Token, TokenType};
