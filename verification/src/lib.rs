//! Lexical and syntactic front end for a small expression language.
//!
//! Source text is scanned into a token stream, and the token stream is
//! parsed into an abstract syntax tree by a recursive-descent,
//! precedence-climbing parser. Malformed input is reported through
//! structured error values that a diagnostics mapper turns into messages
//! and labeled source spans.

pub mod diagnostics;
pub mod expr;
pub mod parser;
pub mod reporting;
pub mod scanner;
pub mod token;
