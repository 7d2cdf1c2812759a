//! Lexical errors, each carrying the 1-based line and the character offset
//! of the construct that failed.

use vstd::prelude::*;

use crate::scanner::model::SpecLexError;

verus! {

/// A lexical error.
///
/// `InvalidCharacter` names the offending character; scanning may continue
/// on the next step. `UnterminatedString` and
/// `MissingBlockCommentTerminator` name where the open construct starts;
/// after either, the scanner has discarded the remaining input. The
/// `offset` is the character index of the failure start in the source
/// buffer (the invalid character, the opening quote, or the opening `/*`).
#[derive(Debug, Clone, PartialEq)]
pub enum Error {
    InvalidCharacter { character: char, line: usize, offset: usize },
    UnterminatedString { line: usize, offset: usize },
    MissingBlockCommentTerminator { line: usize, offset: usize },
}

impl View for Error {
    type V = SpecLexError;

    open spec fn view(&self) -> SpecLexError {
        match self {
            Error::InvalidCharacter { character, line, offset } => SpecLexError::InvalidCharacter {
                character: *character,
                line: *line as nat,
                offset: *offset as nat,
            },
            Error::UnterminatedString { line, offset } => SpecLexError::UnterminatedString {
                line: *line as nat,
                offset: *offset as nat,
            },
            Error::MissingBlockCommentTerminator { line, offset } => {
                SpecLexError::MissingBlockCommentTerminator {
                    line: *line as nat,
                    offset: *offset as nat,
                }
            },
        }
    }
}

} // verus!
