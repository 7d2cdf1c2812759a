//! Category-mismatch errors: one per operator/terminal category, each
//! naming the offending token.

use vstd::prelude::*;

use crate::token::{SpecToken, Token};

verus! {

/// The error of a failed category conversion: the token did not belong to
/// the category named by the variant.
#[derive(Debug, Clone, PartialEq)]
pub enum Error {
    UnaryOperator(Token),
    BinaryOperator(Token),
    ComparisonOperator(Token),
    FactorOperator(Token),
    TermOperator(Token),
    CommaOperator(Token),
    TernaryThenOperator(Token),
    TernaryElseOperator(Token),
    Literal(Token),
}

/// The mathematical value of a category-mismatch error.
pub enum SpecCategoryError {
    UnaryOperator(SpecToken),
    BinaryOperator(SpecToken),
    ComparisonOperator(SpecToken),
    FactorOperator(SpecToken),
    TermOperator(SpecToken),
    CommaOperator(SpecToken),
    TernaryThenOperator(SpecToken),
    TernaryElseOperator(SpecToken),
    Literal(SpecToken),
}

impl View for Error {
    type V = SpecCategoryError;

    open spec fn view(&self) -> SpecCategoryError {
        match self {
            Error::UnaryOperator(t) => SpecCategoryError::UnaryOperator(t@),
            Error::BinaryOperator(t) => SpecCategoryError::BinaryOperator(t@),
            Error::ComparisonOperator(t) => SpecCategoryError::ComparisonOperator(t@),
            Error::FactorOperator(t) => SpecCategoryError::FactorOperator(t@),
            Error::TermOperator(t) => SpecCategoryError::TermOperator(t@),
            Error::CommaOperator(t) => SpecCategoryError::CommaOperator(t@),
            Error::TernaryThenOperator(t) => SpecCategoryError::TernaryThenOperator(t@),
            Error::TernaryElseOperator(t) => SpecCategoryError::TernaryElseOperator(t@),
            Error::Literal(t) => SpecCategoryError::Literal(t@),
        }
    }
}

} // verus!
