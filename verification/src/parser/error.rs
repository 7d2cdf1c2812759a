//! Structural parse errors, each carrying the already-parsed partial state
//! for diagnostics.

use vstd::prelude::*;

use crate::expr::Expr;
use crate::parser::model::SpecParseError;
use crate::token::Token;

verus! {

/// A structural parse error. `GroupingNotClosed` carries the parsed inner
/// expression; the ternary errors carry the condition (`question`), and
/// whatever of the then branch and the two operator tokens had been
/// consumed when the expected piece was missing.
#[derive(Debug, PartialEq)]
pub enum Error {
    GroupingNotClosed { left_paren: Token, expr: Expr },
    GroupingMissingExpression { left_paren: Token },
    TernaryMissingThenBranch { question: Expr, then_operator: Token },
    TernaryMissingElseOperator { question: Expr, then_operator: Token, then_branch: Expr },
    TernaryMissingElseBranch {
        question: Expr,
        then_operator: Token,
        then_branch: Expr,
        else_operator: Token,
    },
}

impl View for Error {
    type V = SpecParseError;

    open spec fn view(&self) -> SpecParseError {
        match self {
            Error::GroupingNotClosed { left_paren, expr } => SpecParseError::GroupingNotClosed {
                left_paren: left_paren@,
                expr: expr@,
            },
            Error::GroupingMissingExpression { left_paren } => {
                SpecParseError::GroupingMissingExpression { left_paren: left_paren@ }
            },
            Error::TernaryMissingThenBranch { question, then_operator } => {
                SpecParseError::TernaryMissingThenBranch {
                    question: question@,
                    then_operator: then_operator@,
                }
            },
            Error::TernaryMissingElseOperator { question, then_operator, then_branch } => {
                SpecParseError::TernaryMissingElseOperator {
                    question: question@,
                    then_operator: then_operator@,
                    then_branch: then_branch@,
                }
            },
            Error::TernaryMissingElseBranch {
                question,
                then_operator,
                then_branch,
                else_operator,
            } => SpecParseError::TernaryMissingElseBranch {
                question: question@,
                then_operator: then_operator@,
                then_branch: then_branch@,
                else_operator: else_operator@,
            },
        }
    }
}

} // verus!
