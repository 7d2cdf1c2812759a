//! Operator/terminal category validators: for each syntactic category a
//! `matches` predicate usable without consuming a token, and a fallible
//! conversion from an owned token into a category-tagged wrapper that can
//! only hold a token kind of that category.

use vstd::prelude::*;

use crate::expr::error::Error;
use crate::token::{SpecTokenKind, Token, TokenKind};

verus! {

/// Whether `k` is a unary operator kind: `!` or `-`.
pub open spec fn is_unary_op(k: SpecTokenKind) -> bool {
    k == SpecTokenKind::Bang || k == SpecTokenKind::Minus
}

/// Whether `k` is a factor operator kind: `*` or `/`.
pub open spec fn is_factor_op(k: SpecTokenKind) -> bool {
    k == SpecTokenKind::Star || k == SpecTokenKind::Slash
}

/// Whether `k` is a term operator kind: `+` or `-`.
pub open spec fn is_term_op(k: SpecTokenKind) -> bool {
    k == SpecTokenKind::Plus || k == SpecTokenKind::Minus
}

/// Whether `k` is a comparison operator kind: `!=`, `==`, `<`, `<=`, `>`
/// or `>=`.
pub open spec fn is_comparison_op(k: SpecTokenKind) -> bool {
    ||| k == SpecTokenKind::BangEqual
    ||| k == SpecTokenKind::EqualEqual
    ||| k == SpecTokenKind::Less
    ||| k == SpecTokenKind::LessEqual
    ||| k == SpecTokenKind::Greater
    ||| k == SpecTokenKind::GreaterEqual
}

/// Whether `k` is the comma operator kind.
pub open spec fn is_comma_op(k: SpecTokenKind) -> bool {
    k == SpecTokenKind::Comma
}

/// Whether `k` is the ternary then-operator kind: `?`.
pub open spec fn is_ternary_then_op(k: SpecTokenKind) -> bool {
    k == SpecTokenKind::Question
}

/// Whether `k` is the ternary else-operator kind: `:`.
pub open spec fn is_ternary_else_op(k: SpecTokenKind) -> bool {
    k == SpecTokenKind::Colon
}

/// Whether `k` is a literal kind: a number, a string, `true`, `false` or
/// `nil`.
pub open spec fn is_literal_kind(k: SpecTokenKind) -> bool {
    ||| k matches SpecTokenKind::Number(_)
    ||| k matches SpecTokenKind::Str(_)
    ||| k == SpecTokenKind::True
    ||| k == SpecTokenKind::False
    ||| k == SpecTokenKind::Nil
}

/// Whether `k` is a binary operator kind: the union of the comma,
/// comparison, term and factor categories.
pub open spec fn is_binary_op(k: SpecTokenKind) -> bool {
    is_comma_op(k) || is_comparison_op(k) || is_term_op(k) || is_factor_op(k)
}

/// A validated binary operator token kind: comma, comparison, term or
/// factor.
#[derive(Debug, Clone, PartialEq)]
pub struct BinaryOperator(TokenKind);

impl BinaryOperator {
    /// The kind held by this wrapper.
    pub closed spec fn kind(&self) -> SpecTokenKind {
        self.0@
    }

    /// The wrapper's invariant: its kind passed the category check.
    pub open spec fn wf(&self) -> bool {
        is_binary_op(self.kind())
    }

    /// Whether `token` belongs to the binary operator category.
    pub fn matches(token: &Token) -> (r: bool)
        ensures
            r == is_binary_op(token@.kind),
    {
        CommaOperator::matches(token) || ComparisonOperator::matches(token)
            || TermOperator::matches(token) || FactorOperator::matches(token)
    }

    /// Converts a token into a binary operator wrapper, or returns the
    /// token inside a category error.
    pub fn try_from(token: Token) -> (r: Result<BinaryOperator, Error>)
        ensures
            match r {
                Result::Ok(op) => is_binary_op(token@.kind) && op.kind() == token@.kind && op.wf(),
                Result::Err(e) => !is_binary_op(token@.kind) && e@
                    == crate::expr::error::SpecCategoryError::BinaryOperator(token@),
            },
    {
        if BinaryOperator::matches(&token) {
            Result::Ok(BinaryOperator(token.kind))
        } else {
            Result::Err(Error::BinaryOperator(token))
        }
    }

    /// The held kind, by reference.
    pub fn as_kind(&self) -> (k: &TokenKind)
        ensures
            k@ == self.kind(),
    {
        &self.0
    }
}

/// A validated unary operator token kind: `!` or `-`.
#[derive(Debug, Clone, PartialEq)]
pub struct UnaryOperator(TokenKind);

impl UnaryOperator {
    /// The kind held by this wrapper.
    pub closed spec fn kind(&self) -> SpecTokenKind {
        self.0@
    }

    /// The wrapper's invariant: its kind passed the category check.
    pub open spec fn wf(&self) -> bool {
        is_unary_op(self.kind())
    }

    /// Whether `token` belongs to the unary operator category.
    pub fn matches(token: &Token) -> (r: bool)
        ensures
            r == is_unary_op(token@.kind),
    {
        match &token.kind {
            TokenKind::Bang => true,
            TokenKind::Minus => true,
            _ => false,
        }
    }

    /// Converts a token into a unary operator wrapper, or returns the
    /// token inside a category error.
    pub fn try_from(token: Token) -> (r: Result<UnaryOperator, Error>)
        ensures
            match r {
                Result::Ok(op) => is_unary_op(token@.kind) && op.kind() == token@.kind && op.wf(),
                Result::Err(e) => !is_unary_op(token@.kind) && e@
                    == crate::expr::error::SpecCategoryError::UnaryOperator(token@),
            },
    {
        if UnaryOperator::matches(&token) {
            Result::Ok(UnaryOperator(token.kind))
        } else {
            Result::Err(Error::UnaryOperator(token))
        }
    }

    /// The held kind, by reference.
    pub fn as_kind(&self) -> (k: &TokenKind)
        ensures
            k@ == self.kind(),
    {
        &self.0
    }
}

/// A validated comma operator token kind.
#[derive(Debug, Clone, PartialEq)]
pub struct CommaOperator(TokenKind);

impl CommaOperator {
    /// The kind held by this wrapper.
    pub closed spec fn kind(&self) -> SpecTokenKind {
        self.0@
    }

    /// The wrapper's invariant: its kind passed the category check.
    pub open spec fn wf(&self) -> bool {
        is_comma_op(self.kind())
    }

    /// Whether `token` belongs to the comma operator category.
    pub fn matches(token: &Token) -> (r: bool)
        ensures
            r == is_comma_op(token@.kind),
    {
        match &token.kind {
            TokenKind::Comma => true,
            _ => false,
        }
    }

    /// Converts a token into a comma operator wrapper, or returns the
    /// token inside a category error.
    pub fn try_from(token: Token) -> (r: Result<CommaOperator, Error>)
        ensures
            match r {
                Result::Ok(op) => is_comma_op(token@.kind) && op.kind() == token@.kind && op.wf(),
                Result::Err(e) => !is_comma_op(token@.kind) && e@
                    == crate::expr::error::SpecCategoryError::CommaOperator(token@),
            },
    {
        if CommaOperator::matches(&token) {
            Result::Ok(CommaOperator(token.kind))
        } else {
            Result::Err(Error::CommaOperator(token))
        }
    }

    /// Widens this wrapper into the binary operator category it belongs
    /// to.
    pub fn into_binary(self) -> (op: BinaryOperator)
        requires
            self.wf(),
        ensures
            op.kind() == self.kind(),
            op.wf(),
    {
        BinaryOperator(self.0)
    }
}

/// A validated comparison operator token kind.
#[derive(Debug, Clone, PartialEq)]
pub struct ComparisonOperator(TokenKind);

impl ComparisonOperator {
    /// The kind held by this wrapper.
    pub closed spec fn kind(&self) -> SpecTokenKind {
        self.0@
    }

    /// The wrapper's invariant: its kind passed the category check.
    pub open spec fn wf(&self) -> bool {
        is_comparison_op(self.kind())
    }

    /// Whether `token` belongs to the comparison operator category.
    pub fn matches(token: &Token) -> (r: bool)
        ensures
            r == is_comparison_op(token@.kind),
    {
        match &token.kind {
            TokenKind::BangEqual => true,
            TokenKind::EqualEqual => true,
            TokenKind::Less => true,
            TokenKind::LessEqual => true,
            TokenKind::Greater => true,
            TokenKind::GreaterEqual => true,
            _ => false,
        }
    }

    /// Converts a token into a comparison operator wrapper, or returns the
    /// token inside a category error.
    pub fn try_from(token: Token) -> (r: Result<ComparisonOperator, Error>)
        ensures
            match r {
                Result::Ok(op) => is_comparison_op(token@.kind) && op.kind() == token@.kind
                    && op.wf(),
                Result::Err(e) => !is_comparison_op(token@.kind) && e@
                    == crate::expr::error::SpecCategoryError::ComparisonOperator(token@),
            },
    {
        if ComparisonOperator::matches(&token) {
            Result::Ok(ComparisonOperator(token.kind))
        } else {
            Result::Err(Error::ComparisonOperator(token))
        }
    }

    /// Widens this wrapper into the binary operator category it belongs
    /// to.
    pub fn into_binary(self) -> (op: BinaryOperator)
        requires
            self.wf(),
        ensures
            op.kind() == self.kind(),
            op.wf(),
    {
        BinaryOperator(self.0)
    }
}

/// A validated factor operator token kind.
#[derive(Debug, Clone, PartialEq)]
pub struct FactorOperator(TokenKind);

impl FactorOperator {
    /// The kind held by this wrapper.
    pub closed spec fn kind(&self) -> SpecTokenKind {
        self.0@
    }

    /// The wrapper's invariant: its kind passed the category check.
    pub open spec fn wf(&self) -> bool {
        is_factor_op(self.kind())
    }

    /// Whether `token` belongs to the factor operator category.
    pub fn matches(token: &Token) -> (r: bool)
        ensures
            r == is_factor_op(token@.kind),
    {
        match &token.kind {
            TokenKind::Star => true,
            TokenKind::Slash => true,
            _ => false,
        }
    }

    /// Converts a token into a factor operator wrapper, or returns the
    /// token inside a category error.
    pub fn try_from(token: Token) -> (r: Result<FactorOperator, Error>)
        ensures
            match r {
                Result::Ok(op) => is_factor_op(token@.kind) && op.kind() == token@.kind && op.wf(),
                Result::Err(e) => !is_factor_op(token@.kind) && e@
                    == crate::expr::error::SpecCategoryError::FactorOperator(token@),
            },
    {
        if FactorOperator::matches(&token) {
            Result::Ok(FactorOperator(token.kind))
        } else {
            Result::Err(Error::FactorOperator(token))
        }
    }

    /// Widens this wrapper into the binary operator category it belongs
    /// to.
    pub fn into_binary(self) -> (op: BinaryOperator)
        requires
            self.wf(),
        ensures
            op.kind() == self.kind(),
            op.wf(),
    {
        BinaryOperator(self.0)
    }
}

/// A validated term operator token kind.
#[derive(Debug, Clone, PartialEq)]
pub struct TermOperator(TokenKind);

impl TermOperator {
    /// The kind held by this wrapper.
    pub closed spec fn kind(&self) -> SpecTokenKind {
        self.0@
    }

    /// The wrapper's invariant: its kind passed the category check.
    pub open spec fn wf(&self) -> bool {
        is_term_op(self.kind())
    }

    /// Whether `token` belongs to the term operator category.
    pub fn matches(token: &Token) -> (r: bool)
        ensures
            r == is_term_op(token@.kind),
    {
        match &token.kind {
            TokenKind::Plus => true,
            TokenKind::Minus => true,
            _ => false,
        }
    }

    /// Converts a token into a term operator wrapper, or returns the token
    /// inside a category error.
    pub fn try_from(token: Token) -> (r: Result<TermOperator, Error>)
        ensures
            match r {
                Result::Ok(op) => is_term_op(token@.kind) && op.kind() == token@.kind && op.wf(),
                Result::Err(e) => !is_term_op(token@.kind) && e@
                    == crate::expr::error::SpecCategoryError::TermOperator(token@),
            },
    {
        if TermOperator::matches(&token) {
            Result::Ok(TermOperator(token.kind))
        } else {
            Result::Err(Error::TermOperator(token))
        }
    }

    /// Widens this wrapper into the binary operator category it belongs
    /// to.
    pub fn into_binary(self) -> (op: BinaryOperator)
        requires
            self.wf(),
        ensures
            op.kind() == self.kind(),
            op.wf(),
    {
        BinaryOperator(self.0)
    }
}

/// A validated ternary then-operator token kind: `?`.
#[derive(Debug, Clone, PartialEq)]
pub struct TernaryThenOperator(TokenKind);

impl TernaryThenOperator {
    /// The kind held by this wrapper.
    pub closed spec fn kind(&self) -> SpecTokenKind {
        self.0@
    }

    /// The wrapper's invariant: its kind passed the category check.
    pub open spec fn wf(&self) -> bool {
        is_ternary_then_op(self.kind())
    }

    /// Whether `token` belongs to the ternary then-operator category.
    pub fn matches(token: &Token) -> (r: bool)
        ensures
            r == is_ternary_then_op(token@.kind),
    {
        match &token.kind {
            TokenKind::Question => true,
            _ => false,
        }
    }

    /// Converts a token into a ternary then-operator wrapper, or returns
    /// the token inside a category error.
    pub fn try_from(token: Token) -> (r: Result<TernaryThenOperator, Error>)
        ensures
            match r {
                Result::Ok(op) => is_ternary_then_op(token@.kind) && op.kind() == token@.kind
                    && op.wf(),
                Result::Err(e) => !is_ternary_then_op(token@.kind) && e@
                    == crate::expr::error::SpecCategoryError::TernaryThenOperator(token@),
            },
    {
        if TernaryThenOperator::matches(&token) {
            Result::Ok(TernaryThenOperator(token.kind))
        } else {
            Result::Err(Error::TernaryThenOperator(token))
        }
    }
}

/// A validated ternary else-operator token kind: `:`.
#[derive(Debug, Clone, PartialEq)]
pub struct TernaryElseOperator(TokenKind);

impl TernaryElseOperator {
    /// The kind held by this wrapper.
    pub closed spec fn kind(&self) -> SpecTokenKind {
        self.0@
    }

    /// The wrapper's invariant: its kind passed the category check.
    pub open spec fn wf(&self) -> bool {
        is_ternary_else_op(self.kind())
    }

    /// Whether `token` belongs to the ternary else-operator category.
    pub fn matches(token: &Token) -> (r: bool)
        ensures
            r == is_ternary_else_op(token@.kind),
    {
        match &token.kind {
            TokenKind::Colon => true,
            _ => false,
        }
    }

    /// Converts a token into a ternary else-operator wrapper, or returns
    /// the token inside a category error.
    pub fn try_from(token: Token) -> (r: Result<TernaryElseOperator, Error>)
        ensures
            match r {
                Result::Ok(op) => is_ternary_else_op(token@.kind) && op.kind() == token@.kind
                    && op.wf(),
                Result::Err(e) => !is_ternary_else_op(token@.kind) && e@
                    == crate::expr::error::SpecCategoryError::TernaryElseOperator(token@),
            },
    {
        if TernaryElseOperator::matches(&token) {
            Result::Ok(TernaryElseOperator(token.kind))
        } else {
            Result::Err(Error::TernaryElseOperator(token))
        }
    }
}

/// A validated literal token kind: a number, a string, `true`, `false` or
/// `nil`, carrying its payload.
#[derive(Debug, Clone, PartialEq)]
pub struct Literal(TokenKind);

impl Literal {
    /// The kind held by this wrapper.
    pub closed spec fn kind(&self) -> SpecTokenKind {
        self.0@
    }

    /// The wrapper's invariant: its kind passed the category check.
    pub open spec fn wf(&self) -> bool {
        is_literal_kind(self.kind())
    }

    /// Whether `token` belongs to the literal category.
    pub fn matches(token: &Token) -> (r: bool)
        ensures
            r == is_literal_kind(token@.kind),
    {
        match &token.kind {
            TokenKind::Number(_) => true,
            TokenKind::Str(_) => true,
            TokenKind::True => true,
            TokenKind::False => true,
            TokenKind::Nil => true,
            _ => false,
        }
    }

    /// Converts a token into a literal wrapper, or returns the token
    /// inside a category error.
    pub fn try_from(token: Token) -> (r: Result<Literal, Error>)
        ensures
            match r {
                Result::Ok(lit) => is_literal_kind(token@.kind) && lit.kind() == token@.kind
                    && lit.wf(),
                Result::Err(e) => !is_literal_kind(token@.kind) && e@
                    == crate::expr::error::SpecCategoryError::Literal(token@),
            },
    {
        if Literal::matches(&token) {
            Result::Ok(Literal(token.kind))
        } else {
            Result::Err(Error::Literal(token))
        }
    }

    /// The held kind, by reference.
    pub fn as_kind(&self) -> (k: &TokenKind)
        ensures
            k@ == self.kind(),
    {
        &self.0
    }
}

} // verus!
