//! The AST model: the expression tree over validated operator and literal
//! wrappers, with its mathematical view.

pub mod error;
pub mod formatter;
pub mod terminal;

use vstd::prelude::*;

use crate::expr::terminal::{BinaryOperator, Literal, UnaryOperator};
use crate::token::SpecTokenKind;

verus! {

/// An expression in the source code: a strict tree in which every non-leaf
/// node exclusively owns its children, and every operator or literal it
/// contains passed its category check at construction.
#[derive(Debug, PartialEq)]
pub enum Expr {
    Binary { left: Box<Expr>, operator: BinaryOperator, right: Box<Expr> },
    Ternary { condition: Box<Expr>, then_branch: Box<Expr>, else_branch: Box<Expr> },
    Grouping(Box<Expr>),
    Unary { operator: UnaryOperator, right: Box<Expr> },
    Literal(Literal),
}

/// The mathematical value of an expression tree: the same shape, with
/// operators and literals abstracted to their token kinds.
pub enum SpecExpr {
    Binary { left: Box<SpecExpr>, operator: SpecTokenKind, right: Box<SpecExpr> },
    Ternary { condition: Box<SpecExpr>, then_branch: Box<SpecExpr>, else_branch: Box<SpecExpr> },
    Grouping(Box<SpecExpr>),
    Unary { operator: SpecTokenKind, right: Box<SpecExpr> },
    Literal(SpecTokenKind),
}

/// The view of an expression tree.
pub open spec fn expr_view(e: Expr) -> SpecExpr
    decreases e,
{
    match e {
        Expr::Binary { left, operator, right } => SpecExpr::Binary {
            left: Box::new(expr_view(*left)),
            operator: operator.kind(),
            right: Box::new(expr_view(*right)),
        },
        Expr::Ternary { condition, then_branch, else_branch } => SpecExpr::Ternary {
            condition: Box::new(expr_view(*condition)),
            then_branch: Box::new(expr_view(*then_branch)),
            else_branch: Box::new(expr_view(*else_branch)),
        },
        Expr::Grouping(inner) => SpecExpr::Grouping(Box::new(expr_view(*inner))),
        Expr::Unary { operator, right } => SpecExpr::Unary {
            operator: operator.kind(),
            right: Box::new(expr_view(*right)),
        },
        Expr::Literal(lit) => SpecExpr::Literal(lit.kind()),
    }
}

impl View for Expr {
    type V = SpecExpr;

    open spec fn view(&self) -> SpecExpr {
        expr_view(*self)
    }
}

/// Whether every operator and literal in a spec-level expression belongs
/// to the category its node position demands.
pub open spec fn spec_expr_wf(e: SpecExpr) -> bool
    decreases e,
{
    match e {
        SpecExpr::Binary { left, operator, right } => crate::expr::terminal::is_binary_op(operator)
            && spec_expr_wf(*left) && spec_expr_wf(*right),
        SpecExpr::Ternary { condition, then_branch, else_branch } => spec_expr_wf(*condition)
            && spec_expr_wf(*then_branch) && spec_expr_wf(*else_branch),
        SpecExpr::Grouping(inner) => spec_expr_wf(*inner),
        SpecExpr::Unary { operator, right } => crate::expr::terminal::is_unary_op(operator)
            && spec_expr_wf(*right),
        SpecExpr::Literal(kind) => crate::expr::terminal::is_literal_kind(kind),
    }
}

impl Expr {
    /// Whether every wrapper in this tree holds a kind of its category.
    pub open spec fn wf(&self) -> bool {
        spec_expr_wf(self@)
    }

    /// Builds a binary expression node.
    pub fn binary(left: Expr, operator: BinaryOperator, right: Expr) -> (e: Expr)
        ensures
            e@ == (SpecExpr::Binary {
                left: Box::new(left@),
                operator: operator.kind(),
                right: Box::new(right@),
            }),
    {
        Expr::Binary { left: Box::new(left), operator, right: Box::new(right) }
    }

    /// Builds a ternary expression node.
    pub fn ternary(condition: Expr, then_branch: Expr, else_branch: Expr) -> (e: Expr)
        ensures
            e@ == (SpecExpr::Ternary {
                condition: Box::new(condition@),
                then_branch: Box::new(then_branch@),
                else_branch: Box::new(else_branch@),
            }),
    {
        Expr::Ternary {
            condition: Box::new(condition),
            then_branch: Box::new(then_branch),
            else_branch: Box::new(else_branch),
        }
    }

    /// Builds a literal expression node.
    pub fn literal(literal: Literal) -> (e: Expr)
        ensures
            e@ == SpecExpr::Literal(literal.kind()),
    {
        Expr::Literal(literal)
    }

    /// Builds a unary expression node.
    pub fn unary(operator: UnaryOperator, right: Expr) -> (e: Expr)
        ensures
            e@ == (SpecExpr::Unary { operator: operator.kind(), right: Box::new(right@) }),
    {
        Expr::Unary { operator, right: Box::new(right) }
    }

    /// Builds a grouping expression node.
    pub fn grouping(expression: Expr) -> (e: Expr)
        ensures
            e@ == SpecExpr::Grouping(Box::new(expression@)),
    {
        Expr::Grouping(Box::new(expression))
    }
}

} // verus!
