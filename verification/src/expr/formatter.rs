//! Canonical AST formatters: fully-parenthesized prefix notation and
//! Reverse Polish Notation. Both are total over the five node variants and
//! side-effect-free; grouping nodes are explicit in prefix notation and
//! transparent in RPN.

use vstd::prelude::*;
use vstd::string::StringExecFns;

use crate::expr::{Expr, SpecExpr};
use crate::token::{kind_text, SpecTokenKind};

verus! {

/// The fully-parenthesized prefix rendering of an expression: operators
/// lead their operands, a grouping shows as `(group X)`, and a ternary
/// leads with `?`.
pub open spec fn prefix_text(e: SpecExpr) -> Seq<char>
    decreases e,
{
    match e {
        SpecExpr::Binary { left, operator, right } => "("@ + kind_text(operator) + " "@
            + prefix_text(*left) + " "@ + prefix_text(*right) + ")"@,
        SpecExpr::Ternary { condition, then_branch, else_branch } => "(? "@ + prefix_text(
            *condition,
        ) + " "@ + prefix_text(*then_branch) + " "@ + prefix_text(*else_branch) + ")"@,
        SpecExpr::Grouping(inner) => "(group "@ + prefix_text(*inner) + ")"@,
        SpecExpr::Unary { operator, right } => "("@ + kind_text(operator) + " "@ + prefix_text(
            *right,
        ) + ")"@,
        SpecExpr::Literal(kind) => kind_text(kind),
    }
}

/// The Reverse Polish rendering of an expression: operands before their
/// operator, groupings transparent, a unary operator prefixed to its
/// operand without a space, and a ternary closed by `?`.
pub open spec fn rpn_text(e: SpecExpr) -> Seq<char>
    decreases e,
{
    match e {
        SpecExpr::Binary { left, operator, right } => rpn_text(*left) + " "@ + rpn_text(*right)
            + " "@ + kind_text(operator),
        SpecExpr::Ternary { condition, then_branch, else_branch } => rpn_text(*condition) + " "@
            + rpn_text(*then_branch) + " "@ + rpn_text(*else_branch) + " ?"@,
        SpecExpr::Grouping(inner) => rpn_text(*inner),
        SpecExpr::Unary { operator, right } => kind_text(operator) + rpn_text(*right),
        SpecExpr::Literal(kind) => kind_text(kind),
    }
}

/// Abstract Syntax Tree (AST) formatter in Lisp-like prefix format.
pub struct AstFormatter;

/// Abstract Syntax Tree (AST) formatter in Reverse Polish Notation (RPN)
/// format.
pub struct RpnFormatter;

impl AstFormatter {
    /// Renders `expr` in fully-parenthesized prefix notation, exactly as
    /// [`prefix_text`] states it.
    pub fn visit(&self, expr: &Expr) -> (r: String)
        ensures
            r@ == prefix_text(expr@),
        decreases expr,
    {
        match expr {
            Expr::Binary { left, operator, right } => {
                let mut r = "(".to_owned();
                r.append(operator.as_kind().text().as_str());
                r.append(" ");
                r.append(self.visit(&**left).as_str());
                r.append(" ");
                r.append(self.visit(&**right).as_str());
                r.append(")");
                proof {
                    assert(r@ =~= prefix_text(expr@));
                }
                r
            },
            Expr::Ternary { condition, then_branch, else_branch } => {
                let mut r = "(? ".to_owned();
                r.append(self.visit(&**condition).as_str());
                r.append(" ");
                r.append(self.visit(&**then_branch).as_str());
                r.append(" ");
                r.append(self.visit(&**else_branch).as_str());
                r.append(")");
                proof {
                    assert(r@ =~= prefix_text(expr@));
                }
                r
            },
            Expr::Grouping(inner) => {
                let mut r = "(group ".to_owned();
                r.append(self.visit(&**inner).as_str());
                r.append(")");
                proof {
                    assert(r@ =~= prefix_text(expr@));
                }
                r
            },
            Expr::Unary { operator, right } => {
                let mut r = "(".to_owned();
                r.append(operator.as_kind().text().as_str());
                r.append(" ");
                r.append(self.visit(&**right).as_str());
                r.append(")");
                proof {
                    assert(r@ =~= prefix_text(expr@));
                }
                r
            },
            Expr::Literal(lit) => lit.as_kind().text(),
        }
    }
}

impl RpnFormatter {
    /// Renders `expr` in Reverse Polish Notation, exactly as [`rpn_text`]
    /// states it.
    pub fn visit(&self, expr: &Expr) -> (r: String)
        ensures
            r@ == rpn_text(expr@),
        decreases expr,
    {
        match expr {
            Expr::Binary { left, operator, right } => {
                let mut r = self.visit(&**left);
                r.append(" ");
                r.append(self.visit(&**right).as_str());
                r.append(" ");
                r.append(operator.as_kind().text().as_str());
                proof {
                    assert(r@ =~= rpn_text(expr@));
                }
                r
            },
            Expr::Ternary { condition, then_branch, else_branch } => {
                let mut r = self.visit(&**condition);
                r.append(" ");
                r.append(self.visit(&**then_branch).as_str());
                r.append(" ");
                r.append(self.visit(&**else_branch).as_str());
                r.append(" ?");
                proof {
                    assert(r@ =~= rpn_text(expr@));
                }
                r
            },
            Expr::Grouping(inner) => self.visit(&**inner),
            Expr::Unary { operator, right } => {
                let mut r = operator.as_kind().text();
                r.append(self.visit(&**right).as_str());
                proof {
                    assert(r@ =~= rpn_text(expr@));
                }
                r
            },
            Expr::Literal(lit) => lit.as_kind().text(),
        }
    }
}

} // verus!
