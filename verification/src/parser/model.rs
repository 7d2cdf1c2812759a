//! The mathematical model of the parser: one spec-level function per
//! grammar rule, each taking the token sequence it starts from and giving
//! the outcome (an expression, a structural error, or nothing where no
//! expression starts there) together with the tokens left over. The
//! executable parser is proved to follow this model rule by rule.
//!
//! Grammar, lowest to highest precedence:
//! ```text
//! expression -> comma
//! comma      -> ternary ( "," ternary )*                    left-assoc
//! ternary    -> comparison ( "?" expression ":" ternary )?  right-assoc
//! comparison -> term ( compOp term )*                       left-assoc
//! term       -> factor ( ("+"|"-") factor )*                left-assoc
//! factor     -> unary ( ("*"|"/") unary )*                  left-assoc
//! unary      -> ("!"|"-") primary | primary
//! primary    -> literal | "(" expression ")"
//! ```
//!
//! Each function's `decreases` pairs the length of its input with a rank
//! that falls from `expression` down to `primary`; `primary` re-enters
//! `expression` only behind a consumed `(`. The recursions that run
//! through another rule's leftover tokens are guarded by length checks;
//! the guards always hold (see the shape lemmas below), so the guarded
//! branches never alter what the functions mean.

use vstd::prelude::*;

use crate::expr::terminal::{
    is_comma_op, is_comparison_op, is_factor_op, is_literal_kind, is_term_op, is_ternary_else_op,
    is_ternary_then_op, is_unary_op,
};
use crate::expr::SpecExpr;
use crate::token::{SpecToken, SpecTokenKind};

verus! {

/// The mathematical value of a structural parse error, each carrying the
/// already-parsed partial state that diagnostics may show.
pub enum SpecParseError {
    GroupingNotClosed { left_paren: SpecToken, expr: SpecExpr },
    GroupingMissingExpression { left_paren: SpecToken },
    TernaryMissingThenBranch { question: SpecExpr, then_operator: SpecToken },
    TernaryMissingElseOperator { question: SpecExpr, then_operator: SpecToken, then_branch: SpecExpr },
    TernaryMissingElseBranch {
        question: SpecExpr,
        then_operator: SpecToken,
        then_branch: SpecExpr,
        else_operator: SpecToken,
    },
}

/// The outcome of one grammar rule: `out` is `None` exactly where the rule
/// found no expression at all (clean exhaustion, distinct from an error),
/// and `rest` is what is left of the input.
pub struct SpecParse {
    pub out: Option<Result<SpecExpr, SpecParseError>>,
    pub rest: Seq<SpecToken>,
}

/// The `primary` rule: a literal, or a parenthesized expression. Yields
/// `None` where neither a literal nor `(` stands first — the caller that
/// required an operand decides what that means.
pub open spec fn spec_primary(ts: Seq<SpecToken>) -> SpecParse
    decreases ts.len(), 2int,
{
    if ts.len() == 0 {
        SpecParse { out: Option::None, rest: ts }
    } else if is_literal_kind(ts[0].kind) {
        SpecParse {
            out: Option::Some(Result::Ok(SpecExpr::Literal(ts[0].kind))),
            rest: ts.skip(1),
        }
    } else if ts[0].kind == SpecTokenKind::LeftParen {
        let r = spec_expression(ts.skip(1));
        match r.out {
            Option::Some(Result::Ok(e)) => {
                if r.rest.len() > 0 && r.rest[0].kind == SpecTokenKind::RightParen {
                    SpecParse {
                        out: Option::Some(Result::Ok(SpecExpr::Grouping(Box::new(e)))),
                        rest: r.rest.skip(1),
                    }
                } else {
                    SpecParse {
                        out: Option::Some(
                            Result::Err(
                                SpecParseError::GroupingNotClosed { left_paren: ts[0], expr: e },
                            ),
                        ),
                        rest: r.rest,
                    }
                }
            },
            Option::None => SpecParse {
                out: Option::Some(
                    Result::Err(SpecParseError::GroupingMissingExpression { left_paren: ts[0] }),
                ),
                rest: r.rest,
            },
            Option::Some(Result::Err(e)) => SpecParse {
                out: Option::Some(Result::Err(e)),
                rest: r.rest,
            },
        }
    } else {
        SpecParse { out: Option::None, rest: ts }
    }
}

/// The `unary` rule: an optional `!` or `-` before a primary.
pub open spec fn spec_unary(ts: Seq<SpecToken>) -> SpecParse
    decreases ts.len(), 4int,
{
    if ts.len() > 0 && is_unary_op(ts[0].kind) {
        let r = spec_primary(ts.skip(1));
        match r.out {
            Option::Some(Result::Ok(e)) => SpecParse {
                out: Option::Some(
                    Result::Ok(SpecExpr::Unary { operator: ts[0].kind, right: Box::new(e) }),
                ),
                rest: r.rest,
            },
            _ => SpecParse { out: r.out, rest: r.rest },
        }
    } else {
        spec_primary(ts)
    }
}

/// The left fold of the `factor` rule: while a factor operator stands
/// first, consume it, parse one more unary operand, and fold leftwards.
pub open spec fn spec_factor_rest(acc: SpecExpr, ts: Seq<SpecToken>) -> SpecParse
    decreases ts.len(), 5int,
{
    if ts.len() > 0 && is_factor_op(ts[0].kind) {
        let r = spec_unary(ts.skip(1));
        match r.out {
            Option::Some(Result::Ok(right)) => {
                let acc2 = SpecExpr::Binary {
                    left: Box::new(acc),
                    operator: ts[0].kind,
                    right: Box::new(right),
                };
                if r.rest.len() < ts.len() {
                    spec_factor_rest(acc2, r.rest)
                } else {
                    SpecParse { out: Option::Some(Result::Ok(acc2)), rest: r.rest }
                }
            },
            _ => SpecParse { out: r.out, rest: r.rest },
        }
    } else {
        SpecParse { out: Option::Some(Result::Ok(acc)), rest: ts }
    }
}

/// The `factor` rule: one unary operand, then the left fold over `*` and
/// `/`.
pub open spec fn spec_factor(ts: Seq<SpecToken>) -> SpecParse
    decreases ts.len(), 6int,
{
    let r = spec_unary(ts);
    match r.out {
        Option::Some(Result::Ok(e)) => {
            if r.rest.len() <= ts.len() {
                spec_factor_rest(e, r.rest)
            } else {
                SpecParse { out: Option::Some(Result::Ok(e)), rest: r.rest }
            }
        },
        _ => SpecParse { out: r.out, rest: r.rest },
    }
}

/// The left fold of the `term` rule over `+` and `-`.
pub open spec fn spec_term_rest(acc: SpecExpr, ts: Seq<SpecToken>) -> SpecParse
    decreases ts.len(), 7int,
{
    if ts.len() > 0 && is_term_op(ts[0].kind) {
        let r = spec_factor(ts.skip(1));
        match r.out {
            Option::Some(Result::Ok(right)) => {
                let acc2 = SpecExpr::Binary {
                    left: Box::new(acc),
                    operator: ts[0].kind,
                    right: Box::new(right),
                };
                if r.rest.len() < ts.len() {
                    spec_term_rest(acc2, r.rest)
                } else {
                    SpecParse { out: Option::Some(Result::Ok(acc2)), rest: r.rest }
                }
            },
            _ => SpecParse { out: r.out, rest: r.rest },
        }
    } else {
        SpecParse { out: Option::Some(Result::Ok(acc)), rest: ts }
    }
}

/// The `term` rule: one factor operand, then the left fold over `+` and
/// `-`.
pub open spec fn spec_term(ts: Seq<SpecToken>) -> SpecParse
    decreases ts.len(), 8int,
{
    let r = spec_factor(ts);
    match r.out {
        Option::Some(Result::Ok(e)) => {
            if r.rest.len() <= ts.len() {
                spec_term_rest(e, r.rest)
            } else {
                SpecParse { out: Option::Some(Result::Ok(e)), rest: r.rest }
            }
        },
        _ => SpecParse { out: r.out, rest: r.rest },
    }
}

/// The left fold of the `comparison` rule over the comparison operators.
pub open spec fn spec_comparison_rest(acc: SpecExpr, ts: Seq<SpecToken>) -> SpecParse
    decreases ts.len(), 9int,
{
    if ts.len() > 0 && is_comparison_op(ts[0].kind) {
        let r = spec_term(ts.skip(1));
        match r.out {
            Option::Some(Result::Ok(right)) => {
                let acc2 = SpecExpr::Binary {
                    left: Box::new(acc),
                    operator: ts[0].kind,
                    right: Box::new(right),
                };
                if r.rest.len() < ts.len() {
                    spec_comparison_rest(acc2, r.rest)
                } else {
                    SpecParse { out: Option::Some(Result::Ok(acc2)), rest: r.rest }
                }
            },
            _ => SpecParse { out: r.out, rest: r.rest },
        }
    } else {
        SpecParse { out: Option::Some(Result::Ok(acc)), rest: ts }
    }
}

/// The `comparison` rule: one term operand, then the left fold over the
/// comparison operators.
pub open spec fn spec_comparison(ts: Seq<SpecToken>) -> SpecParse
    decreases ts.len(), 10int,
{
    let r = spec_term(ts);
    match r.out {
        Option::Some(Result::Ok(e)) => {
            if r.rest.len() <= ts.len() {
                spec_comparison_rest(e, r.rest)
            } else {
                SpecParse { out: Option::Some(Result::Ok(e)), rest: r.rest }
            }
        },
        _ => SpecParse { out: r.out, rest: r.rest },
    }
}

/// The `ternary` rule: a comparison, optionally followed by
/// `? expression : ternary`. It right-associates by re-entering itself for
/// the else branch; each failure names the already-parsed partial state.
pub open spec fn spec_ternary(ts: Seq<SpecToken>) -> SpecParse
    decreases ts.len(), 12int,
{
    let r1 = spec_comparison(ts);
    match r1.out {
        Option::Some(Result::Ok(cond)) => {
            if r1.rest.len() > 0 && is_ternary_then_op(r1.rest[0].kind) {
                let qtok = r1.rest[0];
                let t1 = r1.rest.skip(1);
                if t1.len() < ts.len() {
                    let r2 = spec_expression(t1);
                    match r2.out {
                        Option::Some(Result::Ok(then_branch)) => {
                            if r2.rest.len() > 0 && is_ternary_else_op(r2.rest[0].kind) {
                                let ctok = r2.rest[0];
                                let t2 = r2.rest.skip(1);
                                if t2.len() < ts.len() {
                                    let r3 = spec_ternary(t2);
                                    match r3.out {
                                        Option::Some(Result::Ok(else_branch)) => SpecParse {
                                            out: Option::Some(
                                                Result::Ok(
                                                    SpecExpr::Ternary {
                                                        condition: Box::new(cond),
                                                        then_branch: Box::new(then_branch),
                                                        else_branch: Box::new(else_branch),
                                                    },
                                                ),
                                            ),
                                            rest: r3.rest,
                                        },
                                        Option::None => SpecParse {
                                            out: Option::Some(
                                                Result::Err(
                                                    SpecParseError::TernaryMissingElseBranch {
                                                        question: cond,
                                                        then_operator: qtok,
                                                        then_branch,
                                                        else_operator: ctok,
                                                    },
                                                ),
                                            ),
                                            rest: r3.rest,
                                        },
                                        Option::Some(Result::Err(e)) => SpecParse {
                                            out: Option::Some(Result::Err(e)),
                                            rest: r3.rest,
                                        },
                                    }
                                } else {
                                    SpecParse { out: Option::Some(Result::Ok(cond)), rest: r1.rest }
                                }
                            } else {
                                SpecParse {
                                    out: Option::Some(
                                        Result::Err(
                                            SpecParseError::TernaryMissingElseOperator {
                                                question: cond,
                                                then_operator: qtok,
                                                then_branch,
                                            },
                                        ),
                                    ),
                                    rest: r2.rest,
                                }
                            }
                        },
                        Option::None => SpecParse {
                            out: Option::Some(
                                Result::Err(
                                    SpecParseError::TernaryMissingThenBranch {
                                        question: cond,
                                        then_operator: qtok,
                                    },
                                ),
                            ),
                            rest: r2.rest,
                        },
                        Option::Some(Result::Err(e)) => SpecParse {
                            out: Option::Some(Result::Err(e)),
                            rest: r2.rest,
                        },
                    }
                } else {
                    SpecParse { out: Option::Some(Result::Ok(cond)), rest: r1.rest }
                }
            } else {
                SpecParse { out: Option::Some(Result::Ok(cond)), rest: r1.rest }
            }
        },
        _ => SpecParse { out: r1.out, rest: r1.rest },
    }
}

/// The left fold of the `comma` rule: comma has the lowest precedence, so
/// each fold step parses a whole ternary as the right operand.
pub open spec fn spec_comma_rest(acc: SpecExpr, ts: Seq<SpecToken>) -> SpecParse
    decreases ts.len(), 13int,
{
    if ts.len() > 0 && is_comma_op(ts[0].kind) {
        let r = spec_ternary(ts.skip(1));
        match r.out {
            Option::Some(Result::Ok(right)) => {
                let acc2 = SpecExpr::Binary {
                    left: Box::new(acc),
                    operator: ts[0].kind,
                    right: Box::new(right),
                };
                if r.rest.len() < ts.len() {
                    spec_comma_rest(acc2, r.rest)
                } else {
                    SpecParse { out: Option::Some(Result::Ok(acc2)), rest: r.rest }
                }
            },
            _ => SpecParse { out: r.out, rest: r.rest },
        }
    } else {
        SpecParse { out: Option::Some(Result::Ok(acc)), rest: ts }
    }
}

/// The `comma` rule: one ternary operand, then the left fold over commas.
pub open spec fn spec_comma(ts: Seq<SpecToken>) -> SpecParse
    decreases ts.len(), 14int,
{
    let r = spec_ternary(ts);
    match r.out {
        Option::Some(Result::Ok(e)) => {
            if r.rest.len() <= ts.len() {
                spec_comma_rest(e, r.rest)
            } else {
                SpecParse { out: Option::Some(Result::Ok(e)), rest: r.rest }
            }
        },
        _ => SpecParse { out: r.out, rest: r.rest },
    }
}

/// The `expression` rule: an alias for the lowest-precedence rule.
pub open spec fn spec_expression(ts: Seq<SpecToken>) -> SpecParse
    decreases ts.len(), 16int,
{
    spec_comma(ts)
}

/// The shape of the `primary` rule: it never lengthens its input, a
/// successful parse consumes at least one token, and where it found no
/// expression the input is untouched.
pub proof fn lemma_primary_shape(ts: Seq<SpecToken>)
    ensures
        ({
            let r = spec_primary(ts);
            &&& r.rest.len() <= ts.len()
            &&& (r.out matches Option::Some(Result::Ok(_)) ==> r.rest.len() < ts.len())
            &&& (r.out is None ==> r.rest == ts)
        }),
    decreases ts.len(), 2int,
{
    if ts.len() > 0 && !is_literal_kind(ts[0].kind) && ts[0].kind == SpecTokenKind::LeftParen {
        lemma_expression_shape(ts.skip(1));
    }
}

/// The shape of the `unary` rule, as for [`lemma_primary_shape`].
pub proof fn lemma_unary_shape(ts: Seq<SpecToken>)
    ensures
        ({
            let r = spec_unary(ts);
            &&& r.rest.len() <= ts.len()
            &&& (r.out matches Option::Some(Result::Ok(_)) ==> r.rest.len() < ts.len())
            &&& (r.out is None ==> r.rest.len() <= ts.len())
        }),
    decreases ts.len(), 4int,
{
    if ts.len() > 0 && is_unary_op(ts[0].kind) {
        lemma_primary_shape(ts.skip(1));
    } else {
        lemma_primary_shape(ts);
    }
}

/// The shape of the `factor` fold: it never lengthens its input.
pub proof fn lemma_factor_rest_shape(acc: SpecExpr, ts: Seq<SpecToken>)
    ensures
        spec_factor_rest(acc, ts).rest.len() <= ts.len(),
    decreases ts.len(), 5int,
{
    if ts.len() > 0 && is_factor_op(ts[0].kind) {
        lemma_unary_shape(ts.skip(1));
        let r = spec_unary(ts.skip(1));
        match r.out {
            Option::Some(Result::Ok(right)) => {
                let acc2 = SpecExpr::Binary {
                    left: Box::new(acc),
                    operator: ts[0].kind,
                    right: Box::new(right),
                };
                if r.rest.len() < ts.len() {
                    lemma_factor_rest_shape(acc2, r.rest);
                }
            },
            _ => {},
        }
    }
}

/// The shape of the `factor` rule, as for [`lemma_unary_shape`].
pub proof fn lemma_factor_shape(ts: Seq<SpecToken>)
    ensures
        ({
            let r = spec_factor(ts);
            &&& r.rest.len() <= ts.len()
            &&& (r.out matches Option::Some(Result::Ok(_)) ==> r.rest.len() < ts.len())
        }),
    decreases ts.len(), 6int,
{
    lemma_unary_shape(ts);
    let r = spec_unary(ts);
    match r.out {
        Option::Some(Result::Ok(e)) => {
            if r.rest.len() <= ts.len() {
                lemma_factor_rest_shape(e, r.rest);
            }
        },
        _ => {},
    }
}

/// The shape of the `term` fold: it never lengthens its input.
pub proof fn lemma_term_rest_shape(acc: SpecExpr, ts: Seq<SpecToken>)
    ensures
        spec_term_rest(acc, ts).rest.len() <= ts.len(),
    decreases ts.len(), 7int,
{
    if ts.len() > 0 && is_term_op(ts[0].kind) {
        lemma_factor_shape(ts.skip(1));
        let r = spec_factor(ts.skip(1));
        match r.out {
            Option::Some(Result::Ok(right)) => {
                let acc2 = SpecExpr::Binary {
                    left: Box::new(acc),
                    operator: ts[0].kind,
                    right: Box::new(right),
                };
                if r.rest.len() < ts.len() {
                    lemma_term_rest_shape(acc2, r.rest);
                }
            },
            _ => {},
        }
    }
}

/// The shape of the `term` rule, as for [`lemma_factor_shape`].
pub proof fn lemma_term_shape(ts: Seq<SpecToken>)
    ensures
        ({
            let r = spec_term(ts);
            &&& r.rest.len() <= ts.len()
            &&& (r.out matches Option::Some(Result::Ok(_)) ==> r.rest.len() < ts.len())
        }),
    decreases ts.len(), 8int,
{
    lemma_factor_shape(ts);
    let r = spec_factor(ts);
    match r.out {
        Option::Some(Result::Ok(e)) => {
            if r.rest.len() <= ts.len() {
                lemma_term_rest_shape(e, r.rest);
            }
        },
        _ => {},
    }
}

/// The shape of the `comparison` fold: it never lengthens its input.
pub proof fn lemma_comparison_rest_shape(acc: SpecExpr, ts: Seq<SpecToken>)
    ensures
        spec_comparison_rest(acc, ts).rest.len() <= ts.len(),
    decreases ts.len(), 9int,
{
    if ts.len() > 0 && is_comparison_op(ts[0].kind) {
        lemma_term_shape(ts.skip(1));
        let r = spec_term(ts.skip(1));
        match r.out {
            Option::Some(Result::Ok(right)) => {
                let acc2 = SpecExpr::Binary {
                    left: Box::new(acc),
                    operator: ts[0].kind,
                    right: Box::new(right),
                };
                if r.rest.len() < ts.len() {
                    lemma_comparison_rest_shape(acc2, r.rest);
                }
            },
            _ => {},
        }
    }
}

/// The shape of the `comparison` rule, as for [`lemma_term_shape`].
pub proof fn lemma_comparison_shape(ts: Seq<SpecToken>)
    ensures
        ({
            let r = spec_comparison(ts);
            &&& r.rest.len() <= ts.len()
            &&& (r.out matches Option::Some(Result::Ok(_)) ==> r.rest.len() < ts.len())
        }),
    decreases ts.len(), 10int,
{
    lemma_term_shape(ts);
    let r = spec_term(ts);
    match r.out {
        Option::Some(Result::Ok(e)) => {
            if r.rest.len() <= ts.len() {
                lemma_comparison_rest_shape(e, r.rest);
            }
        },
        _ => {},
    }
}

/// The shape of the `ternary` rule, as for [`lemma_comparison_shape`].
pub proof fn lemma_ternary_shape(ts: Seq<SpecToken>)
    ensures
        ({
            let r = spec_ternary(ts);
            &&& r.rest.len() <= ts.len()
            &&& (r.out matches Option::Some(Result::Ok(_)) ==> r.rest.len() < ts.len())
        }),
    decreases ts.len(), 12int,
{
    lemma_comparison_shape(ts);
    let r1 = spec_comparison(ts);
    match r1.out {
        Option::Some(Result::Ok(_)) => {
            if r1.rest.len() > 0 && is_ternary_then_op(r1.rest[0].kind) {
                let t1 = r1.rest.skip(1);
                if t1.len() < ts.len() {
                    lemma_expression_shape(t1);
                    let r2 = spec_expression(t1);
                    match r2.out {
                        Option::Some(Result::Ok(_)) => {
                            if r2.rest.len() > 0 && is_ternary_else_op(r2.rest[0].kind) {
                                let t2 = r2.rest.skip(1);
                                if t2.len() < ts.len() {
                                    lemma_ternary_shape(t2);
                                }
                            }
                        },
                        _ => {},
                    }
                }
            }
        },
        _ => {},
    }
}

/// The shape of the `comma` fold: it never lengthens its input.
pub proof fn lemma_comma_rest_shape(acc: SpecExpr, ts: Seq<SpecToken>)
    ensures
        spec_comma_rest(acc, ts).rest.len() <= ts.len(),
    decreases ts.len(), 13int,
{
    if ts.len() > 0 && is_comma_op(ts[0].kind) {
        lemma_ternary_shape(ts.skip(1));
        let r = spec_ternary(ts.skip(1));
        match r.out {
            Option::Some(Result::Ok(right)) => {
                let acc2 = SpecExpr::Binary {
                    left: Box::new(acc),
                    operator: ts[0].kind,
                    right: Box::new(right),
                };
                if r.rest.len() < ts.len() {
                    lemma_comma_rest_shape(acc2, r.rest);
                }
            },
            _ => {},
        }
    }
}

/// The shape of the `comma` rule, as for [`lemma_ternary_shape`].
pub proof fn lemma_comma_shape(ts: Seq<SpecToken>)
    ensures
        ({
            let r = spec_comma(ts);
            &&& r.rest.len() <= ts.len()
            &&& (r.out matches Option::Some(Result::Ok(_)) ==> r.rest.len() < ts.len())
        }),
    decreases ts.len(), 14int,
{
    lemma_ternary_shape(ts);
    let r = spec_ternary(ts);
    match r.out {
        Option::Some(Result::Ok(e)) => {
            if r.rest.len() <= ts.len() {
                lemma_comma_rest_shape(e, r.rest);
            }
        },
        _ => {},
    }
}

/// The shape of the `expression` rule, as for [`lemma_comma_shape`].
pub proof fn lemma_expression_shape(ts: Seq<SpecToken>)
    ensures
        ({
            let r = spec_expression(ts);
            &&& r.rest.len() <= ts.len()
            &&& (r.out matches Option::Some(Result::Ok(_)) ==> r.rest.len() < ts.len())
        }),
    decreases ts.len(), 16int,
{
    lemma_comma_shape(ts);
}

/// Category soundness of the `primary` rule: every expression it yields is
/// well-formed — no node of it holds a token kind outside its category.
pub proof fn lemma_primary_wf(ts: Seq<SpecToken>)
    ensures
        spec_primary(ts).out matches Option::Some(Result::Ok(e)) ==> crate::expr::spec_expr_wf(e),
    decreases ts.len(), 2int,
{
    if ts.len() > 0 && !is_literal_kind(ts[0].kind) && ts[0].kind == SpecTokenKind::LeftParen {
        lemma_expression_wf(ts.skip(1));
    }
}

/// Category soundness of the `unary` rule, as for [`lemma_primary_wf`].
pub proof fn lemma_unary_wf(ts: Seq<SpecToken>)
    ensures
        spec_unary(ts).out matches Option::Some(Result::Ok(e)) ==> crate::expr::spec_expr_wf(e),
    decreases ts.len(), 4int,
{
    if ts.len() > 0 && is_unary_op(ts[0].kind) {
        lemma_primary_wf(ts.skip(1));
    } else {
        lemma_primary_wf(ts);
    }
}

/// Category soundness of the `factor` fold, as for [`lemma_primary_wf`]:
/// a well-formed accumulator stays well-formed through the fold.
pub proof fn lemma_factor_rest_wf(acc: SpecExpr, ts: Seq<SpecToken>)
    requires
        crate::expr::spec_expr_wf(acc),
    ensures
        spec_factor_rest(acc, ts).out matches Option::Some(Result::Ok(e))
            ==> crate::expr::spec_expr_wf(e),
    decreases ts.len(), 5int,
{
    if ts.len() > 0 && is_factor_op(ts[0].kind) {
        lemma_unary_wf(ts.skip(1));
        let r = spec_unary(ts.skip(1));
        match r.out {
            Option::Some(Result::Ok(right)) => {
                let acc2 = SpecExpr::Binary {
                    left: Box::new(acc),
                    operator: ts[0].kind,
                    right: Box::new(right),
                };
                if r.rest.len() < ts.len() {
                    lemma_factor_rest_wf(acc2, r.rest);
                }
            },
            _ => {},
        }
    }
}

/// Category soundness of the `factor` rule, as for [`lemma_primary_wf`].
pub proof fn lemma_factor_wf(ts: Seq<SpecToken>)
    ensures
        spec_factor(ts).out matches Option::Some(Result::Ok(e)) ==> crate::expr::spec_expr_wf(e),
    decreases ts.len(), 6int,
{
    lemma_unary_wf(ts);
    let r = spec_unary(ts);
    match r.out {
        Option::Some(Result::Ok(e)) => {
            if r.rest.len() <= ts.len() {
                lemma_factor_rest_wf(e, r.rest);
            }
        },
        _ => {},
    }
}

/// Category soundness of the `term` fold, as for [`lemma_factor_rest_wf`].
pub proof fn lemma_term_rest_wf(acc: SpecExpr, ts: Seq<SpecToken>)
    requires
        crate::expr::spec_expr_wf(acc),
    ensures
        spec_term_rest(acc, ts).out matches Option::Some(Result::Ok(e))
            ==> crate::expr::spec_expr_wf(e),
    decreases ts.len(), 7int,
{
    if ts.len() > 0 && is_term_op(ts[0].kind) {
        lemma_factor_wf(ts.skip(1));
        let r = spec_factor(ts.skip(1));
        match r.out {
            Option::Some(Result::Ok(right)) => {
                let acc2 = SpecExpr::Binary {
                    left: Box::new(acc),
                    operator: ts[0].kind,
                    right: Box::new(right),
                };
                if r.rest.len() < ts.len() {
                    lemma_term_rest_wf(acc2, r.rest);
                }
            },
            _ => {},
        }
    }
}

/// Category soundness of the `term` rule, as for [`lemma_primary_wf`].
pub proof fn lemma_term_wf(ts: Seq<SpecToken>)
    ensures
        spec_term(ts).out matches Option::Some(Result::Ok(e)) ==> crate::expr::spec_expr_wf(e),
    decreases ts.len(), 8int,
{
    lemma_factor_wf(ts);
    let r = spec_factor(ts);
    match r.out {
        Option::Some(Result::Ok(e)) => {
            if r.rest.len() <= ts.len() {
                lemma_term_rest_wf(e, r.rest);
            }
        },
        _ => {},
    }
}

/// Category soundness of the `comparison` fold, as for
/// [`lemma_factor_rest_wf`].
pub proof fn lemma_comparison_rest_wf(acc: SpecExpr, ts: Seq<SpecToken>)
    requires
        crate::expr::spec_expr_wf(acc),
    ensures
        spec_comparison_rest(acc, ts).out matches Option::Some(Result::Ok(e))
            ==> crate::expr::spec_expr_wf(e),
    decreases ts.len(), 9int,
{
    if ts.len() > 0 && is_comparison_op(ts[0].kind) {
        lemma_term_wf(ts.skip(1));
        let r = spec_term(ts.skip(1));
        match r.out {
            Option::Some(Result::Ok(right)) => {
                let acc2 = SpecExpr::Binary {
                    left: Box::new(acc),
                    operator: ts[0].kind,
                    right: Box::new(right),
                };
                if r.rest.len() < ts.len() {
                    lemma_comparison_rest_wf(acc2, r.rest);
                }
            },
            _ => {},
        }
    }
}

/// Category soundness of the `comparison` rule, as for
/// [`lemma_primary_wf`].
pub proof fn lemma_comparison_wf(ts: Seq<SpecToken>)
    ensures
        spec_comparison(ts).out matches Option::Some(Result::Ok(e)) ==> crate::expr::spec_expr_wf(
            e,
        ),
    decreases ts.len(), 10int,
{
    lemma_term_wf(ts);
    let r = spec_term(ts);
    match r.out {
        Option::Some(Result::Ok(e)) => {
            if r.rest.len() <= ts.len() {
                lemma_comparison_rest_wf(e, r.rest);
            }
        },
        _ => {},
    }
}

/// Category soundness of the `ternary` rule, as for [`lemma_primary_wf`].
pub proof fn lemma_ternary_wf(ts: Seq<SpecToken>)
    ensures
        spec_ternary(ts).out matches Option::Some(Result::Ok(e)) ==> crate::expr::spec_expr_wf(e),
    decreases ts.len(), 12int,
{
    lemma_comparison_wf(ts);
    lemma_comparison_shape(ts);
    let r1 = spec_comparison(ts);
    match r1.out {
        Option::Some(Result::Ok(_)) => {
            if r1.rest.len() > 0 && is_ternary_then_op(r1.rest[0].kind) {
                let t1 = r1.rest.skip(1);
                if t1.len() < ts.len() {
                    lemma_expression_wf(t1);
                    let r2 = spec_expression(t1);
                    match r2.out {
                        Option::Some(Result::Ok(_)) => {
                            if r2.rest.len() > 0 && is_ternary_else_op(r2.rest[0].kind) {
                                let t2 = r2.rest.skip(1);
                                if t2.len() < ts.len() {
                                    lemma_ternary_wf(t2);
                                }
                            }
                        },
                        _ => {},
                    }
                }
            }
        },
        _ => {},
    }
}

/// Category soundness of the `comma` fold, as for [`lemma_factor_rest_wf`].
pub proof fn lemma_comma_rest_wf(acc: SpecExpr, ts: Seq<SpecToken>)
    requires
        crate::expr::spec_expr_wf(acc),
    ensures
        spec_comma_rest(acc, ts).out matches Option::Some(Result::Ok(e))
            ==> crate::expr::spec_expr_wf(e),
    decreases ts.len(), 13int,
{
    if ts.len() > 0 && is_comma_op(ts[0].kind) {
        lemma_ternary_wf(ts.skip(1));
        let r = spec_ternary(ts.skip(1));
        match r.out {
            Option::Some(Result::Ok(right)) => {
                let acc2 = SpecExpr::Binary {
                    left: Box::new(acc),
                    operator: ts[0].kind,
                    right: Box::new(right),
                };
                if r.rest.len() < ts.len() {
                    lemma_comma_rest_wf(acc2, r.rest);
                }
            },
            _ => {},
        }
    }
}

/// Category soundness of the `comma` rule, as for [`lemma_primary_wf`].
pub proof fn lemma_comma_wf(ts: Seq<SpecToken>)
    ensures
        spec_comma(ts).out matches Option::Some(Result::Ok(e)) ==> crate::expr::spec_expr_wf(e),
    decreases ts.len(), 14int,
{
    lemma_ternary_wf(ts);
    let r = spec_ternary(ts);
    match r.out {
        Option::Some(Result::Ok(e)) => {
            if r.rest.len() <= ts.len() {
                lemma_comma_rest_wf(e, r.rest);
            }
        },
        _ => {},
    }
}

/// Category soundness of the whole parser: whatever the token stream, an
/// expression the `expression` rule yields holds no operator or literal
/// outside its category — the AST well-formedness invariant of the data
/// model.
pub proof fn lemma_expression_wf(ts: Seq<SpecToken>)
    ensures
        spec_expression(ts).out matches Option::Some(Result::Ok(e)) ==> crate::expr::spec_expr_wf(
            e,
        ),
    decreases ts.len(), 16int,
{
    lemma_comma_wf(ts);
}

/// A stream that starts with a literal is parsed by `primary` into that
/// literal's node, consuming one token.
proof fn lemma_primary_lit(ts: Seq<SpecToken>)
    requires
        ts.len() > 0,
        is_literal_kind(ts[0].kind),
    ensures
        spec_primary(ts) == (SpecParse {
            out: Option::Some(Result::<SpecExpr, SpecParseError>::Ok(SpecExpr::Literal(ts[0].kind))),
            rest: ts.skip(1),
        }),
{
}

/// As [`lemma_primary_lit`], one rule up: a literal is no unary operator.
proof fn lemma_unary_lit(ts: Seq<SpecToken>)
    requires
        ts.len() > 0,
        is_literal_kind(ts[0].kind),
    ensures
        spec_unary(ts) == (SpecParse {
            out: Option::Some(Result::<SpecExpr, SpecParseError>::Ok(SpecExpr::Literal(ts[0].kind))),
            rest: ts.skip(1),
        }),
{
    lemma_primary_lit(ts);
}

/// As [`lemma_unary_lit`], through the `factor` rule: with no factor
/// operator following, the fold stops at the literal.
proof fn lemma_factor_lit(ts: Seq<SpecToken>)
    requires
        ts.len() > 0,
        is_literal_kind(ts[0].kind),
        ts.len() > 1 ==> !is_factor_op(ts[1].kind),
    ensures
        spec_factor(ts) == (SpecParse {
            out: Option::Some(Result::<SpecExpr, SpecParseError>::Ok(SpecExpr::Literal(ts[0].kind))),
            rest: ts.skip(1),
        }),
{
    lemma_unary_lit(ts);
    assert(ts.skip(1).len() > 0 ==> ts.skip(1)[0] == ts[1]);
}

/// As [`lemma_factor_lit`], through the `term` rule.
proof fn lemma_term_lit(ts: Seq<SpecToken>)
    requires
        ts.len() > 0,
        is_literal_kind(ts[0].kind),
        ts.len() > 1 ==> !is_factor_op(ts[1].kind) && !is_term_op(ts[1].kind),
    ensures
        spec_term(ts) == (SpecParse {
            out: Option::Some(Result::<SpecExpr, SpecParseError>::Ok(SpecExpr::Literal(ts[0].kind))),
            rest: ts.skip(1),
        }),
{
    lemma_factor_lit(ts);
    assert(ts.skip(1).len() > 0 ==> ts.skip(1)[0] == ts[1]);
}

/// As [`lemma_term_lit`], through the `comparison` rule.
proof fn lemma_comparison_lit(ts: Seq<SpecToken>)
    requires
        ts.len() > 0,
        is_literal_kind(ts[0].kind),
        ts.len() > 1 ==> !is_factor_op(ts[1].kind) && !is_term_op(ts[1].kind) && !is_comparison_op(
            ts[1].kind,
        ),
    ensures
        spec_comparison(ts) == (SpecParse {
            out: Option::Some(Result::<SpecExpr, SpecParseError>::Ok(SpecExpr::Literal(ts[0].kind))),
            rest: ts.skip(1),
        }),
{
    lemma_term_lit(ts);
    assert(ts.skip(1).len() > 0 ==> ts.skip(1)[0] == ts[1]);
}

/// As [`lemma_comparison_lit`], through the `ternary` rule.
proof fn lemma_ternary_lit(ts: Seq<SpecToken>)
    requires
        ts.len() > 0,
        is_literal_kind(ts[0].kind),
        ts.len() > 1 ==> !is_factor_op(ts[1].kind) && !is_term_op(ts[1].kind) && !is_comparison_op(
            ts[1].kind,
        ) && !is_ternary_then_op(ts[1].kind),
    ensures
        spec_ternary(ts) == (SpecParse {
            out: Option::Some(Result::<SpecExpr, SpecParseError>::Ok(SpecExpr::Literal(ts[0].kind))),
            rest: ts.skip(1),
        }),
{
    lemma_comparison_lit(ts);
    assert(ts.skip(1).len() > 0 ==> ts.skip(1)[0] == ts[1]);
}

/// As [`lemma_ternary_lit`], through the whole `expression` rule: a
/// literal followed by nothing that extends it parses to itself.
proof fn lemma_expression_lit(ts: Seq<SpecToken>)
    requires
        ts.len() > 0,
        is_literal_kind(ts[0].kind),
        ts.len() > 1 ==> !is_factor_op(ts[1].kind) && !is_term_op(ts[1].kind) && !is_comparison_op(
            ts[1].kind,
        ) && !is_ternary_then_op(ts[1].kind) && !is_comma_op(ts[1].kind),
    ensures
        spec_expression(ts) == (SpecParse {
            out: Option::Some(Result::<SpecExpr, SpecParseError>::Ok(SpecExpr::Literal(ts[0].kind))),
            rest: ts.skip(1),
        }),
{
    lemma_ternary_lit(ts);
    assert(ts.skip(1).len() > 0 ==> ts.skip(1)[0] == ts[1]);
}

/// Left-associativity of a binary level: over literal operands, two
/// operators of the term category fold leftwards, so `a o1 b o2 c` parses
/// as `(a o1 b) o2 c`, whatever the operands and operators.
#[verifier::rlimit(50)]
pub proof fn lemma_term_level_left_associative(
    a: SpecToken,
    o1: SpecToken,
    b: SpecToken,
    o2: SpecToken,
    c: SpecToken,
)
    requires
        is_literal_kind(a.kind),
        is_literal_kind(b.kind),
        is_literal_kind(c.kind),
        is_term_op(o1.kind),
        is_term_op(o2.kind),
    ensures
        spec_expression(seq![a, o1, b, o2, c]) == (SpecParse {
            out: Option::Some(
                Result::<SpecExpr, SpecParseError>::Ok(
                    SpecExpr::Binary {
                        left: Box::new(
                            SpecExpr::Binary {
                                left: Box::new(SpecExpr::Literal(a.kind)),
                                operator: o1.kind,
                                right: Box::new(SpecExpr::Literal(b.kind)),
                            },
                        ),
                        operator: o2.kind,
                        right: Box::new(SpecExpr::Literal(c.kind)),
                    },
                ),
            ),
            rest: Seq::<SpecToken>::empty(),
        }),
{
    let ts = seq![a, o1, b, o2, c];
    let s1 = seq![o1, b, o2, c];
    let s2 = seq![b, o2, c];
    let s3 = seq![o2, c];
    let s4 = seq![c];
    let s5 = Seq::<SpecToken>::empty();
    assert(ts.skip(1) =~= s1);
    assert(s1.skip(1) =~= s2);
    assert(s2.skip(1) =~= s3);
    assert(s3.skip(1) =~= s4);
    assert(s4.skip(1) =~= s5);
    lemma_factor_lit(ts);
    lemma_factor_lit(s2);
    lemma_factor_lit(s4);
    let la = SpecExpr::Literal(a.kind);
    let lb = SpecExpr::Literal(b.kind);
    let lc = SpecExpr::Literal(c.kind);
    let e1 = SpecExpr::Binary { left: Box::new(la), operator: o1.kind, right: Box::new(lb) };
    let e2 = SpecExpr::Binary { left: Box::new(e1), operator: o2.kind, right: Box::new(lc) };
    assert(spec_term_rest(e2, s5) == (SpecParse {
        out: Option::Some(Result::<SpecExpr, SpecParseError>::Ok(e2)),
        rest: s5,
    }));
    assert(spec_term_rest(e1, s3) == (SpecParse {
        out: Option::Some(Result::<SpecExpr, SpecParseError>::Ok(e2)),
        rest: s5,
    }));
    assert(spec_term_rest(la, s1) == (SpecParse {
        out: Option::Some(Result::<SpecExpr, SpecParseError>::Ok(e2)),
        rest: s5,
    }));
    assert(spec_term(ts) == (SpecParse {
        out: Option::Some(Result::<SpecExpr, SpecParseError>::Ok(e2)),
        rest: s5,
    }));
    assert(spec_comparison(ts) == (SpecParse {
        out: Option::Some(Result::<SpecExpr, SpecParseError>::Ok(e2)),
        rest: s5,
    }));
    assert(spec_ternary(ts) == (SpecParse {
        out: Option::Some(Result::<SpecExpr, SpecParseError>::Ok(e2)),
        rest: s5,
    }));
    assert(spec_comma(ts) == (SpecParse {
        out: Option::Some(Result::<SpecExpr, SpecParseError>::Ok(e2)),
        rest: s5,
    }));
}

/// Right-associativity of the ternary: over literal operands,
/// `a ? b : c ? d : e` parses so that the else branch of the outer
/// ternary is itself the ternary over `c`, `d` and `e`, whatever the
/// operands.
pub proof fn lemma_ternary_right_associative(
    a: SpecToken,
    q1: SpecToken,
    b: SpecToken,
    c1: SpecToken,
    c: SpecToken,
    q2: SpecToken,
    d: SpecToken,
    c2: SpecToken,
    e: SpecToken,
)
    requires
        is_literal_kind(a.kind),
        is_literal_kind(b.kind),
        is_literal_kind(c.kind),
        is_literal_kind(d.kind),
        is_literal_kind(e.kind),
        is_ternary_then_op(q1.kind),
        is_ternary_then_op(q2.kind),
        is_ternary_else_op(c1.kind),
        is_ternary_else_op(c2.kind),
    ensures
        spec_expression(seq![a, q1, b, c1, c, q2, d, c2, e]) == (SpecParse {
            out: Option::Some(
                Result::<SpecExpr, SpecParseError>::Ok(
                    SpecExpr::Ternary {
                        condition: Box::new(SpecExpr::Literal(a.kind)),
                        then_branch: Box::new(SpecExpr::Literal(b.kind)),
                        else_branch: Box::new(
                            SpecExpr::Ternary {
                                condition: Box::new(SpecExpr::Literal(c.kind)),
                                then_branch: Box::new(SpecExpr::Literal(d.kind)),
                                else_branch: Box::new(SpecExpr::Literal(e.kind)),
                            },
                        ),
                    },
                ),
            ),
            rest: Seq::<SpecToken>::empty(),
        }),
{
    let ts = seq![a, q1, b, c1, c, q2, d, c2, e];
    let u1 = seq![q1, b, c1, c, q2, d, c2, e];
    let u2 = seq![b, c1, c, q2, d, c2, e];
    let u3 = seq![c1, c, q2, d, c2, e];
    let u4 = seq![c, q2, d, c2, e];
    let u5 = seq![q2, d, c2, e];
    let u6 = seq![d, c2, e];
    let u7 = seq![c2, e];
    let u8 = seq![e];
    let u9 = Seq::<SpecToken>::empty();
    assert(ts.skip(1) =~= u1);
    assert(u1.skip(1) =~= u2);
    assert(u2.skip(1) =~= u3);
    assert(u3.skip(1) =~= u4);
    assert(u4.skip(1) =~= u5);
    assert(u5.skip(1) =~= u6);
    assert(u6.skip(1) =~= u7);
    assert(u7.skip(1) =~= u8);
    assert(u8.skip(1) =~= u9);
    lemma_comparison_lit(ts);
    lemma_expression_lit(u2);
    lemma_comparison_lit(u4);
    lemma_expression_lit(u6);
    lemma_ternary_lit(u8);
    let inner = SpecExpr::Ternary {
        condition: Box::new(SpecExpr::Literal(c.kind)),
        then_branch: Box::new(SpecExpr::Literal(d.kind)),
        else_branch: Box::new(SpecExpr::Literal(e.kind)),
    };
    assert(spec_ternary(u4) == (SpecParse {
        out: Option::Some(Result::<SpecExpr, SpecParseError>::Ok(inner)),
        rest: u9,
    }));
    let outer = SpecExpr::Ternary {
        condition: Box::new(SpecExpr::Literal(a.kind)),
        then_branch: Box::new(SpecExpr::Literal(b.kind)),
        else_branch: Box::new(inner),
    };
    assert(spec_ternary(ts) == (SpecParse {
        out: Option::Some(Result::<SpecExpr, SpecParseError>::Ok(outer)),
        rest: u9,
    }));
    assert(spec_comma(ts) == (SpecParse {
        out: Option::Some(Result::<SpecExpr, SpecParseError>::Ok(outer)),
        rest: u9,
    }));
}

/// Comma has the lowest precedence: over literal operands,
/// `a , b ? c : d` parses as a single comma node whose right operand is
/// the whole ternary, whatever the operands.
pub proof fn lemma_comma_lowest_precedence(
    a: SpecToken,
    comma: SpecToken,
    b: SpecToken,
    q: SpecToken,
    c: SpecToken,
    col: SpecToken,
    d: SpecToken,
)
    requires
        is_literal_kind(a.kind),
        is_literal_kind(b.kind),
        is_literal_kind(c.kind),
        is_literal_kind(d.kind),
        is_comma_op(comma.kind),
        is_ternary_then_op(q.kind),
        is_ternary_else_op(col.kind),
    ensures
        spec_expression(seq![a, comma, b, q, c, col, d]) == (SpecParse {
            out: Option::Some(
                Result::<SpecExpr, SpecParseError>::Ok(
                    SpecExpr::Binary {
                        left: Box::new(SpecExpr::Literal(a.kind)),
                        operator: comma.kind,
                        right: Box::new(
                            SpecExpr::Ternary {
                                condition: Box::new(SpecExpr::Literal(b.kind)),
                                then_branch: Box::new(SpecExpr::Literal(c.kind)),
                                else_branch: Box::new(SpecExpr::Literal(d.kind)),
                            },
                        ),
                    },
                ),
            ),
            rest: Seq::<SpecToken>::empty(),
        }),
{
    let ts = seq![a, comma, b, q, c, col, d];
    let v1 = seq![comma, b, q, c, col, d];
    let v2 = seq![b, q, c, col, d];
    let v3 = seq![q, c, col, d];
    let v4 = seq![c, col, d];
    let v5 = seq![col, d];
    let v6 = seq![d];
    let v7 = Seq::<SpecToken>::empty();
    assert(ts.skip(1) =~= v1);
    assert(v1.skip(1) =~= v2);
    assert(v2.skip(1) =~= v3);
    assert(v3.skip(1) =~= v4);
    assert(v4.skip(1) =~= v5);
    assert(v5.skip(1) =~= v6);
    assert(v6.skip(1) =~= v7);
    lemma_ternary_lit(ts);
    lemma_comparison_lit(v2);
    lemma_expression_lit(v4);
    lemma_ternary_lit(v6);
    let right = SpecExpr::Ternary {
        condition: Box::new(SpecExpr::Literal(b.kind)),
        then_branch: Box::new(SpecExpr::Literal(c.kind)),
        else_branch: Box::new(SpecExpr::Literal(d.kind)),
    };
    assert(spec_ternary(v2) == (SpecParse {
        out: Option::Some(Result::<SpecExpr, SpecParseError>::Ok(right)),
        rest: v7,
    }));
    let folded = SpecExpr::Binary {
        left: Box::new(SpecExpr::Literal(a.kind)),
        operator: comma.kind,
        right: Box::new(right),
    };
    assert(spec_comma_rest(SpecExpr::Literal(a.kind), v1) == (SpecParse {
        out: Option::Some(Result::<SpecExpr, SpecParseError>::Ok(folded)),
        rest: v7,
    }));
    assert(spec_comma(ts) == (SpecParse {
        out: Option::Some(Result::<SpecExpr, SpecParseError>::Ok(folded)),
        rest: v7,
    }));
}

} // verus!
