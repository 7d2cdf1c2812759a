//! The parser: a recursive-descent, precedence-climbing consumer of a
//! pre-validated token stream, producing AST nodes or structural parse
//! errors.
//!
//! The parser holds a cursor over its tokens and is a repeatable producer:
//! each call of [`Parser::next`] parses one top-level expression out of
//! the remaining stream, so successive calls parse successive expressions
//! until the stream is exhausted (`None`, distinct from an error). Every
//! rule is proved to take exactly the step its model in [`model`]
//! describes. The caller is responsible for separating lexical errors out
//! before feeding tokens here.

pub mod error;
pub mod model;

use vstd::prelude::*;
use vstd::pervasive::unreached;

use crate::expr::terminal::{
    BinaryOperator, CommaOperator, ComparisonOperator, FactorOperator, Literal, TermOperator,
    TernaryElseOperator, TernaryThenOperator, UnaryOperator,
};
use crate::expr::{Expr, SpecExpr};
use crate::parser::error::Error;
use crate::parser::model::{
    lemma_comma_shape, lemma_comparison_shape, lemma_expression_shape, lemma_factor_shape,
    lemma_primary_shape, lemma_term_shape, lemma_ternary_shape, lemma_unary_shape, spec_comma,
    spec_comma_rest, spec_comparison, spec_comparison_rest, spec_expression, spec_factor,
    spec_factor_rest, spec_primary, spec_term, spec_term_rest, spec_ternary, spec_unary,
    SpecParseError,
};
use crate::token::{SpecToken, SpecTokenKind, Token, TokenKind};

verus! {

/// The view of a token sequence.
pub open spec fn toks_view(v: Seq<Token>) -> Seq<SpecToken> {
    v.map_values(|t: Token| t@)
}

/// The view of one parser outcome.
pub open spec fn res_view(r: Option<Result<Expr, Error>>) -> Option<
    Result<SpecExpr, SpecParseError>,
> {
    match r {
        Option::None => Option::None,
        Option::Some(Result::Ok(e)) => Option::Some(Result::Ok(e@)),
        Option::Some(Result::Err(e)) => Option::Some(Result::Err(e@)),
    }
}

/// Whether `t` is the opening parenthesis.
fn is_left_paren(t: &Token) -> (r: bool)
    ensures
        r == (t@.kind == SpecTokenKind::LeftParen),
{
    matches!(t.kind, TokenKind::LeftParen)
}

/// Whether `t` is the closing parenthesis.
fn is_right_paren(t: &Token) -> (r: bool)
    ensures
        r == (t@.kind == SpecTokenKind::RightParen),
{
    matches!(t.kind, TokenKind::RightParen)
}

/// The parser over one token stream: the tokens and a single-lookahead
/// cursor.
pub struct Parser {
    tokens: Vec<Token>,
    pos: usize,
}

impl Parser {
    /// The tokens not yet consumed.
    pub closed spec fn remaining(&self) -> Seq<SpecToken> {
        toks_view(self.tokens@).skip(self.pos as int)
    }

    /// The parser's internal invariant: the cursor lies within the stream.
    pub closed spec fn wf(&self) -> bool {
        self.pos <= self.tokens@.len()
    }

    /// Builds a parser at the start of `tokens`.
    pub fn new(tokens: Vec<Token>) -> (p: Parser)
        ensures
            p.wf(),
            p.remaining() == toks_view(tokens@),
    {
        let p = Parser { tokens, pos: 0 };
        proof {
            assert(p.remaining() =~= toks_view(p.tokens@));
        }
        p
    }

    /// The next unconsumed token, without consuming it.
    fn peek(&self) -> (r: Option<&Token>)
        requires
            self.wf(),
        ensures
            match r {
                Option::Some(t) => self.remaining().len() > 0 && t@ == self.remaining()[0],
                Option::None => self.remaining().len() == 0,
            },
    {
        if self.pos < self.tokens.len() {
            Option::Some(&self.tokens[self.pos])
        } else {
            Option::None
        }
    }

    /// Consumes and returns the next token.
    fn take(&mut self) -> (t: Token)
        requires
            old(self).wf(),
            old(self).remaining().len() > 0,
        ensures
            final(self).wf(),
            t@ == old(self).remaining()[0],
            final(self).remaining() == old(self).remaining().skip(1),
    {
        let n = self.tokens.len();
        proof {
            assert(old(self).remaining().len() == n - self.pos);
        }
        let t = self.tokens[self.pos].duplicate();
        proof {
            assert(toks_view(self.tokens@).skip(self.pos + 1) =~= toks_view(self.tokens@).skip(
                self.pos as int,
            ).skip(1));
        }
        self.pos = self.pos + 1;
        t
    }

    /// Parses one general expression: the lowest-precedence rule.
    pub fn expression(&mut self) -> (r: Option<Result<Expr, Error>>)
        requires
            old(self).wf(),
        ensures
            final(self).wf(),
            ({
                let sp = spec_expression(old(self).remaining());
                &&& res_view(r) == sp.out
                &&& final(self).remaining() == sp.rest
            }),
        decreases self.remaining().len(), 16int,
    {
        self.comma()
    }

    /// Parses one top-level expression out of the remaining stream: `None`
    /// at clean exhaustion, otherwise the expression or the structural
    /// error it ran into.
    pub fn next(&mut self) -> (r: Option<Result<Expr, Error>>)
        requires
            old(self).wf(),
        ensures
            final(self).wf(),
            ({
                let sp = spec_expression(old(self).remaining());
                &&& res_view(r) == sp.out
                &&& final(self).remaining() == sp.rest
            }),
    {
        self.expression()
    }

    /// Parses a comma expression: lowest precedence, left-associative.
    #[verifier::loop_isolation(false)]
    pub fn comma(&mut self) -> (r: Option<Result<Expr, Error>>)
        requires
            old(self).wf(),
        ensures
            final(self).wf(),
            ({
                let sp = spec_comma(old(self).remaining());
                &&& res_view(r) == sp.out
                &&& final(self).remaining() == sp.rest
            }),
        decreases self.remaining().len(), 14int,
    {
        let ghost ts0 = self.remaining();
        proof {
            lemma_ternary_shape(ts0);
        }
        let r1 = self.ternary();
        let mut expr = match r1 {
            Option::Some(Result::Ok(e)) => e,
            Option::Some(Result::Err(e)) => {
                return Option::Some(Result::Err(e));
            },
            Option::None => {
                return Option::None;
            },
        };
        let ghost target = spec_comma(ts0);
        proof {
            assert(target == spec_comma_rest(expr@, self.remaining()));
        }
        loop
            invariant
                self.wf(),
                self.remaining().len() < ts0.len(),
                target == spec_comma_rest(expr@, self.remaining()),
            decreases self.remaining().len(),
        {
            let go = match self.peek() {
                Option::Some(t) => CommaOperator::matches(t),
                Option::None => false,
            };
            if !go {
                return Option::Some(Result::Ok(expr));
            }
            let optok = self.take();
            let op = match BinaryOperator::try_from(optok) {
                Result::Ok(op) => op,
                Result::Err(_) => unreached(),
            };
            proof {
                lemma_ternary_shape(self.remaining());
            }
            let r2 = self.ternary();
            match r2 {
                Option::Some(Result::Ok(right)) => {
                    expr = Expr::binary(expr, op, right);
                },
                Option::Some(Result::Err(e)) => {
                    return Option::Some(Result::Err(e));
                },
                Option::None => {
                    return Option::None;
                },
            }
        }
    }

    /// Parses a ternary expression: right-associative, recursing into
    /// itself for the else branch. Each failure carries the already-parsed
    /// partial state.
    pub fn ternary(&mut self) -> (r: Option<Result<Expr, Error>>)
        requires
            old(self).wf(),
        ensures
            final(self).wf(),
            ({
                let sp = spec_ternary(old(self).remaining());
                &&& res_view(r) == sp.out
                &&& final(self).remaining() == sp.rest
            }),
        decreases self.remaining().len(), 12int,
    {
        let ghost ts0 = self.remaining();
        proof {
            lemma_comparison_shape(ts0);
        }
        let r1 = self.comparison();
        let expr = match r1 {
            Option::Some(Result::Ok(e)) => e,
            Option::Some(Result::Err(e)) => {
                return Option::Some(Result::Err(e));
            },
            Option::None => {
                return Option::None;
            },
        };
        let go = match self.peek() {
            Option::Some(t) => TernaryThenOperator::matches(t),
            Option::None => false,
        };
        if !go {
            return Option::Some(Result::Ok(expr));
        }
        let qtok = self.take();
        proof {
            lemma_expression_shape(self.remaining());
        }
        let r2 = self.expression();
        let then_branch = match r2 {
            Option::Some(Result::Ok(e)) => e,
            Option::None => {
                return Option::Some(
                    Result::Err(Error::TernaryMissingThenBranch {
                        question: expr,
                        then_operator: qtok,
                    }),
                );
            },
            Option::Some(Result::Err(e)) => {
                return Option::Some(Result::Err(e));
            },
        };
        let go2 = match self.peek() {
            Option::Some(t) => TernaryElseOperator::matches(t),
            Option::None => false,
        };
        if !go2 {
            return Option::Some(
                Result::Err(Error::TernaryMissingElseOperator {
                    question: expr,
                    then_operator: qtok,
                    then_branch,
                }),
            );
        }
        let ctok = self.take();
        proof {
            lemma_ternary_shape(self.remaining());
        }
        let r3 = self.ternary();
        match r3 {
            Option::Some(Result::Ok(else_branch)) => Option::Some(
                Result::Ok(Expr::ternary(expr, then_branch, else_branch)),
            ),
            Option::None => Option::Some(
                Result::Err(Error::TernaryMissingElseBranch {
                    question: expr,
                    then_operator: qtok,
                    then_branch,
                    else_operator: ctok,
                }),
            ),
            Option::Some(Result::Err(e)) => Option::Some(Result::Err(e)),
        }
    }

    /// Parses a comparison expression: left-associative.
    #[verifier::loop_isolation(false)]
    pub fn comparison(&mut self) -> (r: Option<Result<Expr, Error>>)
        requires
            old(self).wf(),
        ensures
            final(self).wf(),
            ({
                let sp = spec_comparison(old(self).remaining());
                &&& res_view(r) == sp.out
                &&& final(self).remaining() == sp.rest
            }),
        decreases self.remaining().len(), 10int,
    {
        let ghost ts0 = self.remaining();
        proof {
            lemma_term_shape(ts0);
        }
        let r1 = self.term();
        let mut expr = match r1 {
            Option::Some(Result::Ok(e)) => e,
            Option::Some(Result::Err(e)) => {
                return Option::Some(Result::Err(e));
            },
            Option::None => {
                return Option::None;
            },
        };
        let ghost target = spec_comparison(ts0);
        proof {
            assert(target == spec_comparison_rest(expr@, self.remaining()));
        }
        loop
            invariant
                self.wf(),
                self.remaining().len() < ts0.len(),
                target == spec_comparison_rest(expr@, self.remaining()),
            decreases self.remaining().len(),
        {
            let go = match self.peek() {
                Option::Some(t) => ComparisonOperator::matches(t),
                Option::None => false,
            };
            if !go {
                return Option::Some(Result::Ok(expr));
            }
            let optok = self.take();
            let op = match BinaryOperator::try_from(optok) {
                Result::Ok(op) => op,
                Result::Err(_) => unreached(),
            };
            proof {
                lemma_term_shape(self.remaining());
            }
            let r2 = self.term();
            match r2 {
                Option::Some(Result::Ok(right)) => {
                    expr = Expr::binary(expr, op, right);
                },
                Option::Some(Result::Err(e)) => {
                    return Option::Some(Result::Err(e));
                },
                Option::None => {
                    return Option::None;
                },
            }
        }
    }

    /// Parses a term expression: left-associative over `+` and `-`.
    #[verifier::loop_isolation(false)]
    pub fn term(&mut self) -> (r: Option<Result<Expr, Error>>)
        requires
            old(self).wf(),
        ensures
            final(self).wf(),
            ({
                let sp = spec_term(old(self).remaining());
                &&& res_view(r) == sp.out
                &&& final(self).remaining() == sp.rest
            }),
        decreases self.remaining().len(), 8int,
    {
        let ghost ts0 = self.remaining();
        proof {
            lemma_factor_shape(ts0);
        }
        let r1 = self.factor();
        let mut expr = match r1 {
            Option::Some(Result::Ok(e)) => e,
            Option::Some(Result::Err(e)) => {
                return Option::Some(Result::Err(e));
            },
            Option::None => {
                return Option::None;
            },
        };
        let ghost target = spec_term(ts0);
        proof {
            assert(target == spec_term_rest(expr@, self.remaining()));
        }
        loop
            invariant
                self.wf(),
                self.remaining().len() < ts0.len(),
                target == spec_term_rest(expr@, self.remaining()),
            decreases self.remaining().len(),
        {
            let go = match self.peek() {
                Option::Some(t) => TermOperator::matches(t),
                Option::None => false,
            };
            if !go {
                return Option::Some(Result::Ok(expr));
            }
            let optok = self.take();
            let op = match BinaryOperator::try_from(optok) {
                Result::Ok(op) => op,
                Result::Err(_) => unreached(),
            };
            proof {
                lemma_factor_shape(self.remaining());
            }
            let r2 = self.factor();
            match r2 {
                Option::Some(Result::Ok(right)) => {
                    expr = Expr::binary(expr, op, right);
                },
                Option::Some(Result::Err(e)) => {
                    return Option::Some(Result::Err(e));
                },
                Option::None => {
                    return Option::None;
                },
            }
        }
    }

    /// Parses a factor expression: left-associative over `*` and `/`.
    #[verifier::loop_isolation(false)]
    pub fn factor(&mut self) -> (r: Option<Result<Expr, Error>>)
        requires
            old(self).wf(),
        ensures
            final(self).wf(),
            ({
                let sp = spec_factor(old(self).remaining());
                &&& res_view(r) == sp.out
                &&& final(self).remaining() == sp.rest
            }),
        decreases self.remaining().len(), 6int,
    {
        let ghost ts0 = self.remaining();
        proof {
            lemma_unary_shape(ts0);
        }
        let r1 = self.unary();
        let mut expr = match r1 {
            Option::Some(Result::Ok(e)) => e,
            Option::Some(Result::Err(e)) => {
                return Option::Some(Result::Err(e));
            },
            Option::None => {
                return Option::None;
            },
        };
        let ghost target = spec_factor(ts0);
        proof {
            assert(target == spec_factor_rest(expr@, self.remaining()));
        }
        loop
            invariant
                self.wf(),
                self.remaining().len() < ts0.len(),
                target == spec_factor_rest(expr@, self.remaining()),
            decreases self.remaining().len(),
        {
            let go = match self.peek() {
                Option::Some(t) => FactorOperator::matches(t),
                Option::None => false,
            };
            if !go {
                return Option::Some(Result::Ok(expr));
            }
            let optok = self.take();
            let op = match BinaryOperator::try_from(optok) {
                Result::Ok(op) => op,
                Result::Err(_) => unreached(),
            };
            proof {
                lemma_unary_shape(self.remaining());
            }
            let r2 = self.unary();
            match r2 {
                Option::Some(Result::Ok(right)) => {
                    expr = Expr::binary(expr, op, right);
                },
                Option::Some(Result::Err(e)) => {
                    return Option::Some(Result::Err(e));
                },
                Option::None => {
                    return Option::None;
                },
            }
        }
    }

    /// Parses a unary expression: an optional `!` or `-` before a primary.
    pub fn unary(&mut self) -> (r: Option<Result<Expr, Error>>)
        requires
            old(self).wf(),
        ensures
            final(self).wf(),
            ({
                let sp = spec_unary(old(self).remaining());
                &&& res_view(r) == sp.out
                &&& final(self).remaining() == sp.rest
            }),
        decreases self.remaining().len(), 4int,
    {
        let go = match self.peek() {
            Option::Some(t) => UnaryOperator::matches(t),
            Option::None => false,
        };
        if !go {
            return self.primary();
        }
        let optok = self.take();
        let op = match UnaryOperator::try_from(optok) {
            Result::Ok(op) => op,
            Result::Err(_) => unreached(),
        };
        let r1 = self.primary();
        match r1 {
            Option::Some(Result::Ok(right)) => Option::Some(Result::Ok(Expr::unary(op, right))),
            Option::Some(Result::Err(e)) => Option::Some(Result::Err(e)),
            Option::None => Option::None,
        }
    }

    /// Parses a primary expression: a literal, or a parenthesized
    /// expression. Returns `None` where neither a literal nor `(` stands
    /// next: no expression here, which is not an error.
    pub fn primary(&mut self) -> (r: Option<Result<Expr, Error>>)
        requires
            old(self).wf(),
        ensures
            final(self).wf(),
            ({
                let sp = spec_primary(old(self).remaining());
                &&& res_view(r) == sp.out
                &&& final(self).remaining() == sp.rest
            }),
        decreases self.remaining().len(), 2int,
    {
        let is_lit = match self.peek() {
            Option::Some(t) => Literal::matches(t),
            Option::None => false,
        };
        if is_lit {
            let t = self.take();
            let lit = match Literal::try_from(t) {
                Result::Ok(lit) => lit,
                Result::Err(_) => unreached(),
            };
            return Option::Some(Result::Ok(Expr::literal(lit)));
        }
        let is_paren = match self.peek() {
            Option::Some(t) => is_left_paren(t),
            Option::None => false,
        };
        if is_paren {
            let ptok = self.take();
            proof {
                lemma_expression_shape(self.remaining());
            }
            let r1 = self.expression();
            return match r1 {
                Option::Some(Result::Ok(e)) => {
                    let closed = match self.peek() {
                        Option::Some(t) => is_right_paren(t),
                        Option::None => false,
                    };
                    if closed {
                        let _rp = self.take();
                        Option::Some(Result::Ok(Expr::grouping(e)))
                    } else {
                        Option::Some(
                            Result::Err(Error::GroupingNotClosed { left_paren: ptok, expr: e }),
                        )
                    }
                },
                Option::None => Option::Some(
                    Result::Err(Error::GroupingMissingExpression { left_paren: ptok }),
                ),
                Option::Some(Result::Err(e)) => Option::Some(Result::Err(e)),
            };
        }
        Option::None
    }
}

} // verus!
