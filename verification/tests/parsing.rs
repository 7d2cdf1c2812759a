use rox::expr::error::Error as CategoryError;
use rox::expr::formatter::AstFormatter;
use rox::expr::terminal::{BinaryOperator, Literal, UnaryOperator};
use rox::expr::Expr;
use rox::parser::error::Error;
use rox::parser::Parser;
use rox::scanner::scan;
use rox::token::{Token, TokenKind};

fn tokens_of(source: &str) -> Vec<Token> {
    scan(source)
        .into_iter()
        .map(|r| r.expect("Failed to parse source code"))
        .collect()
}

#[test]
fn parser_comma_ok() {
    let src = "43, 52";
    let tokens = tokens_of(src);
    let mut parser = Parser::new(tokens);
    let result = parser.comma();
    let expr = result.expect("expected a parse result").expect("expected an expression");
    assert!(matches!(expr, Expr::Binary { left: _, operator: _, right: _ }));
    println!("{:?}", AstFormatter.visit(&expr));
}

#[test]
fn parser_comma_multiple_ok() {
    let src = "43, 52, 123";
    let tokens = tokens_of(src);
    let mut parser = Parser::new(tokens);
    let result = parser.comma();
    let expr = result.expect("expected a parse result").expect("expected an expression");
    assert!(matches!(expr, Expr::Binary { left: _, operator: _, right: _ }));
    println!("{:?}", AstFormatter.visit(&expr));
}

#[test]
fn parser_comparison_ok() {
    let src = "43 < 52";
    let tokens = tokens_of(src);
    let mut parser = Parser::new(tokens);
    let result = parser.comparison();
    let expr = result.expect("expected a parse result").expect("expected an expression");
    assert!(matches!(expr, Expr::Binary { left: _, operator: _, right: _ }));
    println!("{:?}", AstFormatter.visit(&expr));
}

#[test]
fn parser_simple_ok() {
    let src = r#"(
    4 + 5 * 3 / 7 <= - 2 + (-1) + "anass" ? 1, 2, 5 + 5 ? 7 : 8 : 9
)"#;
    let tokens = tokens_of(src);
    let mut parser = Parser::new(tokens);
    let expr = parser.next();
    let expr = expr.expect("expected a parse result").expect("expected an expression");
    assert!(matches!(expr, Expr::Grouping(_)));
    println!("{}", AstFormatter.visit(&expr));
}

#[test]
fn parser_ternary_single_ok() {
    let src = "1 > 2 ? 2> 3 : 5 < 6";
    let tokens = tokens_of(src);
    let mut parser = Parser::new(tokens);
    let result = parser.ternary();
    let expr = result.expect("expected a parse result").expect("expected an expression");
    assert!(matches!(expr, Expr::Ternary { condition: _, then_branch: _, else_branch: _ }));
    println!("{:?}", AstFormatter.visit(&expr));
}

#[test]
fn parser_ternary_multiple_ok() {
    let src = "true ? 43 : false ? 1 <= 2 ? 10 : 123 : 224";
    let tokens = tokens_of(src);
    let mut parser = Parser::new(tokens);
    let result = parser.ternary();
    let expr = result.expect("expected a parse result").expect("expected an expression");
    assert!(matches!(expr, Expr::Ternary { condition: _, then_branch: _, else_branch: _ }));
    println!("{:?}", AstFormatter.visit(&expr));
}

#[test]
fn subtraction_is_left_associative() {
    let tokens = tokens_of("1 - 2 - 3");
    let mut parser = Parser::new(tokens);
    let expr = parser.next().unwrap().unwrap();
    assert_eq!(AstFormatter.visit(&expr), "(- (- 1 2) 3)");
}

#[test]
fn ternary_is_right_associative() {
    let tokens = tokens_of("1 ? 2 : 3 ? 4 : 5");
    let mut parser = Parser::new(tokens);
    let expr = parser.next().unwrap().unwrap();
    match expr {
        Expr::Ternary { condition: _, then_branch: _, else_branch } => match *else_branch {
            Expr::Ternary { condition, then_branch, else_branch } => {
                assert_eq!(AstFormatter.visit(&condition), "3");
                assert_eq!(AstFormatter.visit(&then_branch), "4");
                assert_eq!(AstFormatter.visit(&else_branch), "5");
            }
            other => panic!("the outer else branch must itself be a ternary, got {other:?}"),
        },
        other => panic!("expected a ternary, got {other:?}"),
    }
}

#[test]
fn comma_has_lowest_precedence() {
    let tokens = tokens_of("1, 2 ? 3 : 4");
    let mut parser = Parser::new(tokens);
    let expr = parser.next().unwrap().unwrap();
    match expr {
        Expr::Binary { left, operator, right } => {
            assert_eq!(*operator.as_kind(), TokenKind::Comma);
            assert_eq!(AstFormatter.visit(&left), "1");
            assert!(matches!(
                *right,
                Expr::Ternary { condition: _, then_branch: _, else_branch: _ }
            ));
            assert_eq!(AstFormatter.visit(&right), "(? 2 3 4)");
        }
        other => panic!("expected one comma node, got {other:?}"),
    }
}

#[test]
fn grouping_not_closed_carries_the_inner_expression() {
    let tokens = tokens_of("(1 + 2");
    let mut parser = Parser::new(tokens);
    match parser.next() {
        Some(Err(Error::GroupingNotClosed { left_paren, expr })) => {
            assert_eq!(left_paren.kind, TokenKind::LeftParen);
            assert_eq!(AstFormatter.visit(&expr), "(+ 1 2)");
        }
        other => panic!("expected GroupingNotClosed, got {other:?}"),
    }
}

#[test]
fn grouping_missing_expression() {
    let tokens = tokens_of("(");
    let mut parser = Parser::new(tokens);
    match parser.next() {
        Some(Err(Error::GroupingMissingExpression { left_paren })) => {
            assert_eq!(left_paren.kind, TokenKind::LeftParen);
            assert_eq!(left_paren.offset, 0);
        }
        other => panic!("expected GroupingMissingExpression, got {other:?}"),
    }
}

#[test]
fn ternary_missing_then_branch() {
    let tokens = tokens_of("1 ?");
    let mut parser = Parser::new(tokens);
    match parser.next() {
        Some(Err(Error::TernaryMissingThenBranch { question, then_operator })) => {
            assert_eq!(AstFormatter.visit(&question), "1");
            assert_eq!(then_operator.kind, TokenKind::Question);
        }
        other => panic!("expected TernaryMissingThenBranch, got {other:?}"),
    }
}

#[test]
fn ternary_missing_else_operator() {
    let tokens = tokens_of("1 ? 2");
    let mut parser = Parser::new(tokens);
    match parser.next() {
        Some(Err(Error::TernaryMissingElseOperator { question, then_operator, then_branch })) => {
            assert_eq!(AstFormatter.visit(&question), "1");
            assert_eq!(then_operator.kind, TokenKind::Question);
            assert_eq!(AstFormatter.visit(&then_branch), "2");
        }
        other => panic!("expected TernaryMissingElseOperator, got {other:?}"),
    }
}

#[test]
fn ternary_missing_else_branch() {
    let tokens = tokens_of("1 ? 2 :");
    let mut parser = Parser::new(tokens);
    match parser.next() {
        Some(Err(Error::TernaryMissingElseBranch {
            question,
            then_operator,
            then_branch,
            else_operator,
        })) => {
            assert_eq!(AstFormatter.visit(&question), "1");
            assert_eq!(then_operator.kind, TokenKind::Question);
            assert_eq!(AstFormatter.visit(&then_branch), "2");
            assert_eq!(else_operator.kind, TokenKind::Colon);
        }
        other => panic!("expected TernaryMissingElseBranch, got {other:?}"),
    }
}

#[test]
fn parser_is_a_repeatable_producer() {
    let tokens = tokens_of("1 + 2 3 * 4");
    let mut parser = Parser::new(tokens);
    let first = parser.next().unwrap().unwrap();
    assert_eq!(AstFormatter.visit(&first), "(+ 1 2)");
    let second = parser.next().unwrap().unwrap();
    assert_eq!(AstFormatter.visit(&second), "(* 3 4)");
    assert!(parser.next().is_none());
}

#[test]
fn category_conversion_rejects_the_wrong_kind() {
    let dot = Token::new(TokenKind::Dot, None, 1, 0);
    match BinaryOperator::try_from(dot) {
        Err(CategoryError::BinaryOperator(t)) => assert_eq!(t.kind, TokenKind::Dot),
        other => panic!("expected a BinaryOperator category error, got {other:?}"),
    }
    let star = Token::new(TokenKind::Star, None, 1, 0);
    match UnaryOperator::try_from(star) {
        Err(CategoryError::UnaryOperator(t)) => assert_eq!(t.kind, TokenKind::Star),
        other => panic!("expected a UnaryOperator category error, got {other:?}"),
    }
    let ident = Token::new(TokenKind::Identifier, Some("x".to_string()), 1, 0);
    match Literal::try_from(ident) {
        Err(CategoryError::Literal(t)) => assert_eq!(t.kind, TokenKind::Identifier),
        other => panic!("expected a Literal category error, got {other:?}"),
    }
    let minus = Token::new(TokenKind::Minus, None, 1, 0);
    assert!(UnaryOperator::try_from(minus).is_ok());
}

#[test]
fn division_is_left_associative() {
    let tokens = tokens_of("8 / 2 / 2");
    let mut parser = Parser::new(tokens);
    let expr = parser.next().unwrap().unwrap();
    assert_eq!(AstFormatter.visit(&expr), "(/ (/ 8 2) 2)");
}
