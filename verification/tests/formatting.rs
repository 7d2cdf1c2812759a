use rox::expr::formatter::{AstFormatter, RpnFormatter};
use rox::expr::terminal::{BinaryOperator, Literal, UnaryOperator};
use rox::expr::Expr;
use rox::parser::Parser;
use rox::scanner::scan;
use rox::token::{Token, TokenKind};

fn number_literal(text: &str) -> Literal {
    Literal::try_from(Token::new(
        TokenKind::Number(text.to_string()),
        Some(text.to_string()),
        1,
        0,
    ))
    .unwrap()
}

fn binary_op(kind: TokenKind) -> BinaryOperator {
    BinaryOperator::try_from(Token::new(kind, None, 1, 0)).unwrap()
}

fn unary_op(kind: TokenKind) -> UnaryOperator {
    UnaryOperator::try_from(Token::new(kind, None, 1, 0)).unwrap()
}

#[test]
fn print_ast_binary() {
    let expr = Expr::binary(
        Expr::literal(number_literal("1")),
        binary_op(TokenKind::Plus),
        Expr::literal(number_literal("2")),
    );
    let ast = AstFormatter.visit(&expr);
    println!("{ast}");
    assert_eq!("(+ 1 2)", ast, "wrong Lisp-like notation result");
    let rpn = RpnFormatter.visit(&expr);
    println!("{rpn}");
    assert_eq!("1 2 +", rpn, "wrong RPN result");
}

#[test]
fn print_ast_unary() {
    let expr = Expr::unary(unary_op(TokenKind::Minus), Expr::literal(number_literal("2")));
    let ast = AstFormatter.visit(&expr);
    println!("{ast}");
    assert_eq!("(- 2)", ast, "wrong Lisp-like notation result");
    let rpn = RpnFormatter.visit(&expr);
    println!("{rpn}");
    assert_eq!("-2", rpn, "wrong RPN result");
}

#[test]
fn print_ast_grouping() {
    let expr = Expr::grouping(Expr::literal(number_literal("45.67")));
    let ast = AstFormatter.visit(&expr);
    println!("{ast}");
    assert_eq!("(group 45.67)", ast, "wrong Lisp-like notation result");
    let rpn = RpnFormatter.visit(&expr);
    println!("{rpn}");
    assert_eq!("45.67", rpn, "wrong RPN result");
}

#[test]
fn print_ast_literal() {
    let expr = Expr::literal(number_literal("45.67"));
    let ast = AstFormatter.visit(&expr);
    println!("{ast}");
    assert_eq!("45.67", ast, "wrong Lisp-like notation result");
    let rpn = RpnFormatter.visit(&expr);
    println!("{rpn}");
    assert_eq!("45.67", rpn, "wrong RPN result");
}

#[test]
fn print_ast_mixed() {
    let expr = Expr::binary(
        Expr::unary(unary_op(TokenKind::Minus), Expr::literal(number_literal("123"))),
        binary_op(TokenKind::Star),
        Expr::grouping(Expr::literal(number_literal("45.67"))),
    );
    let ast = AstFormatter.visit(&expr);
    println!("{ast}");
    assert_eq!("(* (- 123) (group 45.67))", ast, "wrong Lisp-like notation result");
    let rpn = RpnFormatter.visit(&expr);
    println!("{rpn}");
    assert_eq!("-123 45.67 *", rpn, "wrong RPN result");
}

#[test]
fn round_trip_through_both_formatters() {
    let tokens: Vec<Token> = scan("4 + 5 * 3").into_iter().map(|r| r.unwrap()).collect();
    let mut parser = Parser::new(tokens);
    let expr = parser.next().unwrap().unwrap();
    assert_eq!(AstFormatter.visit(&expr), "(+ 4 (* 5 3))");
    assert_eq!(RpnFormatter.visit(&expr), "4 5 3 * +");
}

#[test]
fn string_and_keyword_literals_format_by_kind() {
    let s = Literal::try_from(Token::new(
        TokenKind::Str("abc".to_string()),
        Some("\"abc\"".to_string()),
        1,
        0,
    ))
    .unwrap();
    assert_eq!(AstFormatter.visit(&Expr::literal(s)), "\"abc\"");
    let t = Literal::try_from(Token::new(TokenKind::True, None, 1, 0)).unwrap();
    assert_eq!(RpnFormatter.visit(&Expr::literal(t)), "true");
}

#[test]
fn token_text_shows_lexeme_for_identifiers() {
    let ident = Token::new(TokenKind::Identifier, Some("total".to_string()), 1, 0);
    assert_eq!(ident.text(), "total");
    let le = Token::new(TokenKind::LessEqual, None, 1, 0);
    assert_eq!(le.text(), "<=");
    assert_eq!(TokenKind::And.text(), "&&");
    assert_eq!(TokenKind::Number("12.5".to_string()).text(), "12.5");
}

#[test]
fn string_literal_text_is_debug_quoted() {
    assert_eq!(TokenKind::Str("a\\b".to_string()).text(), "\"a\\\\b\"");
    assert_eq!(TokenKind::Str("x\ny".to_string()).text(), "\"x\\ny\"");
    assert_eq!(TokenKind::Str("\r\t\0".to_string()).text(), "\"\\r\\t\\0\"");
    assert_eq!(
        TokenKind::Str("\u{1}\u{7f}\u{9f}".to_string()).text(),
        "\"\\u{1}\\u{7f}\\u{9f}\""
    );
    assert_eq!(TokenKind::Str("say \"hi\"".to_string()).text(), "\"say \\\"hi\\\"\"");
    // The escape set agrees with std's debug formatting on these contents.
    assert_eq!(TokenKind::Str("a\\b\n".to_string()).text(), format!("{:?}", "a\\b\n"));
    // The scanner does not process escapes, so this source holds one real
    // backslash in the literal's content, and the formatters escape it.
    let tokens: Vec<Token> = scan("\"a\\b\"").into_iter().map(|r| r.unwrap()).collect();
    let mut parser = Parser::new(tokens);
    let expr = parser.next().unwrap().unwrap();
    assert_eq!(AstFormatter.visit(&expr), "\"a\\\\b\"");
    assert_eq!(RpnFormatter.visit(&expr), "\"a\\\\b\"");
}
