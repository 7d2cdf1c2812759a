use rox::scanner::error::Error;
use rox::scanner::{scan, Scanner};
use rox::token::{Token, TokenKind};

fn next_token(scanner: &mut Scanner) -> Token {
    match scanner.next() {
        Some(Ok(t)) => t,
        other => panic!("expected a token, got {other:?}"),
    }
}

#[test]
fn lex_empty_string() {
    let input = "";
    let mut scanner = Scanner::new(input);

    assert!(scanner.next().is_none());
}

#[test]
fn lex_single_tokens_ok() {
    let input = "(){},.-+;";
    let mut scanner = Scanner::new(input);

    let expected = [
        TokenKind::LeftParen,
        TokenKind::RightParen,
        TokenKind::LeftBrace,
        TokenKind::RightBrace,
        TokenKind::Comma,
        TokenKind::Dot,
        TokenKind::Minus,
        TokenKind::Plus,
        TokenKind::SemiColon,
    ];
    for expected_kind in expected {
        let t = next_token(&mut scanner);
        assert!(
            t.kind == expected_kind && t.lexeme.is_none() && t.line == 1,
            "Faild to match expected token {expected_kind:?}"
        );
    }
    assert!(scanner.next().is_none());
}

#[test]
fn lex_multi_character_ok() {
    let source = "< <= >= == <= !!=";
    let mut scanner = Scanner::new(source);

    let expected = [
        TokenKind::Less,
        TokenKind::LessEqual,
        TokenKind::GreaterEqual,
        TokenKind::EqualEqual,
        TokenKind::LessEqual,
        TokenKind::Bang,
        TokenKind::BangEqual,
    ];
    for expected_kind in expected {
        let t = next_token(&mut scanner);
        assert!(
            t.kind == expected_kind && t.lexeme.is_none() && t.line == 1,
            "Faild to match expected token {expected_kind:?}"
        );
    }
    assert!(scanner.next().is_none());
}

#[test]
fn lex_free_form_ok() {
    let source = "// this is a comment
(( )){} // grouping stuff
!*+-/=<> <= == // operators";
    let mut scanner = Scanner::new(source);

    let expected = [
        (TokenKind::LeftParen, 2),
        (TokenKind::LeftParen, 2),
        (TokenKind::RightParen, 2),
        (TokenKind::RightParen, 2),
        (TokenKind::LeftBrace, 2),
        (TokenKind::RightBrace, 2),
        (TokenKind::Bang, 3),
        (TokenKind::Star, 3),
        (TokenKind::Plus, 3),
        (TokenKind::Minus, 3),
        (TokenKind::Slash, 3),
        (TokenKind::Equal, 3),
        (TokenKind::Less, 3),
        (TokenKind::Greater, 3),
        (TokenKind::LessEqual, 3),
        (TokenKind::EqualEqual, 3),
    ];
    for (expected_kind, expected_line) in expected {
        let t = next_token(&mut scanner);
        assert!(
            t.kind == expected_kind && t.lexeme.is_none() && t.line == expected_line,
            "Failed to match expected_kind {expected_kind:?}, expected_line {expected_line:?}"
        );
    }
    assert!(scanner.next().is_none());
}

#[test]
fn test_number_parsing() {
    let source = "
          123          // simple integer
          45.67        // simple decimal
          .89          // leading dot (should be separate tokens)
          12.          // trailing dot
          34.56x       // decimal with trailing char
          78.9.0       // multiple dots
          0.0          // zero cases
          123e45       // scientific notation (not supported)
          12_34        // underscores (not supported)
          12.34.56.78  // multiple dots
          56.          // trailing dot
          .            // single dot
          999999.999999 // large numbers
          12.3.4       // invalid decimal
      ";

    let mut scanner = Scanner::new(source);

    let number = |text: &str| TokenKind::Number(text.to_string());
    let expected = [
        (number("123"), Some("123"), 2),
        (number("45.67"), Some("45.67"), 3),
        (TokenKind::Dot, None, 4),
        (number("89"), Some("89"), 4),
        (number("12"), Some("12"), 5),
        (TokenKind::Dot, None, 5),
        (number("34.56"), Some("34.56"), 6),
        (TokenKind::Identifier, Some("x"), 6),
        (number("78.9"), Some("78.9"), 7),
        (TokenKind::Dot, None, 7),
        (number("0"), Some("0"), 7),
        (number("0.0"), Some("0.0"), 8),
        (number("123"), Some("123"), 9),
        (TokenKind::Identifier, Some("e45"), 9),
        (number("12"), Some("12"), 10),
        (TokenKind::Identifier, Some("_34"), 10),
        (number("12.34"), Some("12.34"), 11),
        (TokenKind::Dot, None, 11),
        (number("56.78"), Some("56.78"), 11),
        (number("56"), Some("56"), 12),
        (TokenKind::Dot, None, 12),
        (TokenKind::Dot, None, 13),
        (number("999999.999999"), Some("999999.999999"), 14),
        (number("12.3"), Some("12.3"), 15),
        (TokenKind::Dot, None, 15),
        (number("4"), Some("4"), 15),
    ];

    for (i, (expected_kind, expected_lexeme, expected_line)) in expected.into_iter().enumerate() {
        let t = next_token(&mut scanner);
        assert!(
            t.kind == expected_kind
                && t.lexeme.as_deref() == expected_lexeme
                && t.line == expected_line,
            "Failed at token {}: expected {:?}",
            i + 1,
            (expected_kind, expected_lexeme, expected_line)
        );
    }

    assert!(scanner.next().is_none(), "Unexpected extra tokens");

    let edge_cases = [
        ("", vec![]),
        (".", vec![(TokenKind::Dot, None, 1)]),
        ("123", vec![(number("123"), Some("123"), 1)]),
        (
            "12.3.4",
            vec![
                (number("12.3"), Some("12.3"), 1),
                (TokenKind::Dot, None, 1),
                (number("4"), Some("4"), 1),
            ],
        ),
    ];

    for (input, expected) in edge_cases {
        let mut scanner = Scanner::new(input);
        for (i, (expected_kind, expected_lexeme, expected_line)) in expected.into_iter().enumerate()
        {
            let t = next_token(&mut scanner);
            assert!(
                t.kind == expected_kind
                    && t.lexeme.as_deref() == expected_lexeme
                    && t.line == expected_line,
                "Failed at token {}: expected {:?}",
                i + 1,
                (expected_kind, expected_lexeme, expected_line)
            );
        }
        assert!(scanner.next().is_none(), "Extra tokens in edge case: {input:?}");
    }
}

#[test]
fn whitespace_and_comments_yield_no_tokens() {
    let source = "  \t\r\n  // a line comment\n/* a block\ncomment */   \n// ends the input";
    let mut scanner = Scanner::new(source);
    assert!(scanner.next().is_none());
    assert_eq!(scan(source).len(), 0);
}

#[test]
fn unterminated_string_is_the_only_result() {
    let source = "\"abc";
    let mut scanner = Scanner::new(source);
    match scanner.next() {
        Some(Err(Error::UnterminatedString { line, offset })) => {
            assert_eq!(line, 1);
            assert_eq!(offset, 0);
        }
        other => panic!("expected UnterminatedString, got {other:?}"),
    }
    assert!(scanner.next().is_none());

    let all = scan(source);
    assert_eq!(all.len(), 1);
    assert!(all[0].is_err());
}

#[test]
fn unterminated_block_comment_is_the_only_result() {
    let source = "/* abc";
    let mut scanner = Scanner::new(source);
    match scanner.next() {
        Some(Err(Error::MissingBlockCommentTerminator { line, offset })) => {
            assert_eq!(line, 1);
            assert_eq!(offset, 0);
        }
        other => panic!("expected MissingBlockCommentTerminator, got {other:?}"),
    }
    assert!(scanner.next().is_none());
}

#[test]
fn dotted_number_splits_at_second_dot() {
    let mut scanner = Scanner::new("12.34.56");
    let t1 = next_token(&mut scanner);
    assert_eq!(t1.kind, TokenKind::Number("12.34".to_string()));
    let t2 = next_token(&mut scanner);
    assert_eq!(t2.kind, TokenKind::Dot);
    let t3 = next_token(&mut scanner);
    assert_eq!(t3.kind, TokenKind::Number("56".to_string()));
    assert!(scanner.next().is_none());
}

#[test]
fn string_literal_keeps_content_and_counts_lines() {
    let mut scanner = Scanner::new("\"two\nlines\" +");
    let t = next_token(&mut scanner);
    assert_eq!(t.kind, TokenKind::Str("two\nlines".to_string()));
    assert_eq!(t.lexeme.as_deref(), Some("\"two\nlines\""));
    assert_eq!(t.line, 2);
    assert_eq!(t.offset, 0);
    let plus = next_token(&mut scanner);
    assert_eq!(plus.kind, TokenKind::Plus);
    assert_eq!(plus.line, 2);
    assert!(scanner.next().is_none());
}

#[test]
fn reserved_words_lex_to_keyword_kinds() {
    let words = [
        ("and", TokenKind::And),
        ("class", TokenKind::Class),
        ("else", TokenKind::Else),
        ("false", TokenKind::False),
        ("for", TokenKind::For),
        ("fun", TokenKind::Fun),
        ("if", TokenKind::If),
        ("nil", TokenKind::Nil),
        ("or", TokenKind::Or),
        ("print", TokenKind::Print),
        ("return", TokenKind::Return),
        ("super", TokenKind::Super),
        ("this", TokenKind::This),
        ("true", TokenKind::True),
        ("var", TokenKind::Var),
        ("while", TokenKind::While),
    ];
    for (word, kind) in words {
        let mut scanner = Scanner::new(word);
        let t = next_token(&mut scanner);
        assert_eq!(t.kind, kind, "reserved word {word} must lex to its keyword kind");
        assert!(t.lexeme.is_none());
        assert!(scanner.next().is_none());
    }
    for other in ["andy", "classes", "_if", "For", "nil0", "x"] {
        let mut scanner = Scanner::new(other);
        let t = next_token(&mut scanner);
        assert_eq!(t.kind, TokenKind::Identifier, "{other} must lex to Identifier");
        assert_eq!(t.lexeme.as_deref(), Some(other));
        assert!(scanner.next().is_none());
    }
}

#[test]
fn invalid_character_is_reported_and_skipped() {
    let mut scanner = Scanner::new("@7");
    match scanner.next() {
        Some(Err(Error::InvalidCharacter { character, line, offset })) => {
            assert_eq!(character, '@');
            assert_eq!(line, 1);
            assert_eq!(offset, 0);
        }
        other => panic!("expected InvalidCharacter, got {other:?}"),
    }
    let t = next_token(&mut scanner);
    assert_eq!(t.kind, TokenKind::Number("7".to_string()));
    assert!(scanner.next().is_none());
}

#[test]
fn scan_returns_the_whole_stream_in_order() {
    let all = scan("1 + 2");
    assert_eq!(all.len(), 3);
    assert_eq!(all[0].as_ref().unwrap().kind, TokenKind::Number("1".to_string()));
    assert_eq!(all[1].as_ref().unwrap().kind, TokenKind::Plus);
    assert_eq!(all[2].as_ref().unwrap().kind, TokenKind::Number("2".to_string()));
    assert_eq!(all[1].as_ref().unwrap().offset, 2);
}

#[test]
fn block_comment_terminates_and_counts_lines() {
    let mut scanner = Scanner::new("/* first\nsecond */ +");
    let t = next_token(&mut scanner);
    assert_eq!(t.kind, TokenKind::Plus);
    assert_eq!(t.line, 2);
    assert!(scanner.next().is_none());
}

#[test]
fn slash_alone_is_an_operator() {
    let mut scanner = Scanner::new("8 / 2");
    assert_eq!(next_token(&mut scanner).kind, TokenKind::Number("8".to_string()));
    assert_eq!(next_token(&mut scanner).kind, TokenKind::Slash);
    assert_eq!(next_token(&mut scanner).kind, TokenKind::Number("2".to_string()));
    assert!(scanner.next().is_none());
}
