use rox::diagnostics::{byte_offset, lex_error_diagnostic, parse_error_diagnostic};
use rox::parser::Parser;
use rox::reporting::{dec_string, error, report};
use rox::scanner::{scan, Scanner};

#[test]
fn report_lines_are_built_exactly() {
    assert_eq!(report(12, "loc", "boom"), "[line 12] Error loc: boom");
    assert_eq!(error(3, "bad input"), "[line 3] Error : bad input");
    assert_eq!(dec_string(0), "0");
    assert_eq!(dec_string(907), "907");
    assert_eq!(dec_string(10), "10");
}

#[test]
fn invalid_character_span_counts_bytes() {
    // U+00A0 is whitespace and two bytes long in UTF-8, so the invalid `@`
    // at character offset 1 starts at byte offset 2.
    let source = "\u{a0}@";
    let mut scanner = Scanner::new(source);
    let err = match scanner.next() {
        Some(Err(e)) => e,
        other => panic!("expected a lexical error, got {other:?}"),
    };
    let d = lex_error_diagnostic(&err, source);
    assert_eq!(d.message, "invalid character");
    assert_eq!(d.labels.len(), 1);
    assert_eq!(d.labels[0].offset, 2);
    assert_eq!(d.labels[0].len, 1);
    assert_eq!(d.labels[0].text, "this character here");
}

#[test]
fn unterminated_string_span_points_at_the_quote() {
    let source = "1 \"abc";
    let err = scan(source)
        .into_iter()
        .find_map(|r| r.err())
        .expect("expected a lexical error");
    let d = lex_error_diagnostic(&err, source);
    assert_eq!(d.message, "unterminated string literal");
    assert_eq!(d.labels[0].offset, 2);
    assert_eq!(d.labels[0].len, 1);
    assert_eq!(d.labels[0].text, "string literal starts here");
}

#[test]
fn unterminated_block_comment_span_names_the_opener() {
    let source = "/* abc";
    let err = scan(source)
        .into_iter()
        .find_map(|r| r.err())
        .expect("expected a lexical error");
    let d = lex_error_diagnostic(&err, source);
    assert_eq!(d.message, "unterminated block comment");
    assert_eq!(d.labels[0].offset, 0);
    assert_eq!(d.labels[0].len, 2);
    assert_eq!(d.labels[0].text, "block comment starts here");
}

#[test]
fn grouping_not_closed_span_points_at_the_paren() {
    let source = "(1 + 2";
    let tokens = scan(source).into_iter().map(|r| r.unwrap()).collect();
    let mut parser = Parser::new(tokens);
    let err = match parser.next() {
        Some(Err(e)) => e,
        other => panic!("expected a parse error, got {other:?}"),
    };
    let d = parse_error_diagnostic(&err, source);
    assert_eq!(d.message, "Expected ')' after expression");
    assert_eq!(d.labels.len(), 1);
    assert_eq!(d.labels[0].offset, 0);
    assert_eq!(d.labels[0].len, 1);
}

#[test]
fn byte_offsets_follow_utf8_widths() {
    let source = "a\u{e9}\u{4e16}b";
    assert_eq!(byte_offset(source, 0), 0);
    assert_eq!(byte_offset(source, 1), 1);
    assert_eq!(byte_offset(source, 2), 3);
    assert_eq!(byte_offset(source, 3), 6);
    assert_eq!(byte_offset(source, 4), 7);
}
