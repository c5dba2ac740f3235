use bug::ast::{Statement, StatementExpression};
use bug::highlighter::{highlight, highlight_error, highlight_warning};
use bug::lexer::{tokenize, Lexer};
use bug::object::Type;
use bug::parser::{parse_source, Parser, ParserError};
use bug::span::Span;
use bug::text::{chars_of, concat3, concat5, concat7, decimal_text};
use bug::token::{Token, TokenKind};

fn kinds(source: &str) -> Vec<TokenKind> {
    tokenize(source).unwrap().into_iter().map(|t| t.kind).collect()
}

#[test]
fn lexer_cuts_a_function_into_tokens() {
    assert_eq!(
        kinds("f sum (int a, int b) int -> a b + ;"),
        vec![
            TokenKind::Function,
            TokenKind::Identifier("sum".to_string()),
            TokenKind::LeftParent,
            TokenKind::TypeInt,
            TokenKind::Identifier("a".to_string()),
            TokenKind::Comma,
            TokenKind::TypeInt,
            TokenKind::Identifier("b".to_string()),
            TokenKind::RightParent,
            TokenKind::TypeInt,
            TokenKind::Arrow,
            TokenKind::Identifier("a".to_string()),
            TokenKind::Identifier("b".to_string()),
            TokenKind::Plus,
            TokenKind::Semicolon,
            TokenKind::Eof,
        ]
    );
}

#[test]
fn lexer_knows_keywords_literals_and_operators() {
    assert_eq!(
        kinds("fn if return true false str bool void x1_y \"a b\" 42 . - > = _z"),
        vec![
            TokenKind::Function,
            TokenKind::If,
            TokenKind::Return,
            TokenKind::Boolean(true),
            TokenKind::Boolean(false),
            TokenKind::TypeStr,
            TokenKind::TypeBool,
            TokenKind::TypeVoid,
            TokenKind::Identifier("x1_y".to_string()),
            TokenKind::String("a b".to_string()),
            TokenKind::Integer(42),
            TokenKind::Dot,
            TokenKind::Minus,
            TokenKind::RightAngle,
            TokenKind::Equal,
            TokenKind::Identifier("_z".to_string()),
            TokenKind::Eof,
        ]
    );
}

#[test]
fn lexer_tracks_lines_columns_and_offsets() {
    let tokens = tokenize("f main\n  -> 12 ;").unwrap();
    assert_eq!(tokens[0].span, Span::new(1, 1, 0, 0));
    assert_eq!(tokens[1].span, Span::new(1, 3, 2, 5));
    assert_eq!(tokens[2].span, Span::new(2, 3, 9, 10));
    assert_eq!(tokens[3].span, Span::new(2, 6, 12, 13));
    assert_eq!(tokens[4].span, Span::new(2, 9, 15, 15));
    assert_eq!(tokens[5].kind, TokenKind::Eof);
}

#[test]
fn lexer_skips_all_white_space() {
    assert_eq!(kinds(" \t\r\n\u{a0}\u{2003}1"), vec![TokenKind::Integer(1), TokenKind::Eof]);
    assert_eq!(kinds(""), vec![TokenKind::Eof]);
}

#[test]
fn lexer_words_go_on_with_letters_and_digits_of_unicode() {
    assert_eq!(
        kinds("a\u{e9}\u{663}b-"),
        vec![TokenKind::Identifier("a\u{e9}\u{663}b".to_string()), TokenKind::Minus, TokenKind::Eof]
    );
}

#[test]
fn lexer_rejects_unterminated_string() {
    let error = tokenize("\"abc").unwrap_err();
    assert_eq!(error.message, "Unterminated string literal");
    assert_eq!(error.location, Span::new(1, 1, 0, 3));
    let error = tokenize("f \"abc\n\"").unwrap_err();
    assert_eq!(error.message, "Unterminated string literal");
}

#[test]
fn lexer_rejects_unexpected_character() {
    let error = tokenize("1 # 2").unwrap_err();
    assert_eq!(error.message, "Unexpected token `#`");
    assert_eq!(error.location.start, 2);
    assert_eq!(error.location.column, 3);
}

#[test]
fn lexer_rejects_number_beyond_i32() {
    assert_eq!(kinds("2147483647"), vec![TokenKind::Integer(2147483647), TokenKind::Eof]);
    assert_eq!(kinds("0007"), vec![TokenKind::Integer(7), TokenKind::Eof]);
    let error = tokenize("2147483648").unwrap_err();
    assert_eq!(error.message, "Couldn't parse number literal");
    let error = tokenize("99999999999999999999999999").unwrap_err();
    assert_eq!(error.message, "Couldn't parse number literal");
}

#[test]
fn lexer_steps_one_token_at_a_time() {
    let mut lexer = Lexer::new("a ->");
    assert!(!lexer.is_eof());
    assert_eq!(lexer.peek_one(), 'a');
    assert_eq!(lexer.next_token().unwrap().kind, TokenKind::Identifier("a".to_string()));
    assert!(lexer.starts_with(' ', '-'));
    assert_eq!(lexer.next_token().unwrap().kind, TokenKind::Arrow);
    assert!(lexer.is_eof());
    assert_eq!(lexer.peek_one(), '\0');
    assert_eq!(lexer.next_token().unwrap().kind, TokenKind::Eof);
    lexer.advance_one();
    lexer.advance_may(3);
    assert_eq!(lexer.cursor, 4);
}

#[test]
fn token_for_word_is_keyword_or_identifier() {
    let span = Span::new(1, 1, 0, 1);
    assert_eq!(Token::keyword_or_identifier("fn".to_string(), span).kind, TokenKind::Function);
    assert_eq!(Token::keyword_or_identifier("f".to_string(), span).kind, TokenKind::Function);
    assert_eq!(Token::keyword_or_identifier("int".to_string(), span).kind, TokenKind::TypeInt);
    assert_eq!(
        Token::keyword_or_identifier("fnn".to_string(), span).kind,
        TokenKind::Identifier("fnn".to_string())
    );
    assert_eq!(Token::default().kind, TokenKind::Eof);
}

#[test]
fn parser_builds_function_with_parameters_and_block() {
    let ast = parse_source("f sum (int a, str b) bool -> a if -> b ; ;").unwrap();
    assert_eq!(ast.len(), 1);
    match &ast[0] {
        Statement::Function(f) => {
            assert_eq!(f.identifier.label, "sum");
            assert_eq!(f.return_type, Type::Boolean);
            assert_eq!(f.parameters.parameters.len(), 2);
            assert_eq!(f.parameters.parameters[0].identifier.label, "a");
            assert_eq!(f.parameters.parameters[0].typ, Type::Integer);
            assert_eq!(f.parameters.parameters[1].identifier.label, "b");
            assert_eq!(f.parameters.parameters[1].typ, Type::String);
            assert_eq!(f.body.statements.len(), 2);
            assert!(matches!(
                f.body.statements[0],
                Statement::Expression(StatementExpression::Identifier(_))
            ));
            match &f.body.statements[1] {
                Statement::If(i) => assert_eq!(i.block.statements.len(), 1),
                other => panic!("expected an if, got {:?}", other),
            }
        }
        other => panic!("expected a function, got {:?}", other),
    }
}

#[test]
fn parser_reads_every_kind_of_statement() {
    let ast = parse_source("f main -> int x 1 = x .write \"s\" true 1 2 - return ;").unwrap();
    match &ast[0] {
        Statement::Function(f) => {
            assert_eq!(f.return_type, Type::Void);
            assert!(f.parameters.parameters.is_empty());
            let body = &f.body.statements;
            assert_eq!(body.len(), 11);
            assert!(matches!(body[0], Statement::Variable(_)));
            assert!(matches!(body[2], Statement::Assignment(_)));
            assert!(matches!(body[4], Statement::Expression(StatementExpression::Call(_))));
            assert!(matches!(body[9], Statement::Expression(StatementExpression::Binary(_))));
            assert!(matches!(body[10], Statement::Expression(StatementExpression::Return(_))));
        }
        other => panic!("expected a function, got {:?}", other),
    }
}

fn failure(source: &str) -> ParserError {
    parse_source(source).unwrap_err()
}

#[test]
fn parser_reports_each_failure() {
    assert_eq!(failure("f 1").message, "Expecting an identifier");
    assert_eq!(failure("f main 1").message, "Expecting `->` to mark the start of the block");
    assert_eq!(failure("f main -> 1").message, "Expecting `;` to mark the end of the block");
    assert_eq!(failure("f main (a) -> ;").message, "Expecting type annotation");
    assert_eq!(failure("f main (int a int b) -> ;").message, "Expecting either `)` or `,`");
    assert_eq!(failure("f main (int 1) -> ;").message, "Expecting an identifier");
    assert_eq!(failure(";").message, "Unexpected expression");
    assert_eq!(failure("f main -> ) ;").message, "Unexpected expression");
    assert_eq!(failure(". 1").message, "Expecting an identifier");
    assert_eq!(failure("int 1").message, "Expecting an identifier");
    assert_eq!(failure("if 1").message, "Expecting `->` to mark the start of the block");
    let error = failure("f main -> \"abc ;");
    assert_eq!(error.message, "Unterminated string literal");
    assert_eq!(error.location.start, 10);
}

#[test]
fn parser_failure_points_at_the_token() {
    let error = failure("f main\n  1");
    assert_eq!(error.location, Span::new(2, 3, 9, 9));
}

#[test]
fn parser_on_tokens_without_end_marker() {
    let mut parser = Parser::new(vec![Token::new(TokenKind::Integer(1), Span::default())]);
    assert_eq!(parser.parse().unwrap().len(), 1);
    let mut parser = Parser::new(vec![]);
    assert!(parser.parse().unwrap().is_empty());
}

#[test]
fn highlight_marks_span_on_its_line() {
    let out = highlight("ab\ncd\nef\n", 3, 4, "<");
    assert_eq!(out, "    |\n  2 | <c\u{1b}[0m<d\u{1b}[0m\n    |\n");
}

#[test]
fn highlight_spans_several_lines() {
    let out = highlight("ab\ncd\nef", 1, 6, "<");
    assert_eq!(
        out,
        "    |\n  1 | a<b\u{1b}[0m\n  2 | <c\u{1b}[0m<d\u{1b}[0m\n  3 | <e\u{1b}[0mf\n    |\n"
    );
}

#[test]
fn highlight_clamps_span_to_text() {
    assert_eq!(highlight("ab", 5, 9, "<"), "    |\n  1 | ab\n    |\n");
    assert_eq!(highlight("", 0, 0, "<"), "    |\n  1 | \n    |\n");
    assert_eq!(highlight("a\nb", 9, 9, "<"), "    |\n  2 | b\n    |\n");
}

#[test]
fn highlight_error_is_red_and_warning_is_yellow() {
    assert_eq!(
        highlight_error("x", 0, 0),
        "    |\n  1 | \u{1b}[4m\u{1b}[31mx\u{1b}[0m\n    |\n"
    );
    assert_eq!(
        highlight_warning("x", 0, 0),
        "    |\n  1 | \u{1b}[4m\u{1b}[33mx\u{1b}[0m\n    |\n"
    );
}

#[test]
fn highlight_numbers_lines_beyond_nine() {
    let text = "\n".repeat(11) + "x";
    assert_eq!(highlight(&text, 11, 11, "<"), "    |\n  12 | <x\u{1b}[0m\n    |\n");
}

#[test]
fn decimal_text_writes_numbers() {
    assert_eq!(decimal_text(0), "0");
    assert_eq!(decimal_text(7), "7");
    assert_eq!(decimal_text(10), "10");
    assert_eq!(decimal_text(1234567890), "1234567890");
    assert_eq!(decimal_text(u128::MAX), u128::MAX.to_string());
}

#[test]
fn texts_are_joined_in_order() {
    assert_eq!(concat3("a", "b", "c"), "abc");
    assert_eq!(concat5("a", "b", "c", "d", "e"), "abcde");
    assert_eq!(concat7("a", "b", "c", "d", "e", "f", "g"), "abcdefg");
    assert_eq!(chars_of("h\u{e9}!"), vec!['h', '\u{e9}', '!']);
}
