use lox_ast::error::LoxErrorKind;
use lox_ast::perser::Perser;
use lox_ast::run;
use lox_ast::scanner::Scanner;
use lox_ast::token_type::TokenType;
use lox_ast::tokens::Token;

fn scan(source: &str) -> Vec<Token> {
    let mut scanner = Scanner::new(String::from(source));
    scanner.scan_tokens().expect("scan failed")
}

fn rendered(source: &str) -> String {
    run(String::from(source)).expect("pipeline failed")
}

#[test]
fn precedence_binds_factor_tighter() {
    assert_eq!(rendered("1 + 2 * 3"), "(+ 1 (* 2 3))");
}

#[test]
fn subtraction_is_left_associative() {
    assert_eq!(rendered("8 - 4 - 2"), "(- (- 8 4) 2)");
}

#[test]
fn grouping_overrides_precedence() {
    assert_eq!(rendered("(1 + 2) * 3"), "(* (group (+ 1 2)) 3)");
}

#[test]
fn unary_binds_tighter_than_factor() {
    assert_eq!(rendered("-1 * 2"), "(* (- 1) 2)");
}

#[test]
fn double_bang_nests_right() {
    assert_eq!(rendered("!!true"), "(! (! true))");
}

#[test]
fn double_negation_nests_right() {
    assert_eq!(rendered("--1"), "(- (- 1))");
}

#[test]
fn comparison_below_equality() {
    assert_eq!(rendered("1 < 2 == true"), "(== (< 1 2) true)");
}

#[test]
fn division_renders_with_slash() {
    assert_eq!(rendered("8 / 2"), "(/ 8 2)");
}

#[test]
fn equality_chain_is_left_associative() {
    assert_eq!(rendered("1 == 2 == 3"), "(== (== 1 2) 3)");
    assert_eq!(rendered("1 != 2 == 3"), "(== (!= 1 2) 3)");
}

#[test]
fn comparison_operators_render_their_lexemes() {
    assert_eq!(rendered("1 >= 2"), "(>= 1 2)");
    assert_eq!(rendered("1 <= 2"), "(<= 1 2)");
    assert_eq!(rendered("1 > 2"), "(> 1 2)");
}

#[test]
fn nested_groupings_render_nested() {
    assert_eq!(rendered("((1))"), "(group (group 1))");
}

#[test]
fn slashes_inside_a_string_are_no_comment() {
    let tokens = scan("\"a//b\"");
    assert_eq!(tokens.len(), 2);
    assert_eq!(tokens[0].ttype, TokenType::Str);
    assert_eq!(tokens[0].literal.as_ref().unwrap().display(), "\"a//b\"");
}

#[test]
fn literal_keywords_render_plain() {
    assert_eq!(rendered("nil"), "nil");
    assert_eq!(rendered("true"), "true");
    assert_eq!(rendered("false"), "false");
}

#[test]
fn string_literal_renders_quoted() {
    assert_eq!(rendered("\"abc\""), "\"abc\"");
}

#[test]
fn comment_is_discarded() {
    assert_eq!(rendered("1 + 2 // the rest is ignored"), "(+ 1 2)");
    assert_eq!(rendered("1 // note\n+ 2"), "(+ 1 2)");
}

#[test]
fn string_token_carries_quoted_display() {
    let tokens = scan("\"abc\"");
    assert_eq!(tokens.len(), 2);
    assert_eq!(tokens[0].ttype, TokenType::Str);
    assert_eq!(tokens[0].lexeme, "\"abc\"");
    let lit = tokens[0].literal.as_ref().expect("string literal missing");
    assert_eq!(lit.display(), "\"abc\"");
    assert_eq!(tokens[1].ttype, TokenType::Eof);
}

#[test]
fn number_token_displays_its_decimal_text() {
    let tokens = scan("123.45");
    assert_eq!(tokens.len(), 2);
    assert_eq!(tokens[0].ttype, TokenType::Number);
    let lit = tokens[0].literal.as_ref().expect("number literal missing");
    assert_eq!(lit.display(), "123.45");
}

#[test]
fn trailing_dot_is_a_separate_token() {
    let tokens = scan("123.");
    assert_eq!(tokens.len(), 3);
    assert_eq!(tokens[0].ttype, TokenType::Number);
    assert_eq!(tokens[0].literal.as_ref().unwrap().display(), "123");
    assert_eq!(tokens[1].ttype, TokenType::Dot);
    assert_eq!(tokens[2].ttype, TokenType::Eof);
}

#[test]
fn numbers_display_in_canonical_form() {
    assert_eq!(scan("007")[0].literal.as_ref().unwrap().display(), "7");
    assert_eq!(scan("1.50")[0].literal.as_ref().unwrap().display(), "1.5");
    assert_eq!(scan("0.5")[0].literal.as_ref().unwrap().display(), "0.5");
    assert_eq!(scan("123.000")[0].literal.as_ref().unwrap().display(), "123");
    assert_eq!(scan("0.0")[0].literal.as_ref().unwrap().display(), "0");
}

#[test]
fn unterminated_string_fails_at_its_line() {
    let mut scanner = Scanner::new(String::from("\"abc"));
    let err = scanner.scan_tokens().expect_err("scan should fail");
    assert_eq!(err.kind, LoxErrorKind::UnterminatedString);
    assert_eq!(err.line, 1);
}

#[test]
fn unterminated_string_reports_the_line_it_began() {
    let mut scanner = Scanner::new(String::from("1 + 2\n\"abc"));
    let err = scanner.scan_tokens().expect_err("scan should fail");
    assert_eq!(err.kind, LoxErrorKind::UnterminatedString);
    assert_eq!(err.line, 2);
}

#[test]
fn unexpected_character_carries_the_character() {
    let mut scanner = Scanner::new(String::from("1 @ 2"));
    let err = scanner.scan_tokens().expect_err("scan should fail");
    assert_eq!(err.kind, LoxErrorKind::UnexpectedCharacter('@'));
    assert_eq!(err.line, 1);
}

#[test]
fn one_and_two_character_operators() {
    let kinds: Vec<TokenType> = scan("! != = == < <= > >=").iter().map(|t| t.ttype).collect();
    assert_eq!(
        kinds,
        vec![
            TokenType::Bang,
            TokenType::BangEqual,
            TokenType::Equal,
            TokenType::EqualEqual,
            TokenType::Less,
            TokenType::LessEqual,
            TokenType::Greater,
            TokenType::GreaterEqual,
            TokenType::Eof,
        ]
    );
}

#[test]
fn punctuation_tokens() {
    let kinds: Vec<TokenType> = scan("( ) { } [ ] , . - + ; * /").iter().map(|t| t.ttype).collect();
    assert_eq!(
        kinds,
        vec![
            TokenType::LeftParen,
            TokenType::RightParen,
            TokenType::LeftBrace,
            TokenType::RightBrace,
            TokenType::LeftBracket,
            TokenType::RightBracket,
            TokenType::Comma,
            TokenType::Dot,
            TokenType::Minus,
            TokenType::Plus,
            TokenType::Semicolon,
            TokenType::Star,
            TokenType::Slash,
            TokenType::Eof,
        ]
    );
}

#[test]
fn newlines_advance_the_line_counter() {
    let tokens = scan("\n\n5");
    assert_eq!(tokens[0].ttype, TokenType::Number);
    assert_eq!(tokens[0].line, 3);
    assert_eq!(tokens[1].line, 3);
}

#[test]
fn string_spanning_lines_counts_them() {
    let tokens = scan("\"a\nb\"");
    assert_eq!(tokens[0].ttype, TokenType::Str);
    assert_eq!(tokens[0].literal.as_ref().unwrap().display(), "\"a\nb\"");
    assert_eq!(tokens[0].line, 2);
}

#[test]
fn lexemes_are_the_exact_source_text() {
    let tokens = scan("1 + 2");
    let lexemes: Vec<&str> = tokens.iter().map(|t| t.lexeme.as_str()).collect();
    assert_eq!(lexemes, vec!["1", "+", "2", ""]);
}

#[test]
fn every_keyword_scans_to_its_kind() {
    let table = [
        ("and", TokenType::And),
        ("class", TokenType::Class),
        ("else", TokenType::Else),
        ("false", TokenType::False),
        ("for", TokenType::For),
        ("fun", TokenType::Fun),
        ("if", TokenType::If),
        ("nil", TokenType::Nil),
        ("or", TokenType::Or),
        ("print", TokenType::Print),
        ("return", TokenType::Return),
        ("super", TokenType::Super),
        ("this", TokenType::This),
        ("true", TokenType::True),
        ("var", TokenType::Var),
        ("let", TokenType::Let),
        ("while", TokenType::While),
        ("import", TokenType::Import),
    ];
    for (word, kind) in table {
        let tokens = scan(word);
        assert_eq!(tokens.len(), 2, "keyword {word}");
        assert_eq!(tokens[0].ttype, kind, "keyword {word}");
        assert_eq!(tokens[0].lexeme, word);
    }
}

#[test]
fn other_identifier_text_scans_generic() {
    for word in ["foo", "andy", "And", "_x", "x1", "classes"] {
        let tokens = scan(word);
        assert_eq!(tokens.len(), 2, "identifier {word}");
        assert_eq!(tokens[0].ttype, TokenType::Identifier, "identifier {word}");
        assert_eq!(tokens[0].lexeme, word);
    }
}

#[test]
fn missing_close_paren_names_it() {
    let mut parser = Perser::new(scan("(1 + 2"));
    let err = parser.try_parse().expect_err("parse should fail");
    assert_eq!(err.kind, LoxErrorKind::ExpectedToken(TokenType::RightParen));
    let found = err.token.as_ref().expect("offending token missing");
    assert_eq!(found.ttype, TokenType::Eof);
    assert_eq!(err.describe(), "[line 1] error at end: Expect ')' after expression.");
}

#[test]
fn empty_token_stream_expects_an_expression() {
    let mut parser = Perser::new(scan(""));
    let err = parser.try_parse().expect_err("parse should fail");
    assert_eq!(err.kind, LoxErrorKind::ExpectedExpression);
    assert_eq!(err.line, 1);
}

#[test]
fn empty_grouping_expects_an_expression() {
    let mut parser = Perser::new(scan("()"));
    let err = parser.try_parse().expect_err("parse should fail");
    assert_eq!(err.kind, LoxErrorKind::ExpectedExpression);
    let found = err.token.as_ref().expect("offending token missing");
    assert_eq!(found.lexeme, ")");
}

#[test]
fn trailing_tokens_are_rejected() {
    let mut parser = Perser::new(scan("1 2"));
    let err = parser.try_parse().expect_err("parse should fail");
    assert_eq!(err.kind, LoxErrorKind::ExpectedToken(TokenType::Eof));
    let mut parser2 = Perser::new(scan("1 2"));
    assert!(parser2.parse().is_none());
}

#[test]
fn parse_returns_the_tree_on_success() {
    let mut parser = Perser::new(scan("1"));
    assert!(parser.parse().is_some());
}

#[test]
fn pipeline_propagates_scan_errors() {
    let err = run(String::from("\"abc")).expect_err("pipeline should fail");
    assert_eq!(err.kind, LoxErrorKind::UnterminatedString);
}

#[test]
fn dangling_operator_expects_an_expression() {
    let err = run(String::from("1 +")).expect_err("pipeline should fail");
    assert_eq!(err.kind, LoxErrorKind::ExpectedExpression);
    let found = err.token.as_ref().expect("offending token missing");
    assert_eq!(found.ttype, TokenType::Eof);
}

#[test]
fn scanner_error_diagnostic_form() {
    let mut scanner = Scanner::new(String::from("\"abc"));
    let err = scanner.scan_tokens().expect_err("scan should fail");
    assert_eq!(err.describe(), "[line 1] error: Unterminated string");
}

#[test]
fn parser_error_diagnostic_names_the_lexeme() {
    let mut parser = Perser::new(scan("1 2"));
    let err = parser.try_parse().expect_err("parse should fail");
    assert_eq!(err.describe(), "[line 1] error at '2': Expect end after expression.");
}
