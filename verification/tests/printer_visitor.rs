use lox_ast::error::LoxError;
use lox_ast::error::LoxErrorKind;
use lox_ast::expr::BinaryExpr;
use lox_ast::expr::Expr;
use lox_ast::expr::GroupingExpr;
use lox_ast::expr::LiteralExpr;
use lox_ast::expr::UnaryExpr;
use lox_ast::object::Object;
use lox_ast::printer::AstPrinter;
use lox_ast::token_type::TokenType;
use lox_ast::tokens::Token;

fn number(text: &str) -> Expr {
    Expr::Literal(LiteralExpr { value: Some(Object::Num(String::from(text))) })
}

fn op(ttype: TokenType, lexeme: &str) -> Token {
    Token::new(ttype, String::from(lexeme), None, 1)
}

#[test]
fn sample_tree_renders_in_prefix_form() {
    let expression = Expr::Binary(BinaryExpr {
        left: Box::new(Expr::Unary(UnaryExpr {
            operator: op(TokenType::Minus, "-"),
            right: Box::new(number("123")),
        })),
        operator: op(TokenType::Star, "*"),
        right: Box::new(Expr::Grouping(GroupingExpr { expression: Box::new(number("45.67")) })),
    });
    let printer = AstPrinter;
    assert_eq!(printer.print(&expression).unwrap(), "(* (- 123) (group 45.67))");
}

#[test]
fn eccept_dispatches_like_print() {
    let expression = Expr::Unary(UnaryExpr {
        operator: op(TokenType::Bang, "!"),
        right: Box::new(Expr::Literal(LiteralExpr { value: Some(Object::False) })),
    });
    let printer = AstPrinter;
    let via_dispatch = expression.eccept(&printer).unwrap();
    let via_print = printer.print(&expression).unwrap();
    assert_eq!(via_dispatch, via_print);
    assert_eq!(via_dispatch, "(! false)");
}

#[test]
fn parenthesize_joins_rendered_parts() {
    let one = number("1");
    let two = number("2");
    let printer = AstPrinter;
    let text = printer.parenthesize(&String::from("pair"), &[&one, &two]).unwrap();
    assert_eq!(text, "(pair 1 2)");
    let empty = printer.parenthesize(&String::from("solo"), &[]).unwrap();
    assert_eq!(empty, "(solo)");
}

#[test]
fn absent_literal_renders_nil() {
    let printer = AstPrinter;
    let absent = Expr::Literal(LiteralExpr { value: None });
    assert_eq!(printer.print(&absent).unwrap(), "nil");
    let explicit = Expr::Literal(LiteralExpr { value: Some(Object::Nil) });
    assert_eq!(printer.print(&explicit).unwrap(), "nil");
}

#[test]
fn object_display_forms() {
    assert_eq!(Object::True.display(), "true");
    assert_eq!(Object::False.display(), "false");
    assert_eq!(Object::Nil.display(), "nil");
    assert_eq!(Object::Num(String::from("3.5")).display(), "3.5");
    assert_eq!(Object::Str(String::from("hi")).display(), "\"hi\"");
}

#[test]
fn eof_token_shape() {
    let t = Token::eof(4);
    assert_eq!(t.ttype, TokenType::Eof);
    assert_eq!(t.lexeme, "");
    assert!(t.literal.is_none());
    assert_eq!(t.line, 4);
}

#[test]
fn token_is_compares_categories() {
    let t = op(TokenType::Plus, "+");
    assert!(t.is(&TokenType::Plus));
    assert!(!t.is(&TokenType::Minus));
}

#[test]
fn token_type_describe_text() {
    assert_eq!(TokenType::RightParen.describe(), "')'");
    assert_eq!(TokenType::Identifier.describe(), "identifier");
    assert_eq!(TokenType::And.describe(), "'and'");
}

#[test]
fn error_takes_its_line_from_the_token() {
    let t = Token::new(TokenType::Plus, String::from("+"), None, 12);
    let with_token = LoxError::error(Some(t), LoxErrorKind::ExpectedExpression, 99);
    assert_eq!(with_token.line, 12);
    let without = LoxError::error(None, LoxErrorKind::InvalidNumber, 3);
    assert_eq!(without.line, 3);
    assert_eq!(without.describe(), "[line 3] error: Unable to parse number");
}
