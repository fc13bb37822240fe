use ezscn::error::{IntErrorKind, LiteralKind, ParseErrorKind};
use ezscn::parser::literal::{char_literal, integer_literal, literal_expression, null_literal};
use ezscn::parser::Parser;
use ezscn::string::parse_radix;
use ezscn::tokens::{Span, SpanImpl, TokenKind};

fn first_error_kind(parser: &Parser<'_>) -> ParseErrorKind {
    assert!(!parser.errors().is_empty());
    parser.errors()[0].kind()
}

#[test]
fn unterminated_string_is_reported() {
    let mut parser = Parser::new("\"abc");
    assert!(parser.expression().is_none());
    assert_eq!(first_error_kind(&parser), ParseErrorKind::UnterminatedString(0));
    assert_eq!(parser.errors()[0].span(), Span::new(0, 4));
}

#[test]
fn unknown_escape_in_char_is_reported() {
    let mut parser = Parser::new(r"'\q'");
    assert!(char_literal(&mut parser).is_none());
    assert_eq!(first_error_kind(&parser), ParseErrorKind::UnknownEscapeSequence);
}

#[test]
fn unterminated_char_is_reported() {
    let mut parser = Parser::new("'a");
    assert!(char_literal(&mut parser).is_none());
    assert_eq!(first_error_kind(&parser), ParseErrorKind::UnterminatedChar);
}

#[test]
fn integer_overflow_is_reported() {
    let mut parser = Parser::new("340282366920938463463374607431768211456");
    assert!(parser.expression().is_none());
    assert_eq!(first_error_kind(&parser), ParseErrorKind::IntError(IntErrorKind::PosOverflow));
}

#[test]
fn largest_integer_is_accepted() {
    let mut parser = Parser::new("340282366920938463463374607431768211455");
    let e = parser.expression();
    assert!(matches!(
        e,
        Some(ezscn::ast::expression::Expression {
            kind: ezscn::ast::expression::ExpressionKind::Literal(
                ezscn::ast::expression::LiteralExpression::Integer(u128::MAX)
            ),
            ..
        })
    ));
    assert!(parser.errors().is_empty());
}

#[test]
fn prefix_without_digits_is_empty() {
    let mut parser = Parser::new("0x;");
    assert!(integer_literal(&mut parser).is_none());
    assert_eq!(first_error_kind(&parser), ParseErrorKind::IntError(IntErrorKind::Empty));
}

#[test]
fn floating_where_integer_expected() {
    let mut parser = Parser::new("1.5");
    assert!(integer_literal(&mut parser).is_none());
    assert_eq!(first_error_kind(&parser), ParseErrorKind::ExpectedIntegerFoundFloating);
}

#[test]
fn literal_kind_expected() {
    let mut parser = Parser::new("abc");
    assert!(integer_literal(&mut parser).is_none());
    assert_eq!(
        first_error_kind(&parser),
        ParseErrorKind::LiteralExpected(LiteralKind::Integer, Some(TokenKind::Identifier))
    );

    let mut parser = Parser::new("");
    assert!(integer_literal(&mut parser).is_none());
    assert_eq!(first_error_kind(&parser), ParseErrorKind::LiteralExpected(LiteralKind::Integer, None));
    assert_eq!(parser.errors()[0].span(), Span::new(0, 0));
}

#[test]
fn some_literal_expected() {
    let mut parser = Parser::new("abc");
    assert!(literal_expression(&mut parser).is_none());
    assert_eq!(first_error_kind(&parser), ParseErrorKind::LiteralsExpected(Some(TokenKind::Identifier)));
}

#[test]
fn keyword_expected_at_end_and_elsewhere() {
    let mut parser = Parser::new("");
    assert!(null_literal(&mut parser).is_none());
    assert_eq!(first_error_kind(&parser), ParseErrorKind::ExpectedToken(TokenKind::NullKeyword));

    let mut parser = Parser::new("true");
    assert!(null_literal(&mut parser).is_none());
    assert_eq!(
        first_error_kind(&parser),
        ParseErrorKind::InvalidToken(TokenKind::NullKeyword, TokenKind::TrueKeyword)
    );
}

#[test]
fn unexpected_token_in_expression() {
    let mut parser = Parser::new(")");
    assert!(parser.expression().is_none());
    assert_eq!(first_error_kind(&parser), ParseErrorKind::UnexpectedToken(TokenKind::ParanthesisRight));
}

#[test]
fn radix_errors_and_values() {
    let digits = |s: &str| s.chars().collect::<Vec<char>>();
    assert_eq!(parse_radix(&digits("ff"), 0, 2, 16, u128::MAX), Ok(255));
    assert_eq!(parse_radix(&digits("+17"), 0, 3, 8, u128::MAX), Ok(15));
    assert_eq!(parse_radix(&digits("1z"), 0, 2, 10, u128::MAX), Err(IntErrorKind::InvalidDigit));
    assert_eq!(parse_radix(&digits("+"), 0, 1, 10, u128::MAX), Err(IntErrorKind::InvalidDigit));
    assert_eq!(parse_radix(&digits(""), 0, 0, 10, u128::MAX), Err(IntErrorKind::Empty));
    assert_eq!(parse_radix(&digits("300"), 0, 3, 10, 255), Err(IntErrorKind::PosOverflow));
    assert_eq!(parse_radix(&digits("x12"), 1, 3, 10, u128::MAX), Ok(12));
}
