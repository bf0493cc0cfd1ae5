use markdown_formula_parser::ast::MatrixType;
use markdown_formula_parser::error::ParseError;
use markdown_formula_parser::parse_inline_math;
use markdown_formula_parser::token::{Token, TokenKind};

fn parse_err(s: &str) -> ParseError {
    parse_inline_math(s).expect_err("parse should fail")
}

#[test]
fn empty_input_is_unexpected_end() {
    assert_eq!(parse_err(""), ParseError::UnexpectedEndOfInput);
    assert_eq!(parse_err("").message(), "unexpected end of input".to_string());
}

#[test]
fn unclosed_absolute_value() {
    assert_eq!(parse_err("|x"), ParseError::UnclosedAbsoluteValue);
    assert_eq!(parse_err("|x").message(), "unclosed absolute value".to_string());
}

#[test]
fn unclosed_norm() {
    assert_eq!(parse_err("||x"), ParseError::UnclosedAbsoluteValue);
}

#[test]
fn unexpected_token_at_primary_position() {
    assert_eq!(parse_err(")"), ParseError::UnexpectedToken(Token::RParen));
    assert_eq!(parse_err(")").message(), "unexpected token: )".to_string());
}

#[test]
fn missing_closing_parenthesis() {
    assert_eq!(
        parse_err("(2"),
        ParseError::ExpectedToken { expected: TokenKind::RParen, found: None }
    );
}

#[test]
fn missing_command_name() {
    assert_eq!(parse_err("\\"), ParseError::ExpectedCommandName);
}

#[test]
fn matrix_environment_needs_a_matrix_type() {
    assert_eq!(
        parse_err("\\begin{foo}"),
        ParseError::ExpectedMatrixType { found: Some(Token::Identifier("foo".to_string())) }
    );
}

#[test]
fn mismatched_matrix_environment() {
    assert_eq!(
        parse_err("\\begin{matrix} a \\end{pmatrix}"),
        ParseError::MismatchedMatrixType {
            expected: MatrixType::Matrix,
            found: MatrixType::PMatrix,
        }
    );
    assert_eq!(
        parse_err("\\begin{matrix} a \\end{pmatrix}").message(),
        "mismatched matrix environment: expected matrix, found pmatrix".to_string()
    );
}

#[test]
fn unended_matrix_environment() {
    assert_eq!(parse_err("\\begin{matrix} a"), ParseError::UnexpectedEndOfInput);
}

#[test]
fn matrix_keyword_alone_is_not_an_expression() {
    assert_eq!(parse_err("matrix"), ParseError::UnexpectedToken(Token::Matrix));
}

#[test]
fn missing_fraction_braces() {
    assert_eq!(
        parse_err("\\frac 1 2"),
        ParseError::ExpectedToken {
            expected: TokenKind::LCurly,
            found: Some(Token::Number("1".to_string())),
        }
    );
}
