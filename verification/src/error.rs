//! Parse errors.
//!
//! A parse has no error recovery: the first failure aborts it and no
//! partial tree is returned.  Each error names its category; `message`
//! renders it as a descriptive text.

use vstd::prelude::*;

use crate::ast::MatrixType;
use crate::ast::spec_matrix_type_text;
use crate::token::{Token, TokenV, TokenKind, spec_token_text};

verus! {

/// Why a parse failed.
#[derive(Debug, PartialEq)]
pub enum ParseError {
    /// The input ended where a token was required.
    UnexpectedEndOfInput,
    /// The token cannot start or continue an expression here.
    UnexpectedToken(Token),
    /// The input ended while an absolute-value or norm delimiter was open.
    UnclosedAbsoluteValue,
    /// A specific token was required and something else (or the end of the
    /// input) stood in its place.
    ExpectedToken { expected: TokenKind, found: Option<Token> },
    /// An escape marker was not followed by a command name.
    ExpectedCommandName,
    /// A matrix environment name was required.
    ExpectedMatrixType { found: Option<Token> },
    /// The closing name of a matrix environment differs from its opening
    /// name.
    MismatchedMatrixType { expected: MatrixType, found: MatrixType },
}

/// The value of a parse error.
pub enum ErrV {
    UnexpectedEndOfInput,
    UnexpectedToken(TokenV),
    UnclosedAbsoluteValue,
    ExpectedToken { expected: TokenKind, found: Option<TokenV> },
    ExpectedCommandName,
    ExpectedMatrixType { found: Option<TokenV> },
    MismatchedMatrixType { expected: MatrixType, found: MatrixType },
}

impl View for ParseError {
    type V = ErrV;

    open spec fn view(&self) -> ErrV {
        match self {
            ParseError::UnexpectedEndOfInput => ErrV::UnexpectedEndOfInput,
            ParseError::UnexpectedToken(t) => ErrV::UnexpectedToken(t@),
            ParseError::UnclosedAbsoluteValue => ErrV::UnclosedAbsoluteValue,
            ParseError::ExpectedToken { expected, found } => ErrV::ExpectedToken {
                expected: *expected,
                found: match found {
                    Some(t) => Some(t@),
                    None => None,
                },
            },
            ParseError::ExpectedCommandName => ErrV::ExpectedCommandName,
            ParseError::ExpectedMatrixType { found } => ErrV::ExpectedMatrixType {
                found: match found {
                    Some(t) => Some(t@),
                    None => None,
                },
            },
            ParseError::MismatchedMatrixType { expected, found } => ErrV::MismatchedMatrixType {
                expected: *expected,
                found: *found,
            },
        }
    }
}

/// The descriptive text of a parse error.
pub open spec fn spec_message(e: ErrV) -> Seq<char> {
    match e {
        ErrV::UnexpectedEndOfInput => "unexpected end of input"@,
        ErrV::UnexpectedToken(t) => "unexpected token: "@ + spec_token_text(t),
        ErrV::UnclosedAbsoluteValue => "unclosed absolute value"@,
        ErrV::ExpectedToken { expected, found } => {
            let tail = match found {
                Some(t) => "found "@ + spec_token_text(t),
                None => "found end of input"@,
            };
            "expected "@ + spec_kind_text(expected) + ", "@ + tail
        },
        ErrV::ExpectedCommandName => "expected command name after backslash"@,
        ErrV::ExpectedMatrixType { found } => {
            match found {
                Some(t) => "expected matrix type, found "@ + spec_token_text(t),
                None => "expected matrix type, found end of input"@,
            }
        },
        ErrV::MismatchedMatrixType { expected, found } => "mismatched matrix environment: expected "@
            + spec_matrix_type_text(expected) + ", found "@ + spec_matrix_type_text(found),
    }
}

/// A word for each token kind, used in messages.
pub open spec fn spec_kind_text(k: TokenKind) -> Seq<char> {
    match k {
        TokenKind::Number => "a number"@,
        TokenKind::Identifier => "an identifier"@,
        TokenKind::Plus => "'+'"@,
        TokenKind::Minus => "'-'"@,
        TokenKind::Asterisk => "'*'"@,
        TokenKind::Slash => "'/'"@,
        TokenKind::Caret => "'^'"@,
        TokenKind::Exclamation => "'!'"@,
        TokenKind::Equals => "'='"@,
        TokenKind::CDot => "'\\cdot'"@,
        TokenKind::Prime => "'''"@,
        TokenKind::LParen => "'('"@,
        TokenKind::RParen => "')'"@,
        TokenKind::LBracket => "'['"@,
        TokenKind::RBracket => "']'"@,
        TokenKind::LCurly => "'{'"@,
        TokenKind::RCurly => "'}'"@,
        TokenKind::Pipe => "'|'"@,
        TokenKind::Ampersand => "'&'"@,
        TokenKind::Semicolon => "';'"@,
        TokenKind::DoubleBackslash => "'\\\\'"@,
        TokenKind::Begin => "'\\begin'"@,
        TokenKind::End => "'\\end'"@,
        TokenKind::Matrix => "'matrix'"@,
        TokenKind::PMatrix => "'pmatrix'"@,
        TokenKind::BMatrix => "'bmatrix'"@,
        TokenKind::VMatrix => "'vmatrix'"@,
        TokenKind::VMatrixDouble => "'Vmatrix'"@,
        TokenKind::Underscore => "'_'"@,
        TokenKind::Comma => "','"@,
        TokenKind::Backslash => "'\\'"@,
    }
}

/// A word for each token kind, used in messages.
fn kind_text(k: TokenKind) -> (r: &'static str)
    ensures
        r@ == spec_kind_text(k),
{
    match k {
        TokenKind::Number => "a number",
        TokenKind::Identifier => "an identifier",
        TokenKind::Plus => "'+'",
        TokenKind::Minus => "'-'",
        TokenKind::Asterisk => "'*'",
        TokenKind::Slash => "'/'",
        TokenKind::Caret => "'^'",
        TokenKind::Exclamation => "'!'",
        TokenKind::Equals => "'='",
        TokenKind::CDot => "'\\cdot'",
        TokenKind::Prime => "'''",
        TokenKind::LParen => "'('",
        TokenKind::RParen => "')'",
        TokenKind::LBracket => "'['",
        TokenKind::RBracket => "']'",
        TokenKind::LCurly => "'{'",
        TokenKind::RCurly => "'}'",
        TokenKind::Pipe => "'|'",
        TokenKind::Ampersand => "'&'",
        TokenKind::Semicolon => "';'",
        TokenKind::DoubleBackslash => "'\\\\'",
        TokenKind::Begin => "'\\begin'",
        TokenKind::End => "'\\end'",
        TokenKind::Matrix => "'matrix'",
        TokenKind::PMatrix => "'pmatrix'",
        TokenKind::BMatrix => "'bmatrix'",
        TokenKind::VMatrix => "'vmatrix'",
        TokenKind::VMatrixDouble => "'Vmatrix'",
        TokenKind::Underscore => "'_'",
        TokenKind::Comma => "','",
        TokenKind::Backslash => "'\\'",
    }
}

impl ParseError {
    /// The descriptive text of this error.
    pub fn message(&self) -> (r: String)
        ensures
            r@ == spec_message(self@),
    {
        match self {
            ParseError::UnexpectedEndOfInput => "unexpected end of input".to_owned(),
            ParseError::UnexpectedToken(t) => {
                let mut r = "unexpected token: ".to_owned();
                let ts = t.text();
                crate::strutil::push_str(&mut r, ts.as_str());
                r
            }
            ParseError::UnclosedAbsoluteValue => "unclosed absolute value".to_owned(),
            ParseError::ExpectedToken { expected, found } => {
                let mut r = "expected ".to_owned();
                crate::strutil::push_str(&mut r, kind_text(*expected));
                crate::strutil::push_str(&mut r, ", ");
                match found {
                    Some(t) => {
                        crate::strutil::push_str(&mut r, "found ");
                        let ts = t.text();
                        crate::strutil::push_str(&mut r, ts.as_str());
                    }
                    None => {
                        crate::strutil::push_str(&mut r, "found end of input");
                    }
                }
                r
            }
            ParseError::ExpectedCommandName => "expected command name after backslash".to_owned(),
            ParseError::ExpectedMatrixType { found } => {
                match found {
                    Some(t) => {
                        let mut r = "expected matrix type, found ".to_owned();
                        let ts = t.text();
                        crate::strutil::push_str(&mut r, ts.as_str());
                        r
                    }
                    None => "expected matrix type, found end of input".to_owned(),
                }
            }
            ParseError::MismatchedMatrixType { expected, found } => {
                let mut r = "mismatched matrix environment: expected ".to_owned();
                crate::strutil::push_str(&mut r, expected.to_str());
                crate::strutil::push_str(&mut r, ", found ");
                crate::strutil::push_str(&mut r, found.to_str());
                r
            }
        }
    }
}

} // verus!
