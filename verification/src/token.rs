//! Lexical tokens of the math notation.
//!
//! A token is an immutable atomic lexical unit.  Whitespace is skipped during
//! tokenization and never represented as a token; characters that match no
//! token are dropped silently.

use vstd::prelude::*;

verus! {

/// One lexical token.  `Number` carries the literal text of the number
/// (a run of digits with an optional single decimal point); `Identifier`
/// carries the name (letters and digits, starting with a letter).
#[derive(Debug, PartialEq)]
pub enum Token {
    Number(String),
    Identifier(String),
    Plus,
    Minus,
    Asterisk,
    Slash,
    Caret,
    Exclamation,
    Equals,
    CDot,
    Prime,
    LParen,
    RParen,
    LBracket,
    RBracket,
    LCurly,
    RCurly,
    Pipe,
    Ampersand,
    Semicolon,
    DoubleBackslash,
    Begin,
    End,
    Matrix,
    PMatrix,
    BMatrix,
    VMatrix,
    VMatrixDouble,
    Underscore,
    Comma,
    Backslash,
}

/// The mathematical value of a token: the same shape as `Token`, with the
/// text fields abstracted to character sequences.
pub enum TokenV {
    Number(Seq<char>),
    Identifier(Seq<char>),
    Plus,
    Minus,
    Asterisk,
    Slash,
    Caret,
    Exclamation,
    Equals,
    CDot,
    Prime,
    LParen,
    RParen,
    LBracket,
    RBracket,
    LCurly,
    RCurly,
    Pipe,
    Ampersand,
    Semicolon,
    DoubleBackslash,
    Begin,
    End,
    Matrix,
    PMatrix,
    BMatrix,
    VMatrix,
    VMatrixDouble,
    Underscore,
    Comma,
    Backslash,
}

impl View for Token {
    type V = TokenV;

    open spec fn view(&self) -> TokenV {
        match self {
            Token::Number(s) => TokenV::Number(s@),
            Token::Identifier(s) => TokenV::Identifier(s@),
            Token::Plus => TokenV::Plus,
            Token::Minus => TokenV::Minus,
            Token::Asterisk => TokenV::Asterisk,
            Token::Slash => TokenV::Slash,
            Token::Caret => TokenV::Caret,
            Token::Exclamation => TokenV::Exclamation,
            Token::Equals => TokenV::Equals,
            Token::CDot => TokenV::CDot,
            Token::Prime => TokenV::Prime,
            Token::LParen => TokenV::LParen,
            Token::RParen => TokenV::RParen,
            Token::LBracket => TokenV::LBracket,
            Token::RBracket => TokenV::RBracket,
            Token::LCurly => TokenV::LCurly,
            Token::RCurly => TokenV::RCurly,
            Token::Pipe => TokenV::Pipe,
            Token::Ampersand => TokenV::Ampersand,
            Token::Semicolon => TokenV::Semicolon,
            Token::DoubleBackslash => TokenV::DoubleBackslash,
            Token::Begin => TokenV::Begin,
            Token::End => TokenV::End,
            Token::Matrix => TokenV::Matrix,
            Token::PMatrix => TokenV::PMatrix,
            Token::BMatrix => TokenV::BMatrix,
            Token::VMatrix => TokenV::VMatrix,
            Token::VMatrixDouble => TokenV::VMatrixDouble,
            Token::Underscore => TokenV::Underscore,
            Token::Comma => TokenV::Comma,
            Token::Backslash => TokenV::Backslash,
        }
    }
}

impl DeepView for Token {
    type V = TokenV;

    open spec fn deep_view(&self) -> TokenV {
        self.view()
    }
}

/// The kind of a token, with the text fields dropped.  Used by the parser
/// to compare a looked-ahead token against an expected one.
#[derive(Debug, Clone, Copy, PartialEq, Eq, Structural)]
pub enum TokenKind {
    Number,
    Identifier,
    Plus,
    Minus,
    Asterisk,
    Slash,
    Caret,
    Exclamation,
    Equals,
    CDot,
    Prime,
    LParen,
    RParen,
    LBracket,
    RBracket,
    LCurly,
    RCurly,
    Pipe,
    Ampersand,
    Semicolon,
    DoubleBackslash,
    Begin,
    End,
    Matrix,
    PMatrix,
    BMatrix,
    VMatrix,
    VMatrixDouble,
    Underscore,
    Comma,
    Backslash,
}

/// The kind of a token value.
pub open spec fn kind_of(t: TokenV) -> TokenKind {
    match t {
        TokenV::Number(_) => TokenKind::Number,
        TokenV::Identifier(_) => TokenKind::Identifier,
        TokenV::Plus => TokenKind::Plus,
        TokenV::Minus => TokenKind::Minus,
        TokenV::Asterisk => TokenKind::Asterisk,
        TokenV::Slash => TokenKind::Slash,
        TokenV::Caret => TokenKind::Caret,
        TokenV::Exclamation => TokenKind::Exclamation,
        TokenV::Equals => TokenKind::Equals,
        TokenV::CDot => TokenKind::CDot,
        TokenV::Prime => TokenKind::Prime,
        TokenV::LParen => TokenKind::LParen,
        TokenV::RParen => TokenKind::RParen,
        TokenV::LBracket => TokenKind::LBracket,
        TokenV::RBracket => TokenKind::RBracket,
        TokenV::LCurly => TokenKind::LCurly,
        TokenV::RCurly => TokenKind::RCurly,
        TokenV::Pipe => TokenKind::Pipe,
        TokenV::Ampersand => TokenKind::Ampersand,
        TokenV::Semicolon => TokenKind::Semicolon,
        TokenV::DoubleBackslash => TokenKind::DoubleBackslash,
        TokenV::Begin => TokenKind::Begin,
        TokenV::End => TokenKind::End,
        TokenV::Matrix => TokenKind::Matrix,
        TokenV::PMatrix => TokenKind::PMatrix,
        TokenV::BMatrix => TokenKind::BMatrix,
        TokenV::VMatrix => TokenKind::VMatrix,
        TokenV::VMatrixDouble => TokenKind::VMatrixDouble,
        TokenV::Underscore => TokenKind::Underscore,
        TokenV::Comma => TokenKind::Comma,
        TokenV::Backslash => TokenKind::Backslash,
    }
}

impl Token {
    /// The kind of this token.
    pub fn kind(&self) -> (k: TokenKind)
        ensures
            k == kind_of(self@),
    {
        match self {
            Token::Number(_) => TokenKind::Number,
            Token::Identifier(_) => TokenKind::Identifier,
            Token::Plus => TokenKind::Plus,
            Token::Minus => TokenKind::Minus,
            Token::Asterisk => TokenKind::Asterisk,
            Token::Slash => TokenKind::Slash,
            Token::Caret => TokenKind::Caret,
            Token::Exclamation => TokenKind::Exclamation,
            Token::Equals => TokenKind::Equals,
            Token::CDot => TokenKind::CDot,
            Token::Prime => TokenKind::Prime,
            Token::LParen => TokenKind::LParen,
            Token::RParen => TokenKind::RParen,
            Token::LBracket => TokenKind::LBracket,
            Token::RBracket => TokenKind::RBracket,
            Token::LCurly => TokenKind::LCurly,
            Token::RCurly => TokenKind::RCurly,
            Token::Pipe => TokenKind::Pipe,
            Token::Ampersand => TokenKind::Ampersand,
            Token::Semicolon => TokenKind::Semicolon,
            Token::DoubleBackslash => TokenKind::DoubleBackslash,
            Token::Begin => TokenKind::Begin,
            Token::End => TokenKind::End,
            Token::Matrix => TokenKind::Matrix,
            Token::PMatrix => TokenKind::PMatrix,
            Token::BMatrix => TokenKind::BMatrix,
            Token::VMatrix => TokenKind::VMatrix,
            Token::VMatrixDouble => TokenKind::VMatrixDouble,
            Token::Underscore => TokenKind::Underscore,
            Token::Comma => TokenKind::Comma,
            Token::Backslash => TokenKind::Backslash,
        }
    }

    /// A copy of this token, equal to the original.
    pub fn duplicate(&self) -> (r: Token)
        ensures
            r == *self,
    {
        match self {
            Token::Number(s) => Token::Number(s.clone()),
            Token::Identifier(s) => Token::Identifier(s.clone()),
            Token::Plus => Token::Plus,
            Token::Minus => Token::Minus,
            Token::Asterisk => Token::Asterisk,
            Token::Slash => Token::Slash,
            Token::Caret => Token::Caret,
            Token::Exclamation => Token::Exclamation,
            Token::Equals => Token::Equals,
            Token::CDot => Token::CDot,
            Token::Prime => Token::Prime,
            Token::LParen => Token::LParen,
            Token::RParen => Token::RParen,
            Token::LBracket => Token::LBracket,
            Token::RBracket => Token::RBracket,
            Token::LCurly => Token::LCurly,
            Token::RCurly => Token::RCurly,
            Token::Pipe => Token::Pipe,
            Token::Ampersand => Token::Ampersand,
            Token::Semicolon => Token::Semicolon,
            Token::DoubleBackslash => Token::DoubleBackslash,
            Token::Begin => Token::Begin,
            Token::End => Token::End,
            Token::Matrix => Token::Matrix,
            Token::PMatrix => Token::PMatrix,
            Token::BMatrix => Token::BMatrix,
            Token::VMatrix => Token::VMatrix,
            Token::VMatrixDouble => Token::VMatrixDouble,
            Token::Underscore => Token::Underscore,
            Token::Comma => Token::Comma,
            Token::Backslash => Token::Backslash,
        }
    }
}

/// The surface text of a token value, as the tokenizer would have read it.
/// For `Number` and `Identifier` this is the carried text; for the fixed
/// tokens it is their notation.
pub open spec fn spec_token_text(t: TokenV) -> Seq<char> {
    match t {
        TokenV::Number(s) => s,
        TokenV::Identifier(s) => s,
        TokenV::Plus => "+"@,
        TokenV::Minus => "-"@,
        TokenV::Asterisk => "*"@,
        TokenV::Slash => "/"@,
        TokenV::Caret => "^"@,
        TokenV::Exclamation => "!"@,
        TokenV::Equals => "="@,
        TokenV::CDot => "\\cdot"@,
        TokenV::Prime => "'"@,
        TokenV::LParen => "("@,
        TokenV::RParen => ")"@,
        TokenV::LBracket => "["@,
        TokenV::RBracket => "]"@,
        TokenV::LCurly => "{"@,
        TokenV::RCurly => "}"@,
        TokenV::Pipe => "|"@,
        TokenV::Ampersand => "&"@,
        TokenV::Semicolon => ";"@,
        TokenV::DoubleBackslash => "\\\\"@,
        TokenV::Begin => "\\begin"@,
        TokenV::End => "\\end"@,
        TokenV::Matrix => "matrix"@,
        TokenV::PMatrix => "pmatrix"@,
        TokenV::BMatrix => "bmatrix"@,
        TokenV::VMatrix => "vmatrix"@,
        TokenV::VMatrixDouble => "Vmatrix"@,
        TokenV::Underscore => "_"@,
        TokenV::Comma => ","@,
        TokenV::Backslash => "\\"@,
    }
}

impl Token {
    /// The surface text of this token.
    pub fn text(&self) -> (r: String)
        ensures
            r@ == spec_token_text(self@),
    {
        match self {
            Token::Number(s) => s.clone(),
            Token::Identifier(s) => s.clone(),
            Token::Plus => "+".to_owned(),
            Token::Minus => "-".to_owned(),
            Token::Asterisk => "*".to_owned(),
            Token::Slash => "/".to_owned(),
            Token::Caret => "^".to_owned(),
            Token::Exclamation => "!".to_owned(),
            Token::Equals => "=".to_owned(),
            Token::CDot => "\\cdot".to_owned(),
            Token::Prime => "'".to_owned(),
            Token::LParen => "(".to_owned(),
            Token::RParen => ")".to_owned(),
            Token::LBracket => "[".to_owned(),
            Token::RBracket => "]".to_owned(),
            Token::LCurly => "{".to_owned(),
            Token::RCurly => "}".to_owned(),
            Token::Pipe => "|".to_owned(),
            Token::Ampersand => "&".to_owned(),
            Token::Semicolon => ";".to_owned(),
            Token::DoubleBackslash => "\\\\".to_owned(),
            Token::Begin => "\\begin".to_owned(),
            Token::End => "\\end".to_owned(),
            Token::Matrix => "matrix".to_owned(),
            Token::PMatrix => "pmatrix".to_owned(),
            Token::BMatrix => "bmatrix".to_owned(),
            Token::VMatrix => "vmatrix".to_owned(),
            Token::VMatrixDouble => "Vmatrix".to_owned(),
            Token::Underscore => "_".to_owned(),
            Token::Comma => ",".to_owned(),
            Token::Backslash => "\\".to_owned(),
        }
    }
}

/// The views of a sequence of tokens.
pub open spec fn token_views(ts: Seq<Token>) -> Seq<TokenV> {
    ts.map_values(|t: Token| t@)
}

} // verus!
