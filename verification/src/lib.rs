//! Parsing of LaTeX-style math notation embedded in Markdown text.
//!
//! The library tokenizes a textual subset of LaTeX math, parses it with a
//! recursive-descent, precedence-climbing grammar into an expression tree,
//! and can render that tree back to a normalized textual form.  A scanner
//! locates `$...$` and `$$...$$` spans inside Markdown text and parses each
//! span's content.

pub mod token;
pub mod lexer;
pub mod strutil;
pub mod ast;
pub mod error;
pub mod grammar;
pub mod parser;
pub mod scanner;
pub mod laws;

use vstd::prelude::*;

use crate::ast::{MathBlock, ExprV};
use crate::error::{ParseError, ErrV};

verus! {

/// Parses one formula from `input` and pairs it with the given display
/// mode.  The expression is exactly what the grammar yields for the
/// input's tokens; the error, when the parse fails, is exactly the
/// grammar's.  Tokens after the first expression are not rejected.
pub fn parse_math_block(input: &str, display_style: bool) -> (r: Result<MathBlock, ParseError>)
    ensures
        match r {
            Ok(mb) => crate::scanner::spec_parse_block(input@) == Ok::<ExprV, ErrV>(mb@.expr)
                && mb.display_style == display_style,
            Err(e) => crate::scanner::spec_parse_block(input@) == Err::<ExprV, ErrV>(e@),
        },
{
    let mut parser = crate::parser::Parser::new(input);
    match parser.parse_expression() {
        Ok(expr) => Ok(MathBlock { expr, display_style }),
        Err(e) => Err(e),
    }
}

/// Parses one inline formula (`$...$`): display mode `false`.
pub fn parse_inline_math(input: &str) -> (r: Result<MathBlock, ParseError>)
    ensures
        match r {
            Ok(mb) => crate::scanner::spec_parse_block(input@) == Ok::<ExprV, ErrV>(mb@.expr)
                && mb.display_style == false,
            Err(e) => crate::scanner::spec_parse_block(input@) == Err::<ExprV, ErrV>(e@),
        },
{
    parse_math_block(input, false)
}

/// Parses one display formula (`$$...$$`): display mode `true`.
pub fn parse_display_math(input: &str) -> (r: Result<MathBlock, ParseError>)
    ensures
        match r {
            Ok(mb) => crate::scanner::spec_parse_block(input@) == Ok::<ExprV, ErrV>(mb@.expr)
                && mb.display_style == true,
            Err(e) => crate::scanner::spec_parse_block(input@) == Err::<ExprV, ErrV>(e@),
        },
{
    parse_math_block(input, true)
}

/// Extracts and parses every math formula of a Markdown text, in document
/// order.  This never fails: a span whose content is not parseable math
/// contributes nothing.
pub fn parse_markdown_math(markdown: &str) -> (r: Vec<MathBlock>)
    ensures
        r.deep_view() == crate::scanner::spec_scan_markdown(markdown@, 0),
{
    crate::scanner::scan_markdown(markdown)
}

} // verus!
