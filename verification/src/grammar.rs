//! The expression grammar, as specification functions.
//!
//! Each function takes the token values, a position, and a `stop` flag, and
//! yields the parsed expression value with the position just after it, or a
//! parse error.  The `stop` flag threads the delimiter-aware variant of the
//! grammar through every precedence level: inside an absolute-value or norm
//! delimiter, a pipe token is an immediate stop condition rather than part
//! of the expression, so that the matching closing pipe stays visible to
//! the enclosing delimiter.
//!
//! Precedence, lowest first: equality, additive, multiplicative, power,
//! unary prefix, implicit multiplication, primary.  Subscript, superscript
//! and prime postfixes bind tighter than any binary operator and chain
//! left-to-right on their base.  A power's exponent and an unbraced
//! subscript or superscript operand are parsed at unary precedence and
//! take no postfix chain of their own, so `x_1^2` is the superscript of
//! the subscripted base and chained carets group left-to-right; a braced
//! operand holds a full expression.

use vstd::prelude::*;

use crate::ast::{ExprV, BinaryOperator, UnaryOperator, MatrixType};
use crate::ast::spec_render;
use crate::error::ErrV;
use crate::lexer::rem;
use crate::token::{TokenV, TokenKind, kind_of};

verus! {

/// A parse step's outcome: the expression value and the position after it,
/// or the error that aborted the parse.
pub type StepRes = Result<(ExprV, int), ErrV>;

/// An argument-list step's outcome.
pub type ArgsRes = Result<(Seq<ExprV>, int), ErrV>;

/// The token at position `p`, if any.
pub open spec fn tok_at(t: Seq<TokenV>, p: int) -> Option<TokenV> {
    if 0 <= p < t.len() {
        Some(t[p])
    } else {
        None
    }
}

/// Whether the token at position `p` has kind `k`.
pub open spec fn is_kind(t: Seq<TokenV>, p: int, k: TokenKind) -> bool {
    match tok_at(t, p) {
        Some(tok) => kind_of(tok) == k,
        None => false,
    }
}

/// A successful sub-parse always moves past at least one token.  `adv`
/// makes that advance visible to the termination checker; in every
/// reachable case it is the identity on `q`.
pub open spec fn adv(p: int, q: int) -> int {
    if q > p {
        q
    } else {
        p + 1
    }
}

/// The position after the expected token, or the error naming what stood
/// in its place.
pub open spec fn expect_kind(t: Seq<TokenV>, p: int, k: TokenKind) -> Result<int, ErrV> {
    if is_kind(t, p, k) {
        Ok(p + 1)
    } else {
        Err(ErrV::ExpectedToken { expected: k, found: tok_at(t, p) })
    }
}

/// A binary-operation node.
pub open spec fn binop(l: ExprV, op: BinaryOperator, r: ExprV) -> ExprV {
    ExprV::BinaryOp { left: Box::new(l), operator: op, right: Box::new(r) }
}

/// The matrix environment named by a token, if any.
pub open spec fn matrix_type_of(tok: TokenV) -> Option<MatrixType> {
    match tok {
        TokenV::Matrix => Some(MatrixType::Matrix),
        TokenV::PMatrix => Some(MatrixType::PMatrix),
        TokenV::BMatrix => Some(MatrixType::BMatrix),
        TokenV::VMatrix => Some(MatrixType::VMatrix),
        TokenV::VMatrixDouble => Some(MatrixType::VMatrixDouble),
        _ => None,
    }
}

/// The differentiation variable of the derivative-operator pattern: a left
/// operand `d` and a right operand beginning with `d` and longer than one
/// character, as in `d/dx`.
pub open spec fn deriv_split(l: ExprV, r: ExprV) -> Option<Seq<char>> {
    if l is Variable && l->Variable_0 == "d"@ && r is Variable && r->Variable_0.len() > 1
        && r->Variable_0[0] == 'd' {
        Some(r->Variable_0.subrange(1, r->Variable_0.len() as int))
    } else {
        None
    }
}

/// The opaque derivative-operator variable for differentiation variable
/// `v`, as in `\frac{d}{dx}`.
pub open spec fn deriv_name(v: Seq<char>) -> Seq<char> {
    "\\frac{d}{d"@ + v + "}"@
}

/// An expression: the whole grammar from its lowest precedence level.
#[verifier::opaque]
pub open spec fn spec_parse_expression(t: Seq<TokenV>, p: int, stop: bool) -> StepRes
    decreases rem(t, p), 20int,
{
    spec_parse_equality(t, p, stop)
}

/// Equality: `additive (= additive)*`, left-associative.
#[verifier::opaque]
pub open spec fn spec_parse_equality(t: Seq<TokenV>, p: int, stop: bool) -> StepRes
    decreases rem(t, p), 19int,
{
    match spec_parse_additive(t, p, stop) {
        Err(e) => Err(e),
        Ok((e0, q)) => spec_parse_equality_rest(t, adv(p, q), stop, e0),
    }
}

/// The `= additive` repetitions of an equality.
#[verifier::opaque]
pub open spec fn spec_parse_equality_rest(t: Seq<TokenV>, p: int, stop: bool, acc: ExprV) -> StepRes
    decreases rem(t, p), 18int,
{
    if stop && is_kind(t, p, TokenKind::Pipe) {
        Ok((acc, p))
    } else if is_kind(t, p, TokenKind::Equals) {
        if stop && is_kind(t, p + 1, TokenKind::Pipe) {
            Ok((acc, p + 1))
        } else {
            match spec_parse_additive(t, p + 1, stop) {
                Err(e) => Err(e),
                Ok((r, q)) => spec_parse_equality_rest(
                    t,
                    adv(p + 1, q),
                    stop,
                    binop(acc, BinaryOperator::Equals, r),
                ),
            }
        }
    } else {
        Ok((acc, p))
    }
}

/// Additive: `multiplicative ((+ | -) multiplicative)*`, left-associative.
#[verifier::opaque]
pub open spec fn spec_parse_additive(t: Seq<TokenV>, p: int, stop: bool) -> StepRes
    decreases rem(t, p), 17int,
{
    match spec_parse_multiplicative(t, p, stop) {
        Err(e) => Err(e),
        Ok((e0, q)) => spec_parse_additive_rest(t, adv(p, q), stop, e0),
    }
}

/// The `(+ | -) multiplicative` repetitions of an additive expression.
#[verifier::opaque]
pub open spec fn spec_parse_additive_rest(t: Seq<TokenV>, p: int, stop: bool, acc: ExprV) -> StepRes
    decreases rem(t, p), 16int,
{
    if stop && is_kind(t, p, TokenKind::Pipe) {
        Ok((acc, p))
    } else if is_kind(t, p, TokenKind::Plus) {
        match spec_parse_multiplicative(t, p + 1, stop) {
            Err(e) => Err(e),
            Ok((r, q)) => spec_parse_additive_rest(
                t,
                adv(p + 1, q),
                stop,
                binop(acc, BinaryOperator::Add, r),
            ),
        }
    } else if is_kind(t, p, TokenKind::Minus) {
        match spec_parse_multiplicative(t, p + 1, stop) {
            Err(e) => Err(e),
            Ok((r, q)) => spec_parse_additive_rest(
                t,
                adv(p + 1, q),
                stop,
                binop(acc, BinaryOperator::Subtract, r),
            ),
        }
    } else {
        Ok((acc, p))
    }
}

/// Multiplicative: `power ((* | / | \cdot) power)*`, left-associative.
/// `/` builds a fraction node, except for the derivative-operator rewrite:
/// `d/dx` collapses into a single opaque derivative-operator variable and
/// ends the multiplicative chain.
#[verifier::opaque]
pub open spec fn spec_parse_multiplicative(t: Seq<TokenV>, p: int, stop: bool) -> StepRes
    decreases rem(t, p), 15int,
{
    match spec_parse_power(t, p, stop) {
        Err(e) => Err(e),
        Ok((e0, q)) => spec_parse_multiplicative_rest(t, adv(p, q), stop, e0),
    }
}

/// The `(* | / | \cdot) power` repetitions of a multiplicative expression.
#[verifier::opaque]
pub open spec fn spec_parse_multiplicative_rest(
    t: Seq<TokenV>,
    p: int,
    stop: bool,
    acc: ExprV,
) -> StepRes
    decreases rem(t, p), 14int,
{
    if stop && is_kind(t, p, TokenKind::Pipe) {
        Ok((acc, p))
    } else if is_kind(t, p, TokenKind::Asterisk) {
        match spec_parse_power(t, p + 1, stop) {
            Err(e) => Err(e),
            Ok((r, q)) => spec_parse_multiplicative_rest(
                t,
                adv(p + 1, q),
                stop,
                binop(acc, BinaryOperator::Multiply, r),
            ),
        }
    } else if is_kind(t, p, TokenKind::Slash) {
        match spec_parse_power(t, p + 1, stop) {
            Err(e) => Err(e),
            Ok((r, q)) => match deriv_split(acc, r) {
                Some(v) => Ok((ExprV::Variable(deriv_name(v)), adv(p + 1, q))),
                None => spec_parse_multiplicative_rest(
                    t,
                    adv(p + 1, q),
                    stop,
                    ExprV::Fraction { numerator: Box::new(acc), denominator: Box::new(r) },
                ),
            },
        }
    } else if is_kind(t, p, TokenKind::CDot) {
        match spec_parse_power(t, p + 1, stop) {
            Err(e) => Err(e),
            Ok((r, q)) => spec_parse_multiplicative_rest(
                t,
                adv(p + 1, q),
                stop,
                binop(acc, BinaryOperator::DotProduct, r),
            ),
        }
    } else {
        Ok((acc, p))
    }
}

/// Power: `unary (^ unary)*`, left base; the exponent is parsed at unary
/// precedence.
#[verifier::opaque]
pub open spec fn spec_parse_power(t: Seq<TokenV>, p: int, stop: bool) -> StepRes
    decreases rem(t, p), 13int,
{
    match spec_parse_unary(t, p, stop, true) {
        Err(e) => Err(e),
        Ok((e0, q)) => spec_parse_power_rest(t, adv(p, q), stop, e0),
    }
}

/// The `^ unary` repetitions of a power expression.  A caret followed by a
/// stopping pipe is consumed and discarded.
#[verifier::opaque]
pub open spec fn spec_parse_power_rest(t: Seq<TokenV>, p: int, stop: bool, acc: ExprV) -> StepRes
    decreases rem(t, p), 12int,
{
    if is_kind(t, p, TokenKind::Caret) {
        if stop && is_kind(t, p + 1, TokenKind::Pipe) {
            Ok((acc, p + 1))
        } else {
            match spec_parse_unary(t, p + 1, stop, false) {
                Err(e) => Err(e),
                Ok((r, q)) => spec_parse_power_rest(
                    t,
                    adv(p + 1, q),
                    stop,
                    binop(acc, BinaryOperator::Power, r),
                ),
            }
        }
    } else {
        Ok((acc, p))
    }
}

/// Unary prefix `+ - !`, right-associative, falling to implicit
/// multiplication.
#[verifier::opaque]
pub open spec fn spec_parse_unary(t: Seq<TokenV>, p: int, stop: bool, post: bool) -> StepRes
    decreases rem(t, p), 11int,
{
    if is_kind(t, p, TokenKind::Plus) {
        match spec_parse_unary(t, p + 1, stop, post) {
            Err(e) => Err(e),
            Ok((e, q)) => Ok(
                (ExprV::UnaryOp { operator: UnaryOperator::Plus, expr: Box::new(e) }, q),
            ),
        }
    } else if is_kind(t, p, TokenKind::Minus) {
        match spec_parse_unary(t, p + 1, stop, post) {
            Err(e) => Err(e),
            Ok((e, q)) => Ok(
                (ExprV::UnaryOp { operator: UnaryOperator::Minus, expr: Box::new(e) }, q),
            ),
        }
    } else if is_kind(t, p, TokenKind::Exclamation) {
        match spec_parse_unary(t, p + 1, stop, post) {
            Err(e) => Err(e),
            Ok((e, q)) => Ok(
                (ExprV::UnaryOp { operator: UnaryOperator::Factorial, expr: Box::new(e) }, q),
            ),
        }
    } else {
        spec_parse_factor(t, p, stop, post)
    }
}

/// Implicit multiplication: `primary primary*`, combining adjacent
/// primaries left-to-right whenever the lookahead token can itself start a
/// primary.
#[verifier::opaque]
pub open spec fn spec_parse_factor(t: Seq<TokenV>, p: int, stop: bool, post: bool) -> StepRes
    decreases rem(t, p), 10int,
{
    match spec_parse_primary(t, p, stop, post) {
        Err(e) => Err(e),
        Ok((e0, q)) => spec_parse_factor_rest(t, adv(p, q), stop, post, e0),
    }
}

/// Whether the token kind can start a primary and so continue an implicit
/// multiplication.
pub open spec fn starts_primary(k: TokenKind) -> bool {
    k == TokenKind::Number || k == TokenKind::Identifier || k == TokenKind::LParen || k
        == TokenKind::Backslash || k == TokenKind::LBracket || k == TokenKind::Pipe
}

/// The adjacent-primary repetitions of an implicit multiplication.
#[verifier::opaque]
pub open spec fn spec_parse_factor_rest(
    t: Seq<TokenV>,
    p: int,
    stop: bool,
    post: bool,
    acc: ExprV,
) -> StepRes
    decreases rem(t, p), 9int,
{
    if stop && is_kind(t, p, TokenKind::Pipe) {
        Ok((acc, p))
    } else {
        match tok_at(t, p) {
            Some(tok) => {
                if starts_primary(kind_of(tok)) {
                    match spec_parse_primary(t, p, stop, post) {
                        Err(e) => Err(e),
                        Ok((r, q)) => spec_parse_factor_rest(
                            t,
                            adv(p, q),
                            stop,
                            post,
                            binop(acc, BinaryOperator::Multiply, r),
                        ),
                    }
                } else {
                    Ok((acc, p))
                }
            }
            None => Ok((acc, p)),
        }
    }
}

/// A primary: number, identifier or function call, parenthesized or
/// bracketed group, absolute value or norm, matrix environment, or escaped
/// command; followed by its subscript, superscript and prime postfixes.
#[verifier::opaque]
pub open spec fn spec_parse_primary(t: Seq<TokenV>, p: int, stop: bool, post: bool) -> StepRes
    decreases rem(t, p), 8int,
{
    match tok_at(t, p) {
        None => Err(ErrV::UnexpectedEndOfInput),
        Some(tok) => match tok {
            TokenV::Number(s) => {
                if post {
                    spec_parse_primary_tail(t, p + 1, stop, ExprV::Number(s))
                } else {
                    Ok((ExprV::Number(s), p + 1))
                }
            },
            TokenV::Identifier(name) => {
                if is_kind(t, p + 1, TokenKind::LParen) {
                    match spec_parse_call_args(t, p + 2, stop) {
                        Err(e) => Err(e),
                        Ok((args, q)) => {
                            if post {
                                spec_parse_primary_tail(
                                    t,
                                    adv(p + 2, q),
                                    stop,
                                    ExprV::FunctionCall { name, args },
                                )
                            } else {
                                Ok((ExprV::FunctionCall { name, args }, adv(p + 2, q)))
                            }
                        },
                    }
                } else if is_kind(t, p + 1, TokenKind::Prime) {
                    if post {
                        spec_parse_primary_tail(t, p + 2, stop, ExprV::Variable(name + "'"@))
                    } else {
                        Ok((ExprV::Variable(name + "'"@), p + 2))
                    }
                } else {
                    if post {
                        spec_parse_primary_tail(t, p + 1, stop, ExprV::Variable(name))
                    } else {
                        Ok((ExprV::Variable(name), p + 1))
                    }
                }
            },
            TokenV::LParen => match spec_parse_expression(t, p + 1, stop) {
                Err(e) => Err(e),
                Ok((e, q)) => {
                    let q2 = adv(p + 1, q);
                    match expect_kind(t, q2, TokenKind::RParen) {
                        Err(e) => Err(e),
                        Ok(q3) => {
                            if post {
                                spec_parse_primary_tail(
                                    t,
                                    q3,
                                    stop,
                                    ExprV::Parenthesized(Box::new(e)),
                                )
                            } else {
                                Ok((ExprV::Parenthesized(Box::new(e)), q3))
                            }
                        },
                    }
                },
            },
            TokenV::LBracket => match spec_parse_expression(t, p + 1, stop) {
                Err(e) => Err(e),
                Ok((e, q)) => {
                    let q2 = adv(p + 1, q);
                    match expect_kind(t, q2, TokenKind::RBracket) {
                        Err(e) => Err(e),
                        Ok(q3) => {
                            if post {
                                spec_parse_primary_tail(
                                    t,
                                    q3,
                                    stop,
                                    ExprV::Parenthesized(Box::new(e)),
                                )
                            } else {
                                Ok((ExprV::Parenthesized(Box::new(e)), q3))
                            }
                        },
                    }
                },
            },
            TokenV::Pipe => {
                if stop {
                    Err(ErrV::UnexpectedToken(TokenV::Pipe))
                } else {
                    spec_parse_absolute(t, p + 1)
                }
            },
            TokenV::Begin => spec_parse_matrix(t, p + 1),
            TokenV::Backslash => match spec_parse_command(t, p + 1, stop, post) {
                Err(e) => Err(e),
                Ok((e, q)) => {
                    if post {
                        spec_parse_primary_tail(t, adv(p + 1, q), stop, e)
                    } else {
                        Ok((e, adv(p + 1, q)))
                    }
                },
            },
            _ => Err(ErrV::UnexpectedToken(tok)),
        },
    }
}

/// The postfixes of a primary: subscripts and superscripts, then an
/// optional derivative prime, which folds the whole expression into an
/// opaque variable holding its rendered text.
#[verifier::opaque]
pub open spec fn spec_parse_primary_tail(t: Seq<TokenV>, p: int, stop: bool, acc: ExprV) -> StepRes
    decreases rem(t, p), 7int,
{
    match spec_parse_postfix(t, p, stop, acc) {
        Err(e) => Err(e),
        Ok((e1, q)) => {
            if is_kind(t, q, TokenKind::Prime) {
                Ok((ExprV::Variable(spec_render(e1) + "'"@), q + 1))
            } else {
                Ok((e1, q))
            }
        },
    }
}

/// The subscript and superscript postfix chain, binding tighter than any
/// binary operator and chaining left-to-right.
#[verifier::opaque]
pub open spec fn spec_parse_postfix(t: Seq<TokenV>, p: int, stop: bool, acc: ExprV) -> StepRes
    decreases rem(t, p), 6int,
{
    if stop && is_kind(t, p, TokenKind::Pipe) {
        Ok((acc, p))
    } else if is_kind(t, p, TokenKind::Underscore) {
        match spec_parse_sub_or_sup(t, p + 1, stop) {
            Err(e) => Err(e),
            Ok((se, q)) => spec_parse_postfix(
                t,
                adv(p + 1, q),
                stop,
                ExprV::Subscript { base: Box::new(acc), subscript: Box::new(se) },
            ),
        }
    } else if is_kind(t, p, TokenKind::Caret) {
        match spec_parse_sub_or_sup(t, p + 1, stop) {
            Err(e) => Err(e),
            Ok((se, q)) => spec_parse_postfix(
                t,
                adv(p + 1, q),
                stop,
                ExprV::Superscript { base: Box::new(acc), superscript: Box::new(se) },
            ),
        }
    } else {
        Ok((acc, p))
    }
}

/// A subscript or superscript operand: a braced full expression, or an
/// unbraced operand at unary precedence.
#[verifier::opaque]
pub open spec fn spec_parse_sub_or_sup(t: Seq<TokenV>, p: int, stop: bool) -> StepRes
    decreases rem(t, p), 23int,
{
    if is_kind(t, p, TokenKind::LCurly) {
        match spec_parse_expression(t, p + 1, stop) {
            Err(e) => Err(e),
            Ok((e, q)) => {
                let q2 = adv(p + 1, q);
                match expect_kind(t, q2, TokenKind::RCurly) {
                    Err(e) => Err(e),
                    Ok(q3) => Ok((e, q3)),
                }
            },
        }
    } else {
        spec_parse_unary(t, p, stop, false)
    }
}

/// The arguments of a function call, after its opening parenthesis:
/// expressions separated by commas, up to the closing parenthesis.
#[verifier::opaque]
pub open spec fn spec_parse_call_args(t: Seq<TokenV>, p: int, stop: bool) -> ArgsRes
    decreases rem(t, p), 26int,
{
    if is_kind(t, p, TokenKind::RParen) {
        Ok((Seq::empty(), p + 1))
    } else {
        spec_parse_call_args_rest(t, p, stop, Seq::empty())
    }
}

/// The remaining arguments of a function call.  Inside a delimiter, a
/// comma followed by a stopping pipe ends the list, which then fails on
/// the missing closing parenthesis.
#[verifier::opaque]
pub open spec fn spec_parse_call_args_rest(
    t: Seq<TokenV>,
    p: int,
    stop: bool,
    acc: Seq<ExprV>,
) -> ArgsRes
    decreases rem(t, p), 25int,
{
    match spec_parse_expression(t, p, stop) {
        Err(e) => Err(e),
        Ok((a, q)) => {
            let q2 = adv(p, q);
            let acc2 = acc.push(a);
            if is_kind(t, q2, TokenKind::Comma) && !(stop && is_kind(t, q2 + 1, TokenKind::Pipe)) {
                spec_parse_call_args_rest(t, q2 + 1, stop, acc2)
            } else {
                let q3 = if is_kind(t, q2, TokenKind::Comma) {
                    q2 + 1
                } else {
                    q2
                };
                match expect_kind(t, q3, TokenKind::RParen) {
                    Err(e) => Err(e),
                    Ok(q4) => Ok((acc2, q4)),
                }
            }
        },
    }
}

/// An absolute value or norm, after its opening pipe.  A second pipe right
/// away makes it a norm, whose content must be followed by exactly two
/// closing pipes; otherwise the content must be followed by one.  Reaching
/// the end of the input while the delimiter is open is an unclosed
/// absolute value.
#[verifier::opaque]
pub open spec fn spec_parse_absolute(t: Seq<TokenV>, p: int) -> StepRes
    decreases rem(t, p), 27int,
{
    if is_kind(t, p, TokenKind::Pipe) {
        // norm
        match spec_parse_expression(t, p + 1, true) {
            Err(e) => Err(close_delimiter_error(e)),
            Ok((e, q)) => {
                let q2 = adv(p + 1, q);
                match expect_pipe(t, q2) {
                    Err(e) => Err(e),
                    Ok(q3) => match expect_pipe(t, q3) {
                        Err(e) => Err(e),
                        Ok(q4) => Ok(
                            (
                                ExprV::FunctionCall { name: "norm"@, args: seq![e] },
                                q4,
                            ),
                        ),
                    },
                }
            },
        }
    } else {
        match spec_parse_expression(t, p, true) {
            Err(e) => Err(close_delimiter_error(e)),
            Ok((e, q)) => {
                let q2 = adv(p, q);
                match expect_pipe(t, q2) {
                    Err(e) => Err(e),
                    Ok(q3) => Ok(
                        (ExprV::FunctionCall { name: "abs"@, args: seq![e] }, q3),
                    ),
                }
            },
        }
    }
}

/// Reaching the end of the input while a delimiter parse is open is an
/// unclosed absolute value.
pub open spec fn close_delimiter_error(e: ErrV) -> ErrV {
    if e is UnexpectedEndOfInput {
        ErrV::UnclosedAbsoluteValue
    } else {
        e
    }
}

/// The position after a closing pipe; at the end of the input the
/// delimiter is unclosed.
pub open spec fn expect_pipe(t: Seq<TokenV>, p: int) -> Result<int, ErrV> {
    match tok_at(t, p) {
        None => Err(ErrV::UnclosedAbsoluteValue),
        Some(tok) => {
            if kind_of(tok) == TokenKind::Pipe {
                Ok(p + 1)
            } else {
                Err(ErrV::ExpectedToken { expected: TokenKind::Pipe, found: Some(tok) })
            }
        },
    }
}

/// A command's trailing subscripts and superscripts, taken only where the
/// enclosing context takes postfixes at all.
pub open spec fn spec_command_postfix(
    t: Seq<TokenV>,
    p: int,
    stop: bool,
    post: bool,
    acc: ExprV,
) -> StepRes
    decreases rem(t, p), 7int,
{
    if post {
        spec_parse_postfix(t, p, stop, acc)
    } else {
        Ok((acc, p))
    }
}

/// An escaped command, after its backslash: `\frac`, `\sqrt`, `\vec`,
/// `\int`, `\left`, `\right`, a matrix environment, a function call, or an
/// opaque command variable; followed by its subscript and superscript
/// postfixes.
#[verifier::opaque]
pub open spec fn spec_parse_command(t: Seq<TokenV>, p: int, stop: bool, post: bool) -> StepRes
    decreases rem(t, p), 24int,
{
    match tok_at(t, p) {
        None => Err(ErrV::ExpectedCommandName),
        Some(tok) => match tok {
            TokenV::Begin => spec_parse_matrix(t, p + 1),
            TokenV::Identifier(cmd) => {
                if cmd == "frac"@ {
                    spec_parse_frac(t, p + 1, stop)
                } else if cmd == "sqrt"@ {
                    match spec_parse_sqrt(t, p + 1, stop) {
                        Err(e) => Err(e),
                        Ok((e, q)) => spec_command_postfix(t, adv(p + 1, q), stop, post, e),
                    }
                } else if cmd == "vec"@ {
                    match spec_parse_braced(t, p + 1, stop) {
                        Err(e) => Err(e),
                        Ok((e, q)) => spec_command_postfix(
                            t,
                            adv(p + 1, q),
                            stop,
                            post,
                            ExprV::Variable("\\vec{"@ + spec_render(e) + "}"@),
                        ),
                    }
                } else if cmd == "int"@ {
                    spec_command_postfix(t, p + 1, stop, post, ExprV::Variable("\\int"@))
                } else if cmd == "left"@ {
                    match tok_at(t, p + 1) {
                        None => spec_command_postfix(
                            t,
                            p + 1,
                            stop,
                            post,
                            ExprV::Variable("\\left"@),
                        ),
                        Some(tok2) => spec_command_postfix(
                            t,
                            p + 2,
                            stop,
                            post,
                            ExprV::Variable(left_fold(tok2)),
                        ),
                    }
                } else if cmd == "right"@ {
                    match tok_at(t, p + 1) {
                        None => spec_command_postfix(
                            t,
                            p + 1,
                            stop,
                            post,
                            ExprV::Variable("\\right"@),
                        ),
                        Some(tok2) => spec_command_postfix(
                            t,
                            p + 2,
                            stop,
                            post,
                            ExprV::Variable(right_fold(tok2)),
                        ),
                    }
                } else if is_kind(t, p + 1, TokenKind::LParen) {
                    match spec_parse_call_args(t, p + 2, stop) {
                        Err(e) => Err(e),
                        Ok((args, q)) => Ok(
                            (ExprV::FunctionCall { name: "\\"@ + cmd, args }, adv(p + 2, q)),
                        ),
                    }
                } else {
                    spec_command_postfix(t, p + 1, stop, post, ExprV::Variable("\\"@ + cmd))
                }
            },
            _ => Err(ErrV::ExpectedCommandName),
        },
    }
}

/// The opaque variable text that a `\left` command folds its following
/// token into.
pub open spec fn left_fold(tok: TokenV) -> Seq<char> {
    match tok {
        TokenV::LBracket => "["@,
        TokenV::LParen => "("@,
        _ => "\\left"@ + crate::token::spec_token_text(tok),
    }
}

/// The opaque variable text that a `\right` command folds its following
/// token into.
pub open spec fn right_fold(tok: TokenV) -> Seq<char> {
    match tok {
        TokenV::RBracket => "]"@,
        TokenV::RParen => ")"@,
        _ => "\\right"@ + crate::token::spec_token_text(tok),
    }
}

/// A `\frac` command's two brace-delimited arguments, after the command
/// name, with the derivative-operator rewrite: `\frac{d}{dx}` followed by
/// a bracketed operand builds a structured derivative node, without one it
/// collapses into the opaque derivative-operator variable.  The result
/// takes no command postfixes.
#[verifier::opaque]
pub open spec fn spec_parse_frac(t: Seq<TokenV>, p: int, stop: bool) -> StepRes
    decreases rem(t, p), 22int,
{
    match spec_parse_braced(t, p, stop) {
        Err(e) => Err(e),
        Ok((num, q1)) => match spec_parse_braced(t, adv(p, q1), stop) {
            Err(e) => Err(e),
            Ok((den, q2)) => {
                let q2a = adv(adv(p, q1), q2);
                match deriv_split(num, den) {
                    None => Ok(
                        (
                            ExprV::Fraction { numerator: Box::new(num), denominator: Box::new(den) },
                            q2a,
                        ),
                    ),
                    Some(v) => {
                        if is_kind(t, q2a, TokenKind::LBracket) {
                            match spec_parse_expression(t, q2a + 1, stop) {
                                Err(e) => Err(e),
                                Ok((inner, q3)) => {
                                    let q3a = adv(q2a + 1, q3);
                                    match expect_kind(t, q3a, TokenKind::RBracket) {
                                        Err(e) => Err(e),
                                        Ok(q4) => Ok(
                                            (
                                                ExprV::Derivative {
                                                    variable: v,
                                                    expression: Box::new(inner),
                                                },
                                                q4,
                                            ),
                                        ),
                                    }
                                },
                            }
                        } else {
                            Ok((ExprV::Variable(deriv_name(v)), q2a))
                        }
                    },
                }
            },
        },
    }
}

/// A brace-delimited expression: `{ expression }`.
#[verifier::opaque]
pub open spec fn spec_parse_braced(t: Seq<TokenV>, p: int, stop: bool) -> StepRes
    decreases rem(t, p), 21int,
{
    match expect_kind(t, p, TokenKind::LCurly) {
        Err(e) => Err(e),
        Ok(q1) => match spec_parse_expression(t, q1, stop) {
            Err(e) => Err(e),
            Ok((e, q2)) => {
                let q2a = adv(q1, q2);
                match expect_kind(t, q2a, TokenKind::RCurly) {
                    Err(e) => Err(e),
                    Ok(q3) => Ok((e, q3)),
                }
            },
        },
    }
}

/// A `\sqrt` command's arguments, after the command name: an optional
/// bracket-delimited index, then a mandatory brace-delimited radicand.
#[verifier::opaque]
pub open spec fn spec_parse_sqrt(t: Seq<TokenV>, p: int, stop: bool) -> StepRes
    decreases rem(t, p), 22int,
{
    if is_kind(t, p, TokenKind::LBracket) {
        match spec_parse_expression(t, p + 1, stop) {
            Err(e) => Err(e),
            Ok((idx, q)) => {
                let q2 = adv(p + 1, q);
                match expect_kind(t, q2, TokenKind::RBracket) {
                    Err(e) => Err(e),
                    Ok(q3) => match spec_parse_braced(t, q3, stop) {
                        Err(e) => Err(e),
                        Ok((rad, q4)) => Ok(
                            (
                                ExprV::Root {
                                    radicand: Box::new(rad),
                                    index: Some(Box::new(idx)),
                                },
                                q4,
                            ),
                        ),
                    },
                }
            },
        }
    } else {
        match spec_parse_braced(t, p, stop) {
            Err(e) => Err(e),
            Ok((rad, q)) => Ok((ExprV::Root { radicand: Box::new(rad), index: None }, q)),
        }
    }
}

/// A matrix environment, after `\begin`: `{ type }`, rows of expressions
/// separated by `&` within a row and `\\` between rows, then `\end{ type }`
/// with the same type.  The final row is included even without a trailing
/// row separator.
#[verifier::opaque]
pub open spec fn spec_parse_matrix(t: Seq<TokenV>, p: int) -> StepRes
    decreases rem(t, p), 28int,
{
    match expect_kind(t, p, TokenKind::LCurly) {
        Err(e) => Err(e),
        Ok(q1) => match tok_at(t, q1) {
            None => Err(ErrV::ExpectedMatrixType { found: None }),
            Some(tok) => match matrix_type_of(tok) {
                None => Err(ErrV::ExpectedMatrixType { found: Some(tok) }),
                Some(mt) => match expect_kind(t, q1 + 1, TokenKind::RCurly) {
                    Err(e) => Err(e),
                    Ok(q2) => spec_parse_matrix_rows(t, q2, mt, Seq::empty(), Seq::empty()),
                },
            },
        },
    }
}

/// The rows of a matrix environment.  `rows` holds the finished rows and
/// `cur` the cells of the row being read.
#[verifier::opaque]
pub open spec fn spec_parse_matrix_rows(
    t: Seq<TokenV>,
    p: int,
    mt: MatrixType,
    rows: Seq<Seq<ExprV>>,
    cur: Seq<ExprV>,
) -> StepRes
    decreases rem(t, p), 30int,
{
    if p >= t.len() {
        Err(ErrV::UnexpectedEndOfInput)
    } else if is_kind(t, p, TokenKind::End) {
        match expect_kind(t, p + 1, TokenKind::LCurly) {
            Err(e) => Err(e),
            Ok(q1) => match tok_at(t, q1) {
                None => Err(ErrV::ExpectedMatrixType { found: None }),
                Some(tok) => match matrix_type_of(tok) {
                    None => Err(ErrV::ExpectedMatrixType { found: Some(tok) }),
                    Some(endmt) => {
                        if endmt != mt {
                            Err(ErrV::MismatchedMatrixType { expected: mt, found: endmt })
                        } else {
                            match expect_kind(t, q1 + 1, TokenKind::RCurly) {
                                Err(e) => Err(e),
                                Ok(q2) => {
                                    let allrows = if cur.len() > 0 {
                                        rows.push(cur)
                                    } else {
                                        rows
                                    };
                                    Ok((ExprV::Matrix { rows: allrows, matrix_type: mt }, q2))
                                },
                            }
                        }
                    },
                },
            },
        }
    } else {
        match spec_parse_expression(t, p, false) {
            Err(e) => Err(e),
            Ok((e, q)) => {
                let q2 = adv(p, q);
                let cur2 = cur.push(e);
                if is_kind(t, q2, TokenKind::Ampersand) {
                    spec_parse_matrix_rows(t, q2 + 1, mt, rows, cur2)
                } else if is_kind(t, q2, TokenKind::DoubleBackslash) {
                    spec_parse_matrix_rows(t, q2 + 1, mt, rows.push(cur2), Seq::empty())
                } else {
                    spec_parse_matrix_rows(t, q2, mt, rows, cur2)
                }
            },
        }
    }
}

} // verus!
