//! The recursive-descent parser: tokens to an expression tree.
//!
//! Each function implements one level of the grammar in `grammar` and
//! returns exactly what its specification function yields, together with
//! the position just after what it consumed.

use vstd::prelude::*;

use crate::ast::{MathExpr, ExprV, BinaryOperator, UnaryOperator, MatrixType};
use crate::ast::{view_exprs, view_rows, lemma_view_exprs, lemma_view_rows};
use crate::error::{ParseError, ErrV};
use crate::grammar::{
    StepRes, ArgsRes, tok_at, is_kind, adv, expect_kind, binop, matrix_type_of, deriv_split,
    deriv_name, spec_parse_expression, spec_parse_equality, spec_parse_equality_rest,
    spec_parse_additive, spec_parse_additive_rest, spec_parse_multiplicative,
    spec_parse_multiplicative_rest, spec_parse_power, spec_parse_power_rest, spec_parse_unary,
    spec_parse_factor, spec_parse_factor_rest, starts_primary, spec_parse_primary,
    spec_parse_primary_tail, spec_parse_postfix, spec_parse_sub_or_sup, spec_parse_call_args,
    spec_parse_call_args_rest, spec_parse_absolute, close_delimiter_error, expect_pipe,
    spec_parse_command, spec_command_postfix, left_fold, right_fold, spec_parse_frac, spec_parse_braced,
    spec_parse_sqrt, spec_parse_matrix, spec_parse_matrix_rows,
};
use crate::lexer::Lexer;
use crate::token::{Token, TokenV, TokenKind, token_views};
use vstd::string::StrSliceExecFns;

verus! {

/// One parse step's exec outcome: the parsed expression or the error, and
/// the position after what was consumed.
pub type Step = (Result<MathExpr, ParseError>, usize);

/// Whether an exec outcome is the one the grammar yields.
pub open spec fn models(r: Result<MathExpr, ParseError>, newpos: usize, sp: StepRes) -> bool {
    match r {
        Ok(e) => sp == Ok::<(ExprV, int), ErrV>((e@, newpos as int)),
        Err(er) => sp == Err::<(ExprV, int), ErrV>(er@),
    }
}

/// Whether an exec argument-list outcome is the one the grammar yields.
pub open spec fn models_args(
    r: Result<Vec<MathExpr>, ParseError>,
    newpos: usize,
    sp: ArgsRes,
) -> bool {
    match r {
        Ok(v) => sp == Ok::<(Seq<ExprV>, int), ErrV>((view_exprs(v@), newpos as int)),
        Err(er) => sp == Err::<(Seq<ExprV>, int), ErrV>(er@),
    }
}

/// Whether the token at `pos` has kind `k`.
pub(crate) fn check(toks: &Vec<Token>, pos: usize, k: TokenKind) -> (b: bool)
    ensures
        b == is_kind(token_views(toks@), pos as int, k),
{
    if pos < toks.len() {
        let tk = toks[pos].kind();
        proof {
            assert(token_views(toks@)[pos as int] == toks@[pos as int]@);
        }
        tk == k
    } else {
        false
    }
}

/// A copy of the token at `pos`, if any; used to report errors.
fn found_at(toks: &Vec<Token>, pos: usize) -> (r: Option<Token>)
    ensures
        match r {
            Some(t) => tok_at(token_views(toks@), pos as int) == Some(t@),
            None => tok_at(token_views(toks@), pos as int) is None,
        },
{
    if pos < toks.len() {
        proof {
            assert(token_views(toks@)[pos as int] == toks@[pos as int]@);
        }
        Some(toks[pos].duplicate())
    } else {
        None
    }
}

/// The error for a missing expected token at `pos`.
fn expect_failed(toks: &Vec<Token>, pos: usize, k: TokenKind) -> (r: ParseError)
    requires
        !is_kind(token_views(toks@), pos as int, k),
    ensures
        expect_kind(token_views(toks@), pos as int, k) == Err::<int, ErrV>(r@),
{
    ParseError::ExpectedToken { expected: k, found: found_at(toks, pos) }
}


/// The token count fits in `usize`.
pub(crate) proof fn lemma_toks_len(toks: &Vec<Token>)
    ensures
        toks@.len() <= usize::MAX,
{
    vstd::std_specs::vec::axiom_spec_len(toks);
}

/// An expression: the whole grammar from its lowest precedence level.
#[verifier::rlimit(100)]
#[verifier::spinoff_prover]
pub(crate) fn parse_expression(toks: &Vec<Token>, pos: usize, stop: bool) -> (r: Step)
    requires
        pos <= toks@.len(),
    ensures
        pos <= r.1 <= toks@.len(),
        r.0 is Ok ==> pos < r.1,
        models(r.0, r.1, spec_parse_expression(token_views(toks@), pos as int, stop)),
    decreases toks@.len() - pos, 20int,
{
    proof {
        reveal(spec_parse_expression);
    }
    proof {
        lemma_toks_len(toks);
    }
    parse_equality(toks, pos, stop)
}

/// Equality: `additive (= additive)*`, left-associative.
#[verifier::rlimit(100)]
#[verifier::spinoff_prover]
pub(crate) fn parse_equality(toks: &Vec<Token>, pos: usize, stop: bool) -> (r: Step)
    requires
        pos <= toks@.len(),
    ensures
        pos <= r.1 <= toks@.len(),
        r.0 is Ok ==> pos < r.1,
        models(r.0, r.1, spec_parse_equality(token_views(toks@), pos as int, stop)),
    decreases toks@.len() - pos, 19int,
{
    proof {
        reveal(spec_parse_equality);
    }
    proof {
        lemma_toks_len(toks);
    }
    let (r0, q) = parse_additive(toks, pos, stop);
    match r0 {
        Err(e) => (Err(e), q),
        Ok(e0) => {
            proof {
                assert(adv(pos as int, q as int) == q as int);
            }
            parse_equality_rest(toks, q, stop, e0)
        }
    }
}

/// The `= additive` repetitions of an equality.
#[verifier::rlimit(100)]
#[verifier::spinoff_prover]
pub(crate) fn parse_equality_rest(toks: &Vec<Token>, pos: usize, stop: bool, acc: MathExpr) -> (r: Step)
    requires
        pos <= toks@.len(),
    ensures
        pos <= r.1 <= toks@.len(),
        models(r.0, r.1, spec_parse_equality_rest(token_views(toks@), pos as int, stop, acc@)),
    decreases toks@.len() - pos, 18int,
{
    proof {
        reveal(spec_parse_equality_rest);
    }
    proof {
        lemma_toks_len(toks);
    }
    if stop && check(toks, pos, TokenKind::Pipe) {
        (Ok(acc), pos)
    } else if check(toks, pos, TokenKind::Equals) {
        if stop && check(toks, pos + 1, TokenKind::Pipe) {
            (Ok(acc), pos + 1)
        } else {
            let (r0, q) = parse_additive(toks, pos + 1, stop);
            match r0 {
                Err(e) => (Err(e), q),
                Ok(rhs) => {
                    proof {
                        assert(adv(pos + 1 as int, q as int) == q as int);
                    }
                    parse_equality_rest(
                        toks,
                        q,
                        stop,
                        MathExpr::BinaryOp {
                            left: Box::new(acc),
                            operator: BinaryOperator::Equals,
                            right: Box::new(rhs),
                        },
                    )
                }
            }
        }
    } else {
        (Ok(acc), pos)
    }
}

/// Additive: `multiplicative ((+ | -) multiplicative)*`, left-associative.
#[verifier::rlimit(100)]
#[verifier::spinoff_prover]
pub(crate) fn parse_additive(toks: &Vec<Token>, pos: usize, stop: bool) -> (r: Step)
    requires
        pos <= toks@.len(),
    ensures
        pos <= r.1 <= toks@.len(),
        r.0 is Ok ==> pos < r.1,
        models(r.0, r.1, spec_parse_additive(token_views(toks@), pos as int, stop)),
    decreases toks@.len() - pos, 17int,
{
    proof {
        reveal(spec_parse_additive);
    }
    proof {
        lemma_toks_len(toks);
    }
    let (r0, q) = parse_multiplicative(toks, pos, stop);
    match r0 {
        Err(e) => (Err(e), q),
        Ok(e0) => {
            proof {
                assert(adv(pos as int, q as int) == q as int);
            }
            parse_additive_rest(toks, q, stop, e0)
        }
    }
}

/// The `(+ | -) multiplicative` repetitions of an additive expression.
#[verifier::rlimit(100)]
#[verifier::spinoff_prover]
pub(crate) fn parse_additive_rest(toks: &Vec<Token>, pos: usize, stop: bool, acc: MathExpr) -> (r: Step)
    requires
        pos <= toks@.len(),
    ensures
        pos <= r.1 <= toks@.len(),
        models(r.0, r.1, spec_parse_additive_rest(token_views(toks@), pos as int, stop, acc@)),
    decreases toks@.len() - pos, 16int,
{
    proof {
        reveal(spec_parse_additive_rest);
    }
    proof {
        lemma_toks_len(toks);
    }
    if stop && check(toks, pos, TokenKind::Pipe) {
        (Ok(acc), pos)
    } else if check(toks, pos, TokenKind::Plus) {
        let (r0, q) = parse_multiplicative(toks, pos + 1, stop);
        match r0 {
            Err(e) => (Err(e), q),
            Ok(rhs) => {
                proof {
                    assert(adv(pos + 1 as int, q as int) == q as int);
                }
                parse_additive_rest(
                    toks,
                    q,
                    stop,
                    MathExpr::BinaryOp {
                        left: Box::new(acc),
                        operator: BinaryOperator::Add,
                        right: Box::new(rhs),
                    },
                )
            }
        }
    } else if check(toks, pos, TokenKind::Minus) {
        let (r0, q) = parse_multiplicative(toks, pos + 1, stop);
        match r0 {
            Err(e) => (Err(e), q),
            Ok(rhs) => {
                proof {
                    assert(adv(pos + 1 as int, q as int) == q as int);
                }
                parse_additive_rest(
                    toks,
                    q,
                    stop,
                    MathExpr::BinaryOp {
                        left: Box::new(acc),
                        operator: BinaryOperator::Subtract,
                        right: Box::new(rhs),
                    },
                )
            }
        }
    } else {
        (Ok(acc), pos)
    }
}

/// Multiplicative: `power ((* | / | \cdot) power)*`, left-associative,
/// with the derivative-operator rewrite for `/`.
#[verifier::rlimit(100)]
#[verifier::spinoff_prover]
pub(crate) fn parse_multiplicative(toks: &Vec<Token>, pos: usize, stop: bool) -> (r: Step)
    requires
        pos <= toks@.len(),
    ensures
        pos <= r.1 <= toks@.len(),
        r.0 is Ok ==> pos < r.1,
        models(r.0, r.1, spec_parse_multiplicative(token_views(toks@), pos as int, stop)),
    decreases toks@.len() - pos, 15int,
{
    proof {
        reveal(spec_parse_multiplicative);
    }
    proof {
        lemma_toks_len(toks);
    }
    let (r0, q) = parse_power(toks, pos, stop);
    match r0 {
        Err(e) => (Err(e), q),
        Ok(e0) => {
            proof {
                assert(adv(pos as int, q as int) == q as int);
            }
            parse_multiplicative_rest(toks, q, stop, e0)
        }
    }
}

/// The differentiation variable of the derivative-operator pattern
/// `d / dx`, if the operands form it.
fn deriv_split_exec(l: &MathExpr, r: &MathExpr) -> (v: Option<String>)
    ensures
        match v {
            Some(s) => deriv_split(l@, r@) == Some(s@),
            None => deriv_split(l@, r@) is None,
        },
{
    match l {
        MathExpr::Variable(ls) => {
            if crate::strutil::str_lit_eq(ls, "d") {
                match r {
                    MathExpr::Variable(rs) => {
                        let n = rs.as_str().unicode_len();
                        if n > 1 && rs.as_str().get_char(0) == 'd' {
                            Some(rs.as_str().substring_char(1, n).to_owned())
                        } else {
                            None
                        }
                    }
                    _ => None,
                }
            } else {
                None
            }
        }
        _ => None,
    }
}

/// The opaque derivative-operator variable for differentiation variable
/// `v`.
fn deriv_variable(v: &String) -> (r: MathExpr)
    ensures
        r@ == ExprV::Variable(deriv_name(v@)),
{
    let mut s = "\\frac{d}{d".to_owned();
    crate::strutil::push_str(&mut s, v.as_str());
    crate::strutil::push_str(&mut s, "}");
    MathExpr::Variable(s)
}

/// The `(* | / | \cdot) power` repetitions of a multiplicative expression.
#[verifier::rlimit(100)]
#[verifier::spinoff_prover]
pub(crate) fn parse_multiplicative_rest(toks: &Vec<Token>, pos: usize, stop: bool, acc: MathExpr) -> (r: Step)
    requires
        pos <= toks@.len(),
    ensures
        pos <= r.1 <= toks@.len(),
        models(
            r.0,
            r.1,
            spec_parse_multiplicative_rest(token_views(toks@), pos as int, stop, acc@),
        ),
    decreases toks@.len() - pos, 14int,
{
    proof {
        reveal(spec_parse_multiplicative_rest);
    }
    proof {
        lemma_toks_len(toks);
    }
    if stop && check(toks, pos, TokenKind::Pipe) {
        (Ok(acc), pos)
    } else if check(toks, pos, TokenKind::Asterisk) {
        let (r0, q) = parse_power(toks, pos + 1, stop);
        match r0 {
            Err(e) => (Err(e), q),
            Ok(rhs) => {
                proof {
                    assert(adv(pos + 1 as int, q as int) == q as int);
                }
                parse_multiplicative_rest(
                    toks,
                    q,
                    stop,
                    MathExpr::BinaryOp {
                        left: Box::new(acc),
                        operator: BinaryOperator::Multiply,
                        right: Box::new(rhs),
                    },
                )
            }
        }
    } else if check(toks, pos, TokenKind::Slash) {
        let (r0, q) = parse_power(toks, pos + 1, stop);
        match r0 {
            Err(e) => (Err(e), q),
            Ok(rhs) => {
                proof {
                    assert(adv(pos + 1 as int, q as int) == q as int);
                }
                match deriv_split_exec(&acc, &rhs) {
                    Some(v) => (Ok(deriv_variable(&v)), q),
                    None => parse_multiplicative_rest(
                        toks,
                        q,
                        stop,
                        MathExpr::Fraction { numerator: Box::new(acc), denominator: Box::new(rhs) },
                    ),
                }
            }
        }
    } else if check(toks, pos, TokenKind::CDot) {
        let (r0, q) = parse_power(toks, pos + 1, stop);
        match r0 {
            Err(e) => (Err(e), q),
            Ok(rhs) => {
                proof {
                    assert(adv(pos + 1 as int, q as int) == q as int);
                }
                parse_multiplicative_rest(
                    toks,
                    q,
                    stop,
                    MathExpr::BinaryOp {
                        left: Box::new(acc),
                        operator: BinaryOperator::DotProduct,
                        right: Box::new(rhs),
                    },
                )
            }
        }
    } else {
        (Ok(acc), pos)
    }
}

/// Power: `unary (^ unary)*`, left base.
#[verifier::rlimit(100)]
#[verifier::spinoff_prover]
pub(crate) fn parse_power(toks: &Vec<Token>, pos: usize, stop: bool) -> (r: Step)
    requires
        pos <= toks@.len(),
    ensures
        pos <= r.1 <= toks@.len(),
        r.0 is Ok ==> pos < r.1,
        models(r.0, r.1, spec_parse_power(token_views(toks@), pos as int, stop)),
    decreases toks@.len() - pos, 13int,
{
    proof {
        reveal(spec_parse_power);
    }
    proof {
        lemma_toks_len(toks);
    }
    let (r0, q) = parse_unary(toks, pos, stop, true);
    match r0 {
        Err(e) => (Err(e), q),
        Ok(e0) => {
            proof {
                assert(adv(pos as int, q as int) == q as int);
            }
            parse_power_rest(toks, q, stop, e0)
        }
    }
}

/// The `^ unary` repetitions of a power expression.
#[verifier::rlimit(100)]
#[verifier::spinoff_prover]
pub(crate) fn parse_power_rest(toks: &Vec<Token>, pos: usize, stop: bool, acc: MathExpr) -> (r: Step)
    requires
        pos <= toks@.len(),
    ensures
        pos <= r.1 <= toks@.len(),
        models(r.0, r.1, spec_parse_power_rest(token_views(toks@), pos as int, stop, acc@)),
    decreases toks@.len() - pos, 12int,
{
    proof {
        reveal(spec_parse_power_rest);
    }
    proof {
        lemma_toks_len(toks);
    }
    if check(toks, pos, TokenKind::Caret) {
        if stop && check(toks, pos + 1, TokenKind::Pipe) {
            (Ok(acc), pos + 1)
        } else {
            let (r0, q) = parse_unary(toks, pos + 1, stop, false);
            match r0 {
                Err(e) => (Err(e), q),
                Ok(rhs) => {
                    proof {
                        assert(adv(pos + 1 as int, q as int) == q as int);
                    }
                    parse_power_rest(
                        toks,
                        q,
                        stop,
                        MathExpr::BinaryOp {
                            left: Box::new(acc),
                            operator: BinaryOperator::Power,
                            right: Box::new(rhs),
                        },
                    )
                }
            }
        }
    } else {
        (Ok(acc), pos)
    }
}

/// Unary prefix `+ - !`, right-associative, falling to implicit
/// multiplication.
#[verifier::rlimit(100)]
#[verifier::spinoff_prover]
pub(crate) fn parse_unary(toks: &Vec<Token>, pos: usize, stop: bool, post: bool) -> (r: Step)
    requires
        pos <= toks@.len(),
    ensures
        pos <= r.1 <= toks@.len(),
        r.0 is Ok ==> pos < r.1,
        models(r.0, r.1, spec_parse_unary(token_views(toks@), pos as int, stop, post)),
    decreases toks@.len() - pos, 11int,
{
    proof {
        reveal(spec_parse_unary);
    }
    proof {
        lemma_toks_len(toks);
    }
    if check(toks, pos, TokenKind::Plus) {
        let (r0, q) = parse_unary(toks, pos + 1, stop, post);
        match r0 {
            Err(e) => (Err(e), q),
            Ok(e) => (
                Ok(MathExpr::UnaryOp { operator: UnaryOperator::Plus, expr: Box::new(e) }),
                q,
            ),
        }
    } else if check(toks, pos, TokenKind::Minus) {
        let (r0, q) = parse_unary(toks, pos + 1, stop, post);
        match r0 {
            Err(e) => (Err(e), q),
            Ok(e) => (
                Ok(MathExpr::UnaryOp { operator: UnaryOperator::Minus, expr: Box::new(e) }),
                q,
            ),
        }
    } else if check(toks, pos, TokenKind::Exclamation) {
        let (r0, q) = parse_unary(toks, pos + 1, stop, post);
        match r0 {
            Err(e) => (Err(e), q),
            Ok(e) => (
                Ok(MathExpr::UnaryOp { operator: UnaryOperator::Factorial, expr: Box::new(e) }),
                q,
            ),
        }
    } else {
        parse_factor(toks, pos, stop, post)
    }
}

/// Implicit multiplication: `primary primary*`.
#[verifier::rlimit(100)]
#[verifier::spinoff_prover]
pub(crate) fn parse_factor(toks: &Vec<Token>, pos: usize, stop: bool, post: bool) -> (r: Step)
    requires
        pos <= toks@.len(),
    ensures
        pos <= r.1 <= toks@.len(),
        r.0 is Ok ==> pos < r.1,
        models(r.0, r.1, spec_parse_factor(token_views(toks@), pos as int, stop, post)),
    decreases toks@.len() - pos, 10int,
{
    proof {
        reveal(spec_parse_factor);
    }
    proof {
        lemma_toks_len(toks);
    }
    let (r0, q) = parse_primary(toks, pos, stop, post);
    match r0 {
        Err(e) => (Err(e), q),
        Ok(e0) => {
            proof {
                assert(adv(pos as int, q as int) == q as int);
            }
            parse_factor_rest(toks, q, stop, post, e0)
        }
    }
}

/// The adjacent-primary repetitions of an implicit multiplication.
#[verifier::rlimit(100)]
#[verifier::spinoff_prover]
pub(crate) fn parse_factor_rest(
    toks: &Vec<Token>,
    pos: usize,
    stop: bool,
    post: bool,
    acc: MathExpr,
) -> (r: Step)
    requires
        pos <= toks@.len(),
    ensures
        pos <= r.1 <= toks@.len(),
        models(r.0, r.1, spec_parse_factor_rest(token_views(toks@), pos as int, stop, post, acc@)),
    decreases toks@.len() - pos, 9int,
{
    proof {
        reveal(spec_parse_factor_rest);
    }
    proof {
        lemma_toks_len(toks);
    }
    if stop && check(toks, pos, TokenKind::Pipe) {
        (Ok(acc), pos)
    } else if pos < toks.len() {
        let k = toks[pos].kind();
        proof {
            assert(token_views(toks@)[pos as int] == toks@[pos as int]@);
        }
        if k == TokenKind::Number || k == TokenKind::Identifier || k == TokenKind::LParen || k
            == TokenKind::Backslash || k == TokenKind::LBracket || k == TokenKind::Pipe {
            let (r0, q) = parse_primary(toks, pos, stop, post);
            match r0 {
                Err(e) => (Err(e), q),
                Ok(rhs) => {
                    proof {
                        assert(adv(pos as int, q as int) == q as int);
                    }
                    parse_factor_rest(
                        toks,
                        q,
                        stop,
                        post,
                        MathExpr::BinaryOp {
                            left: Box::new(acc),
                            operator: BinaryOperator::Multiply,
                            right: Box::new(rhs),
                        },
                    )
                }
            }
        } else {
            (Ok(acc), pos)
        }
    } else {
        (Ok(acc), pos)
    }
}

/// A primary, with its postfixes.
#[verifier::rlimit(100)]
#[verifier::spinoff_prover]
pub(crate) fn parse_primary(toks: &Vec<Token>, pos: usize, stop: bool, post: bool) -> (r: Step)
    requires
        pos <= toks@.len(),
    ensures
        pos <= r.1 <= toks@.len(),
        r.0 is Ok ==> pos < r.1,
        models(r.0, r.1, spec_parse_primary(token_views(toks@), pos as int, stop, post)),
    decreases toks@.len() - pos, 8int,
{
    proof {
        reveal(spec_parse_primary);
    }
    proof {
        lemma_toks_len(toks);
    }
    if pos >= toks.len() {
        return (Err(ParseError::UnexpectedEndOfInput), pos);
    }
    proof {
        assert(token_views(toks@)[pos as int] == toks@[pos as int]@);
    }
    match &toks[pos] {
        Token::Number(s) => {
            if post {
                parse_primary_tail(toks, pos + 1, stop, MathExpr::Number(s.clone()))
            } else {
                (Ok(MathExpr::Number(s.clone())), pos + 1)
            }
        }
        Token::Identifier(name) => {
            if check(toks, pos + 1, TokenKind::LParen) {
                let (r0, q) = parse_call_args(toks, pos + 2, stop);
                match r0 {
                    Err(e) => (Err(e), q),
                    Ok(args) => {
                        proof {
                            assert(adv(pos + 2 as int, q as int) == q as int);
                        }
                        if post {
                            parse_primary_tail(
                                toks,
                                q,
                                stop,
                                MathExpr::FunctionCall { name: name.clone(), args },
                            )
                        } else {
                            (Ok(MathExpr::FunctionCall { name: name.clone(), args }), q)
                        }
                    }
                }
            } else if check(toks, pos + 1, TokenKind::Prime) {
                let mut nm = name.clone();
                crate::strutil::push_str(&mut nm, "'");
                if post {
                    parse_primary_tail(toks, pos + 2, stop, MathExpr::Variable(nm))
                } else {
                    (Ok(MathExpr::Variable(nm)), pos + 2)
                }
            } else {
                if post {
                    parse_primary_tail(toks, pos + 1, stop, MathExpr::Variable(name.clone()))
                } else {
                    (Ok(MathExpr::Variable(name.clone())), pos + 1)
                }
            }
        }
        Token::LParen => {
            let (r0, q) = parse_expression(toks, pos + 1, stop);
            match r0 {
                Err(e) => (Err(e), q),
                Ok(e) => {
                    proof {
                        assert(adv(pos + 1 as int, q as int) == q as int);
                    }
                    if check(toks, q, TokenKind::RParen) {
                        if post {
                            parse_primary_tail(
                                toks,
                                q + 1,
                                stop,
                                MathExpr::Parenthesized(Box::new(e)),
                            )
                        } else {
                            (Ok(MathExpr::Parenthesized(Box::new(e))), q + 1)
                        }
                    } else {
                        (Err(expect_failed(toks, q, TokenKind::RParen)), q)
                    }
                }
            }
        }
        Token::LBracket => {
            let (r0, q) = parse_expression(toks, pos + 1, stop);
            match r0 {
                Err(e) => (Err(e), q),
                Ok(e) => {
                    proof {
                        assert(adv(pos + 1 as int, q as int) == q as int);
                    }
                    if check(toks, q, TokenKind::RBracket) {
                        if post {
                            parse_primary_tail(
                                toks,
                                q + 1,
                                stop,
                                MathExpr::Parenthesized(Box::new(e)),
                            )
                        } else {
                            (Ok(MathExpr::Parenthesized(Box::new(e))), q + 1)
                        }
                    } else {
                        (Err(expect_failed(toks, q, TokenKind::RBracket)), q)
                    }
                }
            }
        }
        Token::Pipe => {
            if stop {
                (Err(ParseError::UnexpectedToken(Token::Pipe)), pos)
            } else {
                parse_absolute(toks, pos + 1)
            }
        }
        Token::Begin => parse_matrix(toks, pos + 1),
        Token::Backslash => {
            let (r0, q) = parse_command(toks, pos + 1, stop, post);
            match r0 {
                Err(e) => (Err(e), q),
                Ok(e) => {
                    proof {
                        assert(adv(pos + 1 as int, q as int) == q as int);
                    }
                    if post {
                        parse_primary_tail(toks, q, stop, e)
                    } else {
                        (Ok(e), q)
                    }
                }
            }
        }
        _ => (Err(ParseError::UnexpectedToken(toks[pos].duplicate())), pos),
    }
}

/// The postfixes of a primary, then an optional derivative prime.
#[verifier::rlimit(100)]
#[verifier::spinoff_prover]
pub(crate) fn parse_primary_tail(toks: &Vec<Token>, pos: usize, stop: bool, acc: MathExpr) -> (r: Step)
    requires
        pos <= toks@.len(),
    ensures
        pos <= r.1 <= toks@.len(),
        models(r.0, r.1, spec_parse_primary_tail(token_views(toks@), pos as int, stop, acc@)),
    decreases toks@.len() - pos, 7int,
{
    proof {
        reveal(spec_parse_primary_tail);
    }
    proof {
        lemma_toks_len(toks);
    }
    let (r0, q) = parse_postfix(toks, pos, stop, acc);
    match r0 {
        Err(e) => (Err(e), q),
        Ok(e1) => {
            if check(toks, q, TokenKind::Prime) {
                let mut s = e1.to_string();
                crate::strutil::push_str(&mut s, "'");
                (Ok(MathExpr::Variable(s)), q + 1)
            } else {
                (Ok(e1), q)
            }
        }
    }
}

/// The subscript and superscript postfix chain.
#[verifier::rlimit(100)]
#[verifier::spinoff_prover]
pub(crate) fn parse_postfix(toks: &Vec<Token>, pos: usize, stop: bool, acc: MathExpr) -> (r: Step)
    requires
        pos <= toks@.len(),
    ensures
        pos <= r.1 <= toks@.len(),
        models(r.0, r.1, spec_parse_postfix(token_views(toks@), pos as int, stop, acc@)),
    decreases toks@.len() - pos, 6int,
{
    proof {
        reveal(spec_parse_postfix);
    }
    proof {
        lemma_toks_len(toks);
    }
    if stop && check(toks, pos, TokenKind::Pipe) {
        (Ok(acc), pos)
    } else if check(toks, pos, TokenKind::Underscore) {
        let (r0, q) = parse_sub_or_sup(toks, pos + 1, stop);
        match r0 {
            Err(e) => (Err(e), q),
            Ok(se) => {
                proof {
                    assert(adv(pos + 1 as int, q as int) == q as int);
                }
                parse_postfix(
                    toks,
                    q,
                    stop,
                    MathExpr::Subscript { base: Box::new(acc), subscript: Box::new(se) },
                )
            }
        }
    } else if check(toks, pos, TokenKind::Caret) {
        let (r0, q) = parse_sub_or_sup(toks, pos + 1, stop);
        match r0 {
            Err(e) => (Err(e), q),
            Ok(se) => {
                proof {
                    assert(adv(pos + 1 as int, q as int) == q as int);
                }
                parse_postfix(
                    toks,
                    q,
                    stop,
                    MathExpr::Superscript { base: Box::new(acc), superscript: Box::new(se) },
                )
            }
        }
    } else {
        (Ok(acc), pos)
    }
}

/// A subscript or superscript operand.
#[verifier::rlimit(100)]
#[verifier::spinoff_prover]
pub(crate) fn parse_sub_or_sup(toks: &Vec<Token>, pos: usize, stop: bool) -> (r: Step)
    requires
        pos <= toks@.len(),
    ensures
        pos <= r.1 <= toks@.len(),
        r.0 is Ok ==> pos < r.1,
        models(r.0, r.1, spec_parse_sub_or_sup(token_views(toks@), pos as int, stop)),
    decreases toks@.len() - pos, 23int,
{
    proof {
        reveal(spec_parse_sub_or_sup);
    }
    proof {
        lemma_toks_len(toks);
    }
    if check(toks, pos, TokenKind::LCurly) {
        let (r0, q) = parse_expression(toks, pos + 1, stop);
        match r0 {
            Err(e) => (Err(e), q),
            Ok(e) => {
                proof {
                    assert(adv(pos + 1 as int, q as int) == q as int);
                }
                if check(toks, q, TokenKind::RCurly) {
                    (Ok(e), q + 1)
                } else {
                    (Err(expect_failed(toks, q, TokenKind::RCurly)), q)
                }
            }
        }
    } else {
        parse_unary(toks, pos, stop, false)
    }
}

/// The arguments of a function call, after its opening parenthesis.
#[verifier::rlimit(100)]
#[verifier::spinoff_prover]
pub(crate) fn parse_call_args(toks: &Vec<Token>, pos: usize, stop: bool) -> (r: (
    Result<Vec<MathExpr>, ParseError>,
    usize,
))
    requires
        pos <= toks@.len(),
    ensures
        pos <= r.1 <= toks@.len(),
        r.0 is Ok ==> pos < r.1,
        models_args(r.0, r.1, spec_parse_call_args(token_views(toks@), pos as int, stop)),
    decreases toks@.len() - pos, 26int,
{
    proof {
        reveal(spec_parse_call_args);
    }
    proof {
        lemma_toks_len(toks);
    }
    if check(toks, pos, TokenKind::RParen) {
        let v: Vec<MathExpr> = Vec::new();
        proof {
            assert(view_exprs(v@) =~= Seq::<ExprV>::empty());
        }
        (Ok(v), pos + 1)
    } else {
        let v: Vec<MathExpr> = Vec::new();
        proof {
            assert(view_exprs(v@) =~= Seq::<ExprV>::empty());
        }
        parse_call_args_rest(toks, pos, stop, v)
    }
}

/// The remaining arguments of a function call.
#[verifier::rlimit(100)]
#[verifier::spinoff_prover]
pub(crate) fn parse_call_args_rest(toks: &Vec<Token>, pos: usize, stop: bool, acc: Vec<MathExpr>) -> (r: (
    Result<Vec<MathExpr>, ParseError>,
    usize,
))
    requires
        pos <= toks@.len(),
    ensures
        pos <= r.1 <= toks@.len(),
        r.0 is Ok ==> pos < r.1,
        models_args(
            r.0,
            r.1,
            spec_parse_call_args_rest(token_views(toks@), pos as int, stop, view_exprs(acc@)),
        ),
    decreases toks@.len() - pos, 25int,
{
    proof {
        reveal(spec_parse_call_args_rest);
    }
    proof {
        lemma_toks_len(toks);
    }
    let (r0, q) = parse_expression(toks, pos, stop);
    match r0 {
        Err(e) => (Err(e), q),
        Ok(a) => {
            proof {
                assert(adv(pos as int, q as int) == q as int);
            }
            let ghost oldaccv = view_exprs(acc@);
            let ghost oldacc = acc@;
            let ghost av = a@;
            let mut acc2 = acc;
            acc2.push(a);
            proof {
                lemma_view_exprs(acc2@);
                lemma_view_exprs(oldacc);
                assert(view_exprs(acc2@) =~= oldaccv.push(av));
            }
            if check(toks, q, TokenKind::Comma) && !(stop && check(toks, q + 1, TokenKind::Pipe)) {
                parse_call_args_rest(toks, q + 1, stop, acc2)
            } else {
                let q3 = if check(toks, q, TokenKind::Comma) {
                    q + 1
                } else {
                    q
                };
                if check(toks, q3, TokenKind::RParen) {
                    (Ok(acc2), q3 + 1)
                } else {
                    (Err(expect_failed(toks, q3, TokenKind::RParen)), q3)
                }
            }
        }
    }
}

/// An absolute value or norm, after its opening pipe.
#[verifier::rlimit(100)]
#[verifier::spinoff_prover]
pub(crate) fn parse_absolute(toks: &Vec<Token>, pos: usize) -> (r: Step)
    requires
        pos <= toks@.len(),
    ensures
        pos <= r.1 <= toks@.len(),
        r.0 is Ok ==> pos < r.1,
        models(r.0, r.1, spec_parse_absolute(token_views(toks@), pos as int)),
    decreases toks@.len() - pos, 27int,
{
    proof {
        reveal(spec_parse_absolute);
    }
    proof {
        lemma_toks_len(toks);
    }
    if check(toks, pos, TokenKind::Pipe) {
        let (r0, q) = parse_expression(toks, pos + 1, true);
        match r0 {
            Err(e) => {
                let e2 = close_delimiter(e);
                (Err(e2), q)
            }
            Ok(e) => {
                proof {
                    assert(adv(pos + 1 as int, q as int) == q as int);
                }
                match expect_pipe_exec(toks, q) {
                    Err(e2) => (Err(e2), q),
                    Ok(()) => match expect_pipe_exec(toks, q + 1) {
                        Err(e2) => (Err(e2), q + 1),
                        Ok(()) => {
                            let mut args: Vec<MathExpr> = Vec::new();
                            args.push(e);
                            proof {
                                lemma_view_exprs(args@);
                                assert(view_exprs(args@) =~= seq![args@[0int]@]);
                            }
                            (
                                Ok(
                                    MathExpr::FunctionCall {
                                        name: "norm".to_owned(),
                                        args,
                                    },
                                ),
                                q + 2,
                            )
                        }
                    },
                }
            }
        }
    } else {
        let (r0, q) = parse_expression(toks, pos, true);
        match r0 {
            Err(e) => {
                let e2 = close_delimiter(e);
                (Err(e2), q)
            }
            Ok(e) => {
                proof {
                    assert(adv(pos as int, q as int) == q as int);
                }
                match expect_pipe_exec(toks, q) {
                    Err(e2) => (Err(e2), q),
                    Ok(()) => {
                        let mut args: Vec<MathExpr> = Vec::new();
                        args.push(e);
                        proof {
                            lemma_view_exprs(args@);
                            assert(view_exprs(args@) =~= seq![args@[0int]@]);
                        }
                        (
                            Ok(MathExpr::FunctionCall { name: "abs".to_owned(), args }),
                            q + 1,
                        )
                    }
                }
            }
        }
    }
}

/// Rewrites an end-of-input failure inside an open delimiter into an
/// unclosed-absolute-value error.
fn close_delimiter(e: ParseError) -> (r: ParseError)
    ensures
        r@ == close_delimiter_error(e@),
{
    match e {
        ParseError::UnexpectedEndOfInput => ParseError::UnclosedAbsoluteValue,
        other => other,
    }
}

/// Requires a closing pipe at `pos`.
fn expect_pipe_exec(toks: &Vec<Token>, pos: usize) -> (r: Result<(), ParseError>)
    ensures
        match r {
            Ok(()) => expect_pipe(token_views(toks@), pos as int) == Ok::<int, ErrV>(
                pos + 1 as int,
            ) && pos < toks@.len(),
            Err(e) => expect_pipe(token_views(toks@), pos as int) == Err::<int, ErrV>(e@),
        },
{
    if pos >= toks.len() {
        Err(ParseError::UnclosedAbsoluteValue)
    } else {
        proof {
            assert(token_views(toks@)[pos as int] == toks@[pos as int]@);
        }
        let k = toks[pos].kind();
        if k == TokenKind::Pipe {
            Ok(())
        } else {
            Err(ParseError::ExpectedToken {
                expected: TokenKind::Pipe,
                found: Some(toks[pos].duplicate()),
            })
        }
    }
}

/// A command's trailing subscripts and superscripts, taken only where the
/// enclosing context takes postfixes at all.
#[verifier::rlimit(100)]
#[verifier::spinoff_prover]
fn command_postfix(toks: &Vec<Token>, pos: usize, stop: bool, post: bool, acc: MathExpr) -> (r:
    Step)
    requires
        pos <= toks@.len(),
    ensures
        pos <= r.1 <= toks@.len(),
        models(
            r.0,
            r.1,
            spec_command_postfix(token_views(toks@), pos as int, stop, post, acc@),
        ),
    decreases toks@.len() - pos, 7int,
{
    if post {
        parse_postfix(toks, pos, stop, acc)
    } else {
        (Ok(acc), pos)
    }
}

/// An escaped command, after its backslash.
#[verifier::rlimit(100)]
#[verifier::spinoff_prover]
pub(crate) fn parse_command(toks: &Vec<Token>, pos: usize, stop: bool, post: bool) -> (r: Step)
    requires
        pos <= toks@.len(),
    ensures
        pos <= r.1 <= toks@.len(),
        r.0 is Ok ==> pos < r.1,
        models(r.0, r.1, spec_parse_command(token_views(toks@), pos as int, stop, post)),
    decreases toks@.len() - pos, 24int,
{
    proof {
        reveal(spec_parse_command);
    }
    proof {
        lemma_toks_len(toks);
    }
    if pos >= toks.len() {
        return (Err(ParseError::ExpectedCommandName), pos);
    }
    proof {
        assert(token_views(toks@)[pos as int] == toks@[pos as int]@);
    }
    match &toks[pos] {
        Token::Begin => parse_matrix(toks, pos + 1),
        Token::Identifier(cmd) => {
            if crate::strutil::str_lit_eq(cmd, "frac") {
                parse_frac(toks, pos + 1, stop)
            } else if crate::strutil::str_lit_eq(cmd, "sqrt") {
                let (r0, q) = parse_sqrt(toks, pos + 1, stop);
                match r0 {
                    Err(e) => (Err(e), q),
                    Ok(e) => {
                        proof {
                            assert(adv(pos + 1 as int, q as int) == q as int);
                        }
                        command_postfix(toks, q, stop, post, e)
                    }
                }
            } else if crate::strutil::str_lit_eq(cmd, "vec") {
                let (r0, q) = parse_braced(toks, pos + 1, stop);
                match r0 {
                    Err(e) => (Err(e), q),
                    Ok(e) => {
                        proof {
                            assert(adv(pos + 1 as int, q as int) == q as int);
                        }
                        let mut s = "\\vec{".to_owned();
                        let es = e.to_string();
                        crate::strutil::push_str(&mut s, es.as_str());
                        crate::strutil::push_str(&mut s, "}");
                        command_postfix(toks, q, stop, post, MathExpr::Variable(s))
                    }
                }
            } else if crate::strutil::str_lit_eq(cmd, "int") {
                command_postfix(toks, pos + 1, stop, post, MathExpr::Variable("\\int".to_owned()))
            } else if crate::strutil::str_lit_eq(cmd, "left") {
                if pos + 1 >= toks.len() {
                    command_postfix(toks, pos + 1, stop, post, MathExpr::Variable("\\left".to_owned()))
                } else {
                    proof {
                        assert(token_views(toks@)[pos + 1 as int] == toks@[pos + 1 as int]@);
                    }
                    let folded = match &toks[pos + 1] {
                        Token::LBracket => "[".to_owned(),
                        Token::LParen => "(".to_owned(),
                        other => {
                            let mut s = "\\left".to_owned();
                            let ts = other.text();
                            crate::strutil::push_str(&mut s, ts.as_str());
                            s
                        }
                    };
                    command_postfix(toks, pos + 2, stop, post, MathExpr::Variable(folded))
                }
            } else if crate::strutil::str_lit_eq(cmd, "right") {
                if pos + 1 >= toks.len() {
                    command_postfix(toks, pos + 1, stop, post, MathExpr::Variable("\\right".to_owned()))
                } else {
                    proof {
                        assert(token_views(toks@)[pos + 1 as int] == toks@[pos + 1 as int]@);
                    }
                    let folded = match &toks[pos + 1] {
                        Token::RBracket => "]".to_owned(),
                        Token::RParen => ")".to_owned(),
                        other => {
                            let mut s = "\\right".to_owned();
                            let ts = other.text();
                            crate::strutil::push_str(&mut s, ts.as_str());
                            s
                        }
                    };
                    command_postfix(toks, pos + 2, stop, post, MathExpr::Variable(folded))
                }
            } else if check(toks, pos + 1, TokenKind::LParen) {
                let (r0, q) = parse_call_args(toks, pos + 2, stop);
                match r0 {
                    Err(e) => (Err(e), q),
                    Ok(args) => {
                        proof {
                            assert(adv(pos + 2 as int, q as int) == q as int);
                        }
                        let mut nm = "\\".to_owned();
                        crate::strutil::push_str(&mut nm, cmd.as_str());
                        (Ok(MathExpr::FunctionCall { name: nm, args }), q)
                    }
                }
            } else {
                let mut nm = "\\".to_owned();
                crate::strutil::push_str(&mut nm, cmd.as_str());
                command_postfix(toks, pos + 1, stop, post, MathExpr::Variable(nm))
            }
        }
        _ => (Err(ParseError::ExpectedCommandName), pos),
    }
}

/// A `\frac` command's two brace-delimited arguments, with the
/// derivative-operator rewrite.
#[verifier::rlimit(100)]
#[verifier::spinoff_prover]
pub(crate) fn parse_frac(toks: &Vec<Token>, pos: usize, stop: bool) -> (r: Step)
    requires
        pos <= toks@.len(),
    ensures
        pos <= r.1 <= toks@.len(),
        r.0 is Ok ==> pos < r.1,
        models(r.0, r.1, spec_parse_frac(token_views(toks@), pos as int, stop)),
    decreases toks@.len() - pos, 22int,
{
    proof {
        reveal(spec_parse_frac);
    }
    proof {
        lemma_toks_len(toks);
    }
    let (r0, q1) = parse_braced(toks, pos, stop);
    match r0 {
        Err(e) => (Err(e), q1),
        Ok(num) => {
            proof {
                assert(adv(pos as int, q1 as int) == q1 as int);
            }
            let (r1, q2) = parse_braced(toks, q1, stop);
            match r1 {
                Err(e) => (Err(e), q2),
                Ok(den) => {
                    proof {
                        assert(adv(q1 as int, q2 as int) == q2 as int);
                    }
                    match deriv_split_exec(&num, &den) {
                        None => (
                            Ok(
                                MathExpr::Fraction {
                                    numerator: Box::new(num),
                                    denominator: Box::new(den),
                                },
                            ),
                            q2,
                        ),
                        Some(v) => {
                            if check(toks, q2, TokenKind::LBracket) {
                                let (r2, q3) = parse_expression(toks, q2 + 1, stop);
                                match r2 {
                                    Err(e) => (Err(e), q3),
                                    Ok(inner) => {
                                        proof {
                                            assert(adv(q2 + 1 as int, q3 as int) == q3 as int);
                                        }
                                        if check(toks, q3, TokenKind::RBracket) {
                                            (
                                                Ok(
                                                    MathExpr::Derivative {
                                                        variable: v,
                                                        expression: Box::new(inner),
                                                    },
                                                ),
                                                q3 + 1,
                                            )
                                        } else {
                                            (
                                                Err(expect_failed(toks, q3, TokenKind::RBracket)),
                                                q3,
                                            )
                                        }
                                    }
                                }
                            } else {
                                (Ok(deriv_variable(&v)), q2)
                            }
                        }
                    }
                }
            }
        }
    }
}

/// A brace-delimited expression: `{ expression }`.
#[verifier::rlimit(100)]
#[verifier::spinoff_prover]
pub(crate) fn parse_braced(toks: &Vec<Token>, pos: usize, stop: bool) -> (r: Step)
    requires
        pos <= toks@.len(),
    ensures
        pos <= r.1 <= toks@.len(),
        r.0 is Ok ==> pos < r.1,
        models(r.0, r.1, spec_parse_braced(token_views(toks@), pos as int, stop)),
    decreases toks@.len() - pos, 21int,
{
    proof {
        reveal(spec_parse_braced);
    }
    proof {
        lemma_toks_len(toks);
    }
    if !check(toks, pos, TokenKind::LCurly) {
        return (Err(expect_failed(toks, pos, TokenKind::LCurly)), pos);
    }
    let (r0, q) = parse_expression(toks, pos + 1, stop);
    match r0 {
        Err(e) => (Err(e), q),
        Ok(e) => {
            proof {
                assert(adv(pos + 1 as int, q as int) == q as int);
            }
            if check(toks, q, TokenKind::RCurly) {
                (Ok(e), q + 1)
            } else {
                (Err(expect_failed(toks, q, TokenKind::RCurly)), q)
            }
        }
    }
}

/// A `\sqrt` command's arguments: an optional bracket-delimited index,
/// then a brace-delimited radicand.
#[verifier::rlimit(100)]
#[verifier::spinoff_prover]
pub(crate) fn parse_sqrt(toks: &Vec<Token>, pos: usize, stop: bool) -> (r: Step)
    requires
        pos <= toks@.len(),
    ensures
        pos <= r.1 <= toks@.len(),
        r.0 is Ok ==> pos < r.1,
        models(r.0, r.1, spec_parse_sqrt(token_views(toks@), pos as int, stop)),
    decreases toks@.len() - pos, 22int,
{
    proof {
        reveal(spec_parse_sqrt);
    }
    proof {
        lemma_toks_len(toks);
    }
    if check(toks, pos, TokenKind::LBracket) {
        let (r0, q) = parse_expression(toks, pos + 1, stop);
        match r0 {
            Err(e) => (Err(e), q),
            Ok(idx) => {
                proof {
                    assert(adv(pos + 1 as int, q as int) == q as int);
                }
                if check(toks, q, TokenKind::RBracket) {
                    let (r1, q2) = parse_braced(toks, q + 1, stop);
                    match r1 {
                        Err(e) => (Err(e), q2),
                        Ok(rad) => (
                            Ok(
                                MathExpr::Root {
                                    radicand: Box::new(rad),
                                    index: Some(Box::new(idx)),
                                },
                            ),
                            q2,
                        ),
                    }
                } else {
                    (Err(expect_failed(toks, q, TokenKind::RBracket)), q)
                }
            }
        }
    } else {
        let (r0, q) = parse_braced(toks, pos, stop);
        match r0 {
            Err(e) => (Err(e), q),
            Ok(rad) => (Ok(MathExpr::Root { radicand: Box::new(rad), index: None }), q),
        }
    }
}

/// The matrix environment named by the token at `pos`, if any.
fn matrix_type_at(toks: &Vec<Token>, pos: usize) -> (r: Option<MatrixType>)
    requires
        pos < toks@.len(),
    ensures
        matrix_type_of(token_views(toks@)[pos as int]) == r,
{
    proof {
        assert(token_views(toks@)[pos as int] == toks@[pos as int]@);
    }
    match &toks[pos] {
        Token::Matrix => Some(MatrixType::Matrix),
        Token::PMatrix => Some(MatrixType::PMatrix),
        Token::BMatrix => Some(MatrixType::BMatrix),
        Token::VMatrix => Some(MatrixType::VMatrix),
        Token::VMatrixDouble => Some(MatrixType::VMatrixDouble),
        _ => None,
    }
}

/// A matrix environment, after `\begin`.
#[verifier::rlimit(100)]
#[verifier::spinoff_prover]
pub(crate) fn parse_matrix(toks: &Vec<Token>, pos: usize) -> (r: Step)
    requires
        pos <= toks@.len(),
    ensures
        pos <= r.1 <= toks@.len(),
        r.0 is Ok ==> pos < r.1,
        models(r.0, r.1, spec_parse_matrix(token_views(toks@), pos as int)),
    decreases toks@.len() - pos, 28int,
{
    proof {
        reveal(spec_parse_matrix);
    }
    proof {
        lemma_toks_len(toks);
    }
    if !check(toks, pos, TokenKind::LCurly) {
        return (Err(expect_failed(toks, pos, TokenKind::LCurly)), pos);
    }
    if pos + 1 >= toks.len() {
        return (Err(ParseError::ExpectedMatrixType { found: None }), pos + 1);
    }
    match matrix_type_at(toks, pos + 1) {
        None => (
            Err(
                ParseError::ExpectedMatrixType { found: Some(toks[pos + 1].duplicate()) },
            ),
            pos + 1,
        ),
        Some(mt) => {
            if !check(toks, pos + 2, TokenKind::RCurly) {
                return (Err(expect_failed(toks, pos + 2, TokenKind::RCurly)), pos + 2);
            }
            let rows: Vec<Vec<MathExpr>> = Vec::new();
            let cur: Vec<MathExpr> = Vec::new();
            proof {
                assert(view_rows(rows@) =~= Seq::<Seq<ExprV>>::empty());
                assert(view_exprs(cur@) =~= Seq::<ExprV>::empty());
            }
            parse_matrix_rows(toks, pos + 3, mt, rows, cur)
        }
    }
}

/// The rows of a matrix environment.
#[verifier::rlimit(100)]
#[verifier::spinoff_prover]
pub(crate) fn parse_matrix_rows(
    toks: &Vec<Token>,
    pos: usize,
    mt: MatrixType,
    rows: Vec<Vec<MathExpr>>,
    cur: Vec<MathExpr>,
) -> (r: Step)
    requires
        pos <= toks@.len(),
    ensures
        pos <= r.1 <= toks@.len(),
        r.0 is Ok ==> pos < r.1,
        models(
            r.0,
            r.1,
            spec_parse_matrix_rows(
                token_views(toks@),
                pos as int,
                mt,
                view_rows(rows@),
                view_exprs(cur@),
            ),
        ),
    decreases toks@.len() - pos, 30int,
{
    proof {
        reveal(spec_parse_matrix_rows);
        lemma_toks_len(toks);
    }
    if pos >= toks.len() {
        return (Err(ParseError::UnexpectedEndOfInput), pos);
    }
    if check(toks, pos, TokenKind::End) {
        if !check(toks, pos + 1, TokenKind::LCurly) {
            return (Err(expect_failed(toks, pos + 1, TokenKind::LCurly)), pos + 1);
        }
        if pos + 2 >= toks.len() {
            return (Err(ParseError::ExpectedMatrixType { found: None }), pos + 2);
        }
        match matrix_type_at(toks, pos + 2) {
            None => (
                Err(
                    ParseError::ExpectedMatrixType { found: Some(toks[pos + 2].duplicate()) },
                ),
                pos + 2,
            ),
            Some(endmt) => {
                if endmt != mt {
                    return (
                        Err(ParseError::MismatchedMatrixType { expected: mt, found: endmt }),
                        pos + 2,
                    );
                }
                if !check(toks, pos + 3, TokenKind::RCurly) {
                    return (Err(expect_failed(toks, pos + 3, TokenKind::RCurly)), pos + 3);
                }
                let ghost oldrowsv = view_rows(rows@);
                let ghost oldrows = rows@;
                let ghost curv = view_exprs(cur@);
                let mut allrows = rows;
                if cur.len() > 0 {
                    proof {
                        lemma_view_exprs(cur@);
                    }
                    let ghost curq = cur@;
                    allrows.push(cur);
                    proof {
                        lemma_view_rows(allrows@);
                        lemma_view_rows(oldrows);
                        assert(view_rows(allrows@) =~= oldrowsv.push(curv));
                    }
                } else {
                    proof {
                        lemma_view_exprs(cur@);
                        assert(view_exprs(cur@).len() == 0);
                    }
                }
                (
                    Ok(MathExpr::Matrix { rows: allrows, matrix_type: mt }),
                    pos + 4,
                )
            }
        }
    } else {
        let (r0, q) = parse_expression(toks, pos, false);
        match r0 {
            Err(e) => (Err(e), q),
            Ok(e) => {
                proof {
                    assert(adv(pos as int, q as int) == q as int);
                }
                let ghost curv = view_exprs(cur@);
                let ghost oldcur = cur@;
                let ghost ev = e@;
                let mut cur2 = cur;
                cur2.push(e);
                proof {
                    lemma_view_exprs(cur2@);
                    lemma_view_exprs(oldcur);
                    assert(view_exprs(cur2@) =~= curv.push(ev));
                }
                if check(toks, q, TokenKind::Ampersand) {
                    parse_matrix_rows(toks, q + 1, mt, rows, cur2)
                } else if check(toks, q, TokenKind::DoubleBackslash) {
                    let ghost oldrowsv = view_rows(rows@);
                    let ghost oldrows = rows@;
                    let ghost cur2v = view_exprs(cur2@);
                    let mut rows2 = rows;
                    rows2.push(cur2);
                    proof {
                        lemma_view_rows(rows2@);
                        lemma_view_rows(oldrows);
                        assert(view_rows(rows2@) =~= oldrowsv.push(cur2v));
                    }
                    let newcur: Vec<MathExpr> = Vec::new();
                    proof {
                        assert(view_exprs(newcur@) =~= Seq::<ExprV>::empty());
                    }
                    parse_matrix_rows(toks, q + 1, mt, rows2, newcur)
                } else {
                    parse_matrix_rows(toks, q, mt, rows, cur2)
                }
            }
        }
    }
}

/// The parser state: the token sequence of one input and the current
/// position.  Each parse constructs its own parser, so concurrent callers
/// parsing different inputs share nothing.
pub struct Parser {
    tokens: Vec<Token>,
    pos: usize,
}

impl View for Parser {
    type V = (Seq<TokenV>, int);

    closed spec fn view(&self) -> (Seq<TokenV>, int) {
        (token_views(self.tokens@), self.pos as int)
    }
}

impl Parser {
    /// The position lies within the token sequence.
    pub open spec fn wf(&self) -> bool {
        0 <= self@.1 <= self@.0.len()
    }

    /// A parser over the tokens of `input`, positioned at their start.
    pub fn new(input: &str) -> (p: Parser)
        ensures
            p@.0 == crate::lexer::spec_tokens(input@, 0),
            p@.1 == 0,
            p.wf(),
    {
        let mut lx = Lexer::new(input);
        let tokens = lx.tokenize();
        proof {
            assert(token_views(tokens@) =~= tokens.deep_view());
        }
        Parser { tokens, pos: 0 }
    }

    /// Parses one expression from the current position, which moves past
    /// what was consumed.  Trailing tokens are not rejected.
    pub fn parse_expression(&mut self) -> (r: Result<MathExpr, ParseError>)
        requires
            old(self).wf(),
        ensures
            final(self).wf(),
            final(self)@.0 == old(self)@.0,
            old(self)@.1 <= final(self)@.1,
            match r {
                Ok(e) => spec_parse_expression(old(self)@.0, old(self)@.1, false) == Ok::<
                    (ExprV, int),
                    crate::error::ErrV,
                >((e@, final(self)@.1)),
                Err(er) => spec_parse_expression(old(self)@.0, old(self)@.1, false) == Err::<
                    (ExprV, int),
                    crate::error::ErrV,
                >(er@),
            },
    {
        let (r, q) = parse_expression(&self.tokens, self.pos, false);
        self.pos = q;
        r
    }
}

} // verus!
