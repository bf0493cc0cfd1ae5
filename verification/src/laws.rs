//! Structural stability of rendering and re-parsing.
//!
//! Rendering is not a faithful LaTeX round trip: re-parsing a rendered
//! tree wraps each rendered binary operation in one explicit group.  What
//! does hold, and is proved here, is structural stability: for a tree
//! built only of plain numbers, plain variable names, the binary
//! operations whose notation re-parses to the same node, and explicit
//! groups, parsing the rendered text yields exactly the original tree
//! with those group nodes added — the same tree shape up to grouping.

use vstd::prelude::*;

use crate::ast::{BinaryOperator, ExprV};
use crate::ast::{spec_render, spec_binop_text};
use crate::error::ErrV;
use crate::lexer::{
    spec_is_digit, spec_is_letter, spec_is_simple, spec_next_token, spec_scan_digits,
    spec_scan_word, spec_simple_token, spec_tokens, spec_word_at, spec_word_token,
    lemma_next_token_bounds,
};
use crate::token::{TokenV, TokenKind, kind_of};
use crate::grammar::{
    adv, binop, deriv_split, expect_kind, is_kind, spec_parse_additive, spec_parse_additive_rest,
    spec_parse_equality, spec_parse_equality_rest, spec_parse_expression, spec_parse_factor,
    spec_parse_factor_rest, spec_parse_multiplicative, spec_parse_multiplicative_rest,
    spec_parse_postfix, spec_parse_power, spec_parse_power_rest, spec_parse_primary,
    spec_parse_primary_tail, spec_parse_unary,
};

verus! {

/// Number text that the tokenizer reads back as one number token: a
/// nonempty run of digits.
pub open spec fn plain_number_text(s: Seq<char>) -> bool {
    &&& s.len() >= 1
    &&& forall|k: int| 0 <= k < s.len() ==> spec_is_digit(#[trigger] s[k])
}

/// Variable text that the tokenizer reads back as one identifier token:
/// letters and digits, starting with a letter, and not a matrix keyword.
pub open spec fn plain_variable_text(s: Seq<char>) -> bool {
    &&& s.len() >= 1
    &&& spec_is_letter(s[0])
    &&& forall|k: int|
        0 <= k < s.len() ==> spec_is_letter(#[trigger] s[k]) || spec_is_digit(s[k])
    &&& s != "matrix"@
    &&& s != "pmatrix"@
    &&& s != "bmatrix"@
    &&& s != "vmatrix"@
    &&& s != "Vmatrix"@
}

/// Whether a binary operator's notation re-parses to the same node: `/`
/// re-parses to a fraction and `^` to a superscript, so they are out.
pub open spec fn stable_operator(op: BinaryOperator) -> bool {
    op == BinaryOperator::Add || op == BinaryOperator::Subtract || op == BinaryOperator::Multiply
        || op == BinaryOperator::DotProduct || op == BinaryOperator::Equals
}

/// The trees the stability law speaks of: plain numbers and variables,
/// stable binary operations, and explicit groups.
pub open spec fn core_tree(e: ExprV) -> bool
    decreases e,
{
    match e {
        ExprV::Number(s) => plain_number_text(s),
        ExprV::Variable(s) => plain_variable_text(s),
        ExprV::BinaryOp { left, operator, right } => stable_operator(operator) && core_tree(*left)
            && core_tree(*right),
        ExprV::Parenthesized(inner) => core_tree(*inner),
        _ => false,
    }
}

/// The tree that re-parsing a rendered core tree yields: the original
/// with one explicit group around each binary operation, since a binary
/// operation renders inside parentheses.
pub open spec fn regrouped(e: ExprV) -> ExprV
    decreases e,
{
    match e {
        ExprV::BinaryOp { left, operator, right } => ExprV::Parenthesized(
            Box::new(
                ExprV::BinaryOp {
                    left: Box::new(regrouped(*left)),
                    operator,
                    right: Box::new(regrouped(*right)),
                },
            ),
        ),
        ExprV::Parenthesized(inner) => ExprV::Parenthesized(Box::new(regrouped(*inner))),
        _ => e,
    }
}

/// The shape of a tree with its explicit group nodes dropped.
pub open spec fn ungrouped(e: ExprV) -> ExprV
    decreases e,
{
    match e {
        ExprV::BinaryOp { left, operator, right } => ExprV::BinaryOp {
            left: Box::new(ungrouped(*left)),
            operator,
            right: Box::new(ungrouped(*right)),
        },
        ExprV::Parenthesized(inner) => ungrouped(*inner),
        _ => e,
    }
}

/// Regrouping only adds group nodes: dropped again, the shape is the
/// original's.
pub proof fn lemma_ungrouped_regrouped(e: ExprV)
    ensures
        ungrouped(regrouped(e)) == ungrouped(e),
    decreases e,
{
    reveal_with_fuel(ungrouped, 3);
    match e {
        ExprV::BinaryOp { left, operator, right } => {
            lemma_ungrouped_regrouped(*left);
            lemma_ungrouped_regrouped(*right);
        },
        ExprV::Parenthesized(inner) => {
            lemma_ungrouped_regrouped(*inner);
        },
        _ => {},
    }
}

/// The token of a stable binary operator.
pub open spec fn op_token(op: BinaryOperator) -> TokenV {
    match op {
        BinaryOperator::Add => TokenV::Plus,
        BinaryOperator::Subtract => TokenV::Minus,
        BinaryOperator::Multiply => TokenV::Asterisk,
        BinaryOperator::DotProduct => TokenV::CDot,
        BinaryOperator::Equals => TokenV::Equals,
        _ => TokenV::Plus,
    }
}

/// The tokens of a rendered core tree.
pub open spec fn tree_tokens(e: ExprV) -> Seq<TokenV>
    decreases e,
{
    match e {
        ExprV::Number(s) => seq![TokenV::Number(s)],
        ExprV::Variable(s) => seq![TokenV::Identifier(s)],
        ExprV::BinaryOp { left, operator, right } => seq![TokenV::LParen].add(
            tree_tokens(*left),
        ).push(op_token(operator)).add(tree_tokens(*right)).push(TokenV::RParen),
        ExprV::Parenthesized(inner) => seq![TokenV::LParen].add(tree_tokens(*inner)).push(
            TokenV::RParen,
        ),
        _ => Seq::empty(),
    }
}

/// Whether the character at `j` (if any) ends the token before it: the
/// characters that can follow a rendered subtree.
pub open spec fn safe_boundary(s: Seq<char>, j: int) -> bool {
    j == s.len() || s[j] == ' ' || s[j] == ')'
}

/// A whitespace character adds no token.
pub proof fn lemma_tokens_skip(s: Seq<char>, i: int)
    requires
        0 <= i < s.len(),
        !spec_is_letter(s[i]),
        !spec_is_digit(s[i]),
        s[i] != '\\',
        !spec_is_simple(s[i]),
    ensures
        spec_tokens(s, i) == spec_tokens(s, i + 1),
{
    assert(spec_next_token(s, i) == spec_next_token(s, i + 1));
    lemma_next_token_bounds(s, i + 1);
    match spec_next_token(s, i + 1) {
        (None, _) => {
            assert(spec_tokens(s, i) =~= Seq::<TokenV>::empty());
            assert(spec_tokens(s, i + 1) =~= Seq::<TokenV>::empty());
        },
        (Some(tok), q) => {
            assert(i + 1 < q);
            assert(spec_tokens(s, i) == seq![tok].add(spec_tokens(s, q)));
            if i + 1 < s.len() {
                assert(spec_tokens(s, i + 1) == seq![tok].add(spec_tokens(s, q)));
            } else {
                assert(false);
            }
        },
    }
}

/// A single-character token stands alone.
pub proof fn lemma_tokens_simple(s: Seq<char>, i: int)
    requires
        0 <= i < s.len(),
        spec_is_simple(s[i]),
        !spec_is_letter(s[i]),
        !spec_is_digit(s[i]),
        s[i] != '\\',
    ensures
        spec_tokens(s, i) == seq![spec_simple_token(s[i])].add(spec_tokens(s, i + 1)),
{
    assert(spec_next_token(s, i) == (Some(spec_simple_token(s[i])), i + 1));
}

/// A maximal digit run ends at the first non-digit.
pub proof fn lemma_scan_digits_run(s: Seq<char>, i: int, j: int)
    requires
        0 <= i <= j <= s.len(),
        forall|k: int| i <= k < j ==> spec_is_digit(#[trigger] s[k]),
        j == s.len() || !spec_is_digit(s[j]),
    ensures
        spec_scan_digits(s, i) == j,
    decreases j - i,
{
    if i < j {
        lemma_scan_digits_run(s, i + 1, j);
    }
}

/// A maximal word run ends at the first character that is neither letter
/// nor digit.
pub proof fn lemma_scan_word_run(s: Seq<char>, i: int, j: int)
    requires
        0 <= i <= j <= s.len(),
        forall|k: int|
            i <= k < j ==> spec_is_letter(#[trigger] s[k]) || spec_is_digit(s[k]),
        j == s.len() || !(spec_is_letter(s[j]) || spec_is_digit(s[j])),
    ensures
        spec_scan_word(s, i) == j,
    decreases j - i,
{
    if i < j {
        lemma_scan_word_run(s, i + 1, j);
    }
}

/// A digit run up to a safe boundary is one number token.
pub proof fn lemma_tokens_number(s: Seq<char>, i: int, j: int)
    requires
        0 <= i < j <= s.len(),
        forall|k: int| i <= k < j ==> spec_is_digit(#[trigger] s[k]),
        safe_boundary(s, j),
    ensures
        spec_tokens(s, i) == seq![TokenV::Number(s.subrange(i, j))].add(spec_tokens(s, j)),
{
    lemma_scan_digits_run(s, i, j);
    assert(!spec_is_letter(s[i]));
    assert(!(0 <= j < s.len() && s[j] == '.'));
    assert(spec_next_token(s, i) == (Some(TokenV::Number(s.subrange(i, j))), j));
}

/// A word run up to a safe boundary, when it is not a keyword, is one
/// identifier token.
pub proof fn lemma_tokens_identifier(s: Seq<char>, i: int, j: int)
    requires
        0 <= i < j <= s.len(),
        spec_is_letter(s[i]),
        forall|k: int|
            i <= k < j ==> spec_is_letter(#[trigger] s[k]) || spec_is_digit(s[k]),
        safe_boundary(s, j),
        plain_variable_text(s.subrange(i, j)),
    ensures
        spec_tokens(s, i) == seq![TokenV::Identifier(s.subrange(i, j))].add(spec_tokens(s, j)),
{
    lemma_scan_word_run(s, i, j);
    assert(spec_word_token(s.subrange(i, j)) == TokenV::Identifier(s.subrange(i, j)));
    assert(spec_next_token(s, i) == (Some(TokenV::Identifier(s.subrange(i, j))), j));
}

/// The dot-product notation `\cdot` up to a safe boundary is one token.
pub proof fn lemma_tokens_cdot(s: Seq<char>, i: int)
    requires
        0 <= i,
        i + 5 <= s.len(),
        s.subrange(i, i + 5) == "\\cdot"@,
        safe_boundary(s, i + 5),
    ensures
        spec_tokens(s, i) == seq![TokenV::CDot].add(spec_tokens(s, i + 5)),
{
    reveal_strlit("\\cdot");
    reveal_strlit("cdot");
    assert(s.subrange(i, i + 5)[0] == '\\');
    assert(s[i] == '\\');
    assert(s.subrange(i, i + 5)[1] == 'c');
    assert(s[i + 1] == 'c');
    assert(s.subrange(i, i + 5)[2] == 'd');
    assert(s.subrange(i, i + 5)[3] == 'o');
    assert(s.subrange(i, i + 5)[4] == 't');
    assert(s.subrange(i + 1, i + 5) =~= "cdot"@);
    assert(spec_word_at(s, i + 1, "cdot"@));
    assert(!spec_is_letter('\\') && !spec_is_digit('\\') && !spec_is_simple('\\'));
    assert(spec_next_token(s, i) == (Some(TokenV::CDot), i + 5));
}

/// The tokens of a rendered core tree, in context: where the rendered
/// text of `e` stands between `i` and `j` with a safe boundary after it,
/// the token stream from `i` is the tree's tokens followed by the stream
/// from `j`.
#[verifier::rlimit(100)]
#[verifier::spinoff_prover]
pub proof fn lemma_render_tokens(e: ExprV, s: Seq<char>, i: int, j: int)
    requires
        core_tree(e),
        0 <= i <= j <= s.len(),
        s.subrange(i, j) == spec_render(e),
        safe_boundary(s, j),
    ensures
        spec_tokens(s, i) == tree_tokens(e).add(spec_tokens(s, j)),
    decreases e,
{
    let w = spec_render(e);
    assert(j - i == w.len());
    assert forall|k: int| 0 <= k < w.len() implies s[i + k] == w[k] by {
        assert(s.subrange(i, j)[k] == w[k]);
    }
    match e {
        ExprV::Number(ds) => {
            assert(w == ds);
            assert forall|k: int| i <= k < j implies spec_is_digit(#[trigger] s[k]) by {
                assert(s[k] == ds[k - i]);
            }
            lemma_tokens_number(s, i, j);
            assert(s.subrange(i, j) =~= ds);
        },
        ExprV::Variable(v) => {
            assert(w == v);
            assert forall|k: int|
                i <= k < j implies spec_is_letter(#[trigger] s[k]) || spec_is_digit(s[k]) by {
                assert(s[k] == v[k - i]);
            }
            assert(s[i] == v[0]);
            lemma_tokens_identifier(s, i, j);
            assert(s.subrange(i, j) =~= v);
        },
        ExprV::Parenthesized(inner) => {
            let ru = spec_render(*inner);
            reveal_strlit("(");
            reveal_strlit(")");
            assert(w == "("@ + ru + ")"@);
            assert(w.len() == 2 + ru.len());
            assert(w[0] == '(');
            assert(s[i] == '(');
            assert(w[w.len() - 1] == ')');
            assert(s[j - 1] == ')');
            assert(spec_simple_token('(') == TokenV::LParen);
            assert(!spec_is_letter('(') && !spec_is_digit('(') && '(' != '\\');
            lemma_tokens_simple(s, i);
            assert(s.subrange(i + 1, j - 1) =~= ru) by {
                assert forall|k: int| 0 <= k < ru.len() implies s.subrange(i + 1, j - 1)[k]
                    == ru[k] by {
                    assert(s.subrange(i + 1, j - 1)[k] == s[i + 1 + k]);
                    assert(s[i + 1 + k] == w[1 + k]);
                    assert(w[1 + k] == ru[k]);
                }
            }
            assert(safe_boundary(s, j - 1));
            lemma_render_tokens(*inner, s, i + 1, j - 1);
            assert(!spec_is_letter(')') && !spec_is_digit(')') && ')' != '\\');
            assert(spec_simple_token(')') == TokenV::RParen);
            lemma_tokens_simple(s, j - 1);
            assert(spec_tokens(s, i) =~= tree_tokens(e).add(spec_tokens(s, j)));
        },
        ExprV::BinaryOp { left, operator, right } => {
            let rl = spec_render(*left);
            let rr = spec_render(*right);
            let opt = spec_binop_text(operator);
            reveal_strlit("(");
            reveal_strlit(")");
            reveal_strlit(" ");
            assert(w == "("@ + rl + " "@ + opt + " "@ + rr + ")"@);
            let a = i + 1;
            let b = a + rl.len();
            let c = b + 1;
            let d = c + opt.len();
            let g = d + 1;
            let h = g + rr.len();
            assert(w.len() == 1 + rl.len() + 1 + opt.len() + 1 + rr.len() + 1);
            assert(j == h + 1);
            assert(s[i] == '(') by {
                assert(w[0] == '(');
            }
            assert(s[b] == ' ') by {
                assert(w[b - i] == ' ');
            }
            assert(s[d] == ' ') by {
                assert(w[d - i] == ' ');
            }
            assert(s[h] == ')') by {
                assert(w[h - i] == ')');
            }
            assert(!spec_is_letter('(') && !spec_is_digit('(') && '(' != '\\');
            lemma_tokens_simple(s, i);
            assert(s.subrange(a, b) =~= rl) by {
                assert forall|k: int| 0 <= k < rl.len() implies s.subrange(a, b)[k] == rl[k] by {
                    assert(s.subrange(a, b)[k] == s[a + k]);
                    assert(s[a + k] == w[1 + k]);
                    assert(w[1 + k] == rl[k]);
                }
            }
            lemma_render_tokens(*left, s, a, b);
            assert(!spec_is_letter(' ') && !spec_is_digit(' ') && ' ' != '\\' && !spec_is_simple(
                ' ',
            ));
            lemma_tokens_skip(s, b);
            if operator == BinaryOperator::DotProduct {
                reveal_strlit("\\cdot");
                assert(opt == "\\cdot"@);
                assert(opt.len() == 5);
                assert(s.subrange(c, c + 5) =~= "\\cdot"@) by {
                    assert forall|k: int| 0 <= k < 5 implies s.subrange(c, c + 5)[k]
                        == "\\cdot"@[k] by {
                        assert(s.subrange(c, c + 5)[k] == s[c + k]);
                        assert(s[c + k] == w[c - i + k]);
                        assert(w[c - i + k] == opt[k]);
                    }
                }
                lemma_tokens_cdot(s, c);
                assert(spec_tokens(s, c) == seq![op_token(operator)].add(spec_tokens(s, d)));
            } else {
                reveal_strlit("+");
                reveal_strlit("-");
                reveal_strlit("*");
                reveal_strlit("=");
                if operator == BinaryOperator::Add {
                    assert(opt.len() == 1 && opt[0] == '+');
                } else if operator == BinaryOperator::Subtract {
                    assert(opt.len() == 1 && opt[0] == '-');
                } else if operator == BinaryOperator::Multiply {
                    assert(opt.len() == 1 && opt[0] == '*');
                } else {
                    assert(operator == BinaryOperator::Equals);
                    assert(opt.len() == 1 && opt[0] == '=');
                }
                let oc = opt[0];
                assert(s[c] == oc) by {
                    assert(w[c - i] == opt[0]);
                }
                assert(spec_is_simple(oc) && !spec_is_letter(oc) && !spec_is_digit(oc) && oc
                    != '\\');
                assert(spec_simple_token(oc) == op_token(operator));
                lemma_tokens_simple(s, c);
                assert(spec_tokens(s, c) == seq![op_token(operator)].add(spec_tokens(s, d)));
            }
            lemma_tokens_skip(s, d);
            assert(s.subrange(g, h) =~= rr) by {
                assert forall|k: int| 0 <= k < rr.len() implies s.subrange(g, h)[k] == rr[k] by {
                    assert(s.subrange(g, h)[k] == s[g + k]);
                    assert(s[g + k] == w[g - i + k]);
                    assert(w[g - i + k] == rr[k]);
                }
            }
            assert(safe_boundary(s, h));
            lemma_render_tokens(*right, s, g, h);
            assert(!spec_is_letter(')') && !spec_is_digit(')') && ')' != '\\');
            lemma_tokens_simple(s, h);
            assert(spec_tokens(s, i) =~= tree_tokens(e).add(spec_tokens(s, j)));
        },
        _ => {},
    }
}

/// A rendered core tree is at least one token long.
pub proof fn lemma_tree_tokens_len(e: ExprV)
    requires
        core_tree(e),
    ensures
        tree_tokens(e).len() >= 1,
    decreases e,
{
}

/// The token kinds that may follow a rendered core subtree.
pub open spec fn follower(t: Seq<TokenV>, j: int) -> bool {
    j == t.len() || (j < t.len() && (kind_of(t[j]) == TokenKind::Plus || kind_of(t[j])
        == TokenKind::Minus || kind_of(t[j]) == TokenKind::Asterisk || kind_of(t[j])
        == TokenKind::CDot || kind_of(t[j]) == TokenKind::Equals || kind_of(t[j])
        == TokenKind::RParen))
}

/// At a follower position every repetition rule stops: each yields its
/// accumulator unchanged, down to the levels whose own operator stands
/// there.
pub proof fn lemma_boundary_rests(t: Seq<TokenV>, j: int, acc: ExprV)
    requires
        0 <= j,
        follower(t, j),
    ensures
        spec_parse_postfix(t, j, false, acc) == Ok::<(ExprV, int), ErrV>((acc, j)),
        spec_parse_primary_tail(t, j, false, acc) == Ok::<(ExprV, int), ErrV>((acc, j)),
        spec_parse_factor_rest(t, j, false, true, acc) == Ok::<(ExprV, int), ErrV>((acc, j)),
        spec_parse_factor_rest(t, j, false, false, acc) == Ok::<(ExprV, int), ErrV>((acc, j)),
        spec_parse_power_rest(t, j, false, acc) == Ok::<(ExprV, int), ErrV>((acc, j)),
        !is_kind(t, j, TokenKind::Asterisk) && !is_kind(t, j, TokenKind::CDot) ==> {
            &&& spec_parse_multiplicative_rest(t, j, false, acc) == Ok::<(ExprV, int), ErrV>(
                (acc, j),
            )
            &&& (!is_kind(t, j, TokenKind::Plus) && !is_kind(t, j, TokenKind::Minus) ==> {
                &&& spec_parse_additive_rest(t, j, false, acc) == Ok::<(ExprV, int), ErrV>(
                    (acc, j),
                )
                &&& (!is_kind(t, j, TokenKind::Equals) ==> spec_parse_equality_rest(
                    t,
                    j,
                    false,
                    acc,
                ) == Ok::<(ExprV, int), ErrV>((acc, j)))
            })
        },
{
    reveal(spec_parse_postfix);
    reveal(spec_parse_primary_tail);
    reveal(spec_parse_factor_rest);
    reveal(spec_parse_power_rest);
    reveal(spec_parse_multiplicative_rest);
    reveal(spec_parse_additive_rest);
    reveal(spec_parse_equality_rest);
}

/// Every conclusion of the parsing lemma for one rendered core tree at
/// one position: each grammar level down to the one whose own operator
/// follows the tree yields exactly the regrouped tree.
pub open spec fn core_parsed(e: ExprV, t: Seq<TokenV>, i: int) -> bool {
    let j = i + tree_tokens(e).len() as int;
    let out = Ok::<(ExprV, int), ErrV>((regrouped(e), j));
    &&& forall|pb: bool| #[trigger] spec_parse_primary(t, i, false, pb) == out
    &&& forall|pb: bool| #[trigger] spec_parse_factor(t, i, false, pb) == out
    &&& forall|pb: bool| #[trigger] spec_parse_unary(t, i, false, pb) == out
    &&& spec_parse_power(t, i, false) == out
    &&& (!is_kind(t, j, TokenKind::Asterisk) && !is_kind(t, j, TokenKind::CDot) ==> {
        &&& spec_parse_multiplicative(t, i, false) == out
        &&& (!is_kind(t, j, TokenKind::Plus) && !is_kind(t, j, TokenKind::Minus) ==> {
            &&& spec_parse_additive(t, i, false) == out
            &&& (!is_kind(t, j, TokenKind::Equals) ==> spec_parse_equality(t, i, false) == out
                && spec_parse_expression(t, i, false) == out)
        })
    })
}

/// The region hypotheses of the parsing lemma: the tree's tokens stand
/// between `i` and `i + their count`, and a follower comes after them.
pub open spec fn core_region(e: ExprV, t: Seq<TokenV>, i: int) -> bool {
    &&& core_tree(e)
    &&& 0 <= i
    &&& i + tree_tokens(e).len() <= t.len()
    &&& t.subrange(i, i + tree_tokens(e).len() as int) == tree_tokens(e)
    &&& follower(t, i + tree_tokens(e).len() as int)
}

/// From a primary that yields the regrouped tree, every higher level up
/// to its own operator's yields it too.
#[verifier::rlimit(100)]
#[verifier::spinoff_prover]
proof fn lemma_lift_levels(e: ExprV, t: Seq<TokenV>, i: int)
    requires
        0 <= i,
        i < t.len(),
        kind_of(t[i]) != TokenKind::Plus,
        kind_of(t[i]) != TokenKind::Minus,
        kind_of(t[i]) != TokenKind::Exclamation,
        i + tree_tokens(e).len() <= t.len(),
        follower(t, i + tree_tokens(e).len() as int),
        forall|pb: bool| #[trigger] spec_parse_primary(t, i, false, pb) == Ok::<
            (ExprV, int),
            ErrV,
        >((regrouped(e), i + tree_tokens(e).len() as int)),
        tree_tokens(e).len() >= 1,
    ensures
        core_parsed(e, t, i),
{
    reveal(spec_parse_expression);
    reveal(spec_parse_equality);
    reveal(spec_parse_additive);
    reveal(spec_parse_multiplicative);
    reveal(spec_parse_power);
    reveal(spec_parse_unary);
    reveal(spec_parse_factor);
    let j = i + tree_tokens(e).len() as int;
    let g = regrouped(e);
    lemma_boundary_rests(t, j, g);
    assert(adv(i, j) == j);
    assert(spec_parse_factor(t, i, false, true) == Ok::<(ExprV, int), ErrV>((g, j)));
    assert(spec_parse_factor(t, i, false, false) == Ok::<(ExprV, int), ErrV>((g, j)));
    assert forall|pb: bool| #[trigger] spec_parse_factor(t, i, false, pb) == Ok::<
        (ExprV, int),
        ErrV,
    >((g, j)) by {
        assert(pb == true || pb == false);
    }
    assert(!is_kind(t, i, TokenKind::Plus));
    assert(!is_kind(t, i, TokenKind::Minus));
    assert(!is_kind(t, i, TokenKind::Exclamation));
    assert forall|pb: bool| #[trigger] spec_parse_unary(t, i, false, pb) == Ok::<
        (ExprV, int),
        ErrV,
    >((g, j)) by {
        assert(spec_parse_unary(t, i, false, pb) == spec_parse_factor(t, i, false, pb));
        assert(pb == true || pb == false);
    }
    assert(spec_parse_power(t, i, false) == Ok::<(ExprV, int), ErrV>((g, j)));
}

/// The parsing lemma at a plain number.
#[verifier::rlimit(100)]
#[verifier::spinoff_prover]
proof fn lemma_core_number(ds: Seq<char>, t: Seq<TokenV>, i: int)
    requires
        core_region(ExprV::Number(ds), t, i),
    ensures
        core_parsed(ExprV::Number(ds), t, i),
{
    reveal(spec_parse_primary);
    let e = ExprV::Number(ds);
    let j = i + 1;
    assert(t[i] == TokenV::Number(ds)) by {
        assert(t.subrange(i, j)[0] == tree_tokens(e)[0]);
    }
    lemma_boundary_rests(t, j, e);
    assert(regrouped(e) == e);
    assert forall|pb: bool| #[trigger] spec_parse_primary(t, i, false, pb) == Ok::<
        (ExprV, int),
        ErrV,
    >((regrouped(e), j)) by {
        assert(pb == true || pb == false);
    }
    lemma_lift_levels(e, t, i);
}

/// The parsing lemma at a plain variable.
#[verifier::rlimit(100)]
#[verifier::spinoff_prover]
proof fn lemma_core_variable(v: Seq<char>, t: Seq<TokenV>, i: int)
    requires
        core_region(ExprV::Variable(v), t, i),
    ensures
        core_parsed(ExprV::Variable(v), t, i),
{
    reveal(spec_parse_primary);
    let e = ExprV::Variable(v);
    let j = i + 1;
    assert(t[i] == TokenV::Identifier(v)) by {
        assert(t.subrange(i, j)[0] == tree_tokens(e)[0]);
    }
    assert(!is_kind(t, i + 1, TokenKind::LParen));
    assert(!is_kind(t, i + 1, TokenKind::Prime));
    lemma_boundary_rests(t, j, e);
    assert(regrouped(e) == e);
    assert forall|pb: bool| #[trigger] spec_parse_primary(t, i, false, pb) == Ok::<
        (ExprV, int),
        ErrV,
    >((regrouped(e), j)) by {
        assert(pb == true || pb == false);
    }
    lemma_lift_levels(e, t, i);
}

/// The parsing lemma at an explicit group, given it for the inner tree.
#[verifier::rlimit(100)]
#[verifier::spinoff_prover]
proof fn lemma_core_paren(inner: ExprV, t: Seq<TokenV>, i: int)
    requires
        core_region(ExprV::Parenthesized(Box::new(inner)), t, i),
        core_parsed(inner, t, i + 1),
        tree_tokens(inner).len() >= 1,
    ensures
        core_parsed(ExprV::Parenthesized(Box::new(inner)), t, i),
{
    reveal(spec_parse_primary);
    let e = ExprV::Parenthesized(Box::new(inner));
    let tt = tree_tokens(e);
    let nu = tree_tokens(inner).len() as int;
    let n = nu + 2;
    let j = i + n;
    assert forall|k: int| 0 <= k < n implies t[i + k] == tt[k] by {
        assert(t.subrange(i, j)[k] == tt[k]);
    }
    assert(t[i] == TokenV::LParen) by {
        assert(tt[0] == TokenV::LParen);
    }
    assert(t[j - 1] == TokenV::RParen) by {
        assert(tt[n - 1] == TokenV::RParen);
    }
    assert(spec_parse_expression(t, i + 1, false) == Ok::<(ExprV, int), ErrV>(
        (regrouped(inner), j - 1),
    )) by {
        assert(is_kind(t, j - 1, TokenKind::RParen));
    }
    assert(adv(i + 1, j - 1) == j - 1);
    assert(expect_kind(t, j - 1, TokenKind::RParen) == Ok::<int, ErrV>(j)) by {
        assert(is_kind(t, j - 1, TokenKind::RParen));
    }
    lemma_boundary_rests(t, j, regrouped(e));
    assert(regrouped(e) == ExprV::Parenthesized(Box::new(regrouped(inner))));
    assert forall|pb: bool| #[trigger] spec_parse_primary(t, i, false, pb) == Ok::<
        (ExprV, int),
        ErrV,
    >((regrouped(e), j)) by {
        assert(pb == true || pb == false);
    }
    lemma_lift_levels(e, t, i);
}

/// The parsing lemma at a stable binary operation, given it for both
/// operands.
#[verifier::rlimit(100)]
#[verifier::spinoff_prover]
proof fn lemma_core_binop(
    left: ExprV,
    operator: BinaryOperator,
    right: ExprV,
    t: Seq<TokenV>,
    i: int,
)
    requires
        core_region(ExprV::BinaryOp { left: Box::new(left), operator, right: Box::new(right) }, t, i),
        core_parsed(left, t, i + 1),
        core_parsed(right, t, i + 2 + tree_tokens(left).len() as int),
        tree_tokens(left).len() >= 1,
        tree_tokens(right).len() >= 1,
    ensures
        core_parsed(
            ExprV::BinaryOp { left: Box::new(left), operator, right: Box::new(right) },
            t,
            i,
        ),
{
    reveal(spec_parse_expression);
    reveal(spec_parse_equality);
    reveal(spec_parse_additive);
    reveal(spec_parse_multiplicative);
    reveal(spec_parse_primary);
    reveal(spec_parse_equality_rest);
    reveal(spec_parse_additive_rest);
    reveal(spec_parse_multiplicative_rest);
    let e = ExprV::BinaryOp { left: Box::new(left), operator, right: Box::new(right) };
    let tt = tree_tokens(e);
    let ttl = tree_tokens(left);
    let ttr = tree_tokens(right);
    let nl = ttl.len() as int;
    let nr = ttr.len() as int;
    let n = nl + nr + 3;
    let opk = op_token(operator);
    let m = i + 1 + nl;
    let h = m + 1 + nr;
    let j = i + n;
    assert(j == h + 1);
    assert forall|k: int| 0 <= k < n implies t[i + k] == tt[k] by {
        assert(t.subrange(i, j)[k] == tt[k]);
    }
    assert(t[i] == TokenV::LParen) by {
        assert(tt[0] == TokenV::LParen);
    }
    assert(t[m] == opk) by {
        assert(tt[1 + nl] == opk);
    }
    assert(t[h] == TokenV::RParen) by {
        assert(tt[n - 1] == TokenV::RParen);
    }
    let gl = regrouped(left);
    let gr = regrouped(right);
    let inner_out = Ok::<(ExprV, int), ErrV>((binop(gl, operator, gr), h));
    lemma_boundary_rests(t, h, binop(gl, operator, gr));
    assert(is_kind(t, h, TokenKind::RParen));
    if operator == BinaryOperator::Multiply || operator == BinaryOperator::DotProduct {
        assert(spec_parse_power(t, i + 1, false) == Ok::<(ExprV, int), ErrV>((gl, m)));
        assert(spec_parse_power(t, m + 1, false) == Ok::<(ExprV, int), ErrV>((gr, h)));
        assert(adv(i + 1, m) == m && adv(m + 1, h) == h);
        assert(spec_parse_multiplicative(t, i + 1, false) == inner_out);
        assert(spec_parse_additive(t, i + 1, false) == inner_out);
        assert(spec_parse_equality(t, i + 1, false) == inner_out);
        assert(spec_parse_expression(t, i + 1, false) == inner_out);
    } else if operator == BinaryOperator::Add || operator == BinaryOperator::Subtract {
        assert(spec_parse_multiplicative(t, i + 1, false) == Ok::<(ExprV, int), ErrV>((gl, m)));
        assert(spec_parse_multiplicative(t, m + 1, false) == Ok::<(ExprV, int), ErrV>((gr, h)));
        assert(adv(i + 1, m) == m && adv(m + 1, h) == h);
        assert(spec_parse_additive(t, i + 1, false) == inner_out);
        assert(spec_parse_equality(t, i + 1, false) == inner_out);
        assert(spec_parse_expression(t, i + 1, false) == inner_out);
    } else {
        assert(operator == BinaryOperator::Equals);
        assert(spec_parse_additive(t, i + 1, false) == Ok::<(ExprV, int), ErrV>((gl, m)));
        assert(spec_parse_additive(t, m + 1, false) == Ok::<(ExprV, int), ErrV>((gr, h)));
        assert(adv(i + 1, m) == m && adv(m + 1, h) == h);
        assert(spec_parse_equality(t, i + 1, false) == inner_out);
        assert(spec_parse_expression(t, i + 1, false) == inner_out);
    }
    assert(adv(i + 1, h) == h);
    assert(expect_kind(t, h, TokenKind::RParen) == Ok::<int, ErrV>(j));
    lemma_boundary_rests(t, j, regrouped(e));
    assert(regrouped(e) == ExprV::Parenthesized(Box::new(binop(gl, operator, gr))));
    assert forall|pb: bool| #[trigger] spec_parse_primary(t, i, false, pb) == Ok::<
        (ExprV, int),
        ErrV,
    >((regrouped(e), j)) by {
        assert(pb == true || pb == false);
    }
    lemma_lift_levels(e, t, i);
}

/// Parsing a rendered core tree, in context: where the tree's tokens
/// stand with a follower after them, each grammar level down to the one
/// whose own operator follows yields exactly the regrouped tree.
pub proof fn lemma_parse_core(e: ExprV, t: Seq<TokenV>, i: int)
    requires
        core_region(e, t, i),
    ensures
        core_parsed(e, t, i),
    decreases e,
{
    let tt = tree_tokens(e);
    let n = tt.len() as int;
    let j = i + n;
    assert forall|k: int| 0 <= k < n implies t[i + k] == tt[k] by {
        assert(t.subrange(i, j)[k] == tt[k]);
    }
    match e {
        ExprV::Number(ds) => {
            lemma_core_number(ds, t, i);
        },
        ExprV::Variable(v) => {
            lemma_core_variable(v, t, i);
        },
        ExprV::Parenthesized(inner) => {
            let ttu = tree_tokens(*inner);
            let nu = ttu.len() as int;
            lemma_tree_tokens_len(*inner);
            assert(t.subrange(i + 1, j - 1) =~= ttu) by {
                assert forall|k: int| 0 <= k < nu implies t.subrange(i + 1, j - 1)[k]
                    == ttu[k] by {
                    assert(t.subrange(i + 1, j - 1)[k] == t[i + 1 + k]);
                    assert(t[i + 1 + k] == tt[1 + k]);
                    assert(tt[1 + k] == ttu[k]);
                }
            }
            assert(t[j - 1] == TokenV::RParen) by {
                assert(tt[n - 1] == TokenV::RParen);
            }
            assert(follower(t, j - 1));
            lemma_parse_core(*inner, t, i + 1);
            assert(e == ExprV::Parenthesized(Box::new(*inner)));
            lemma_core_paren(*inner, t, i);
        },
        ExprV::BinaryOp { left, operator, right } => {
            let ttl = tree_tokens(*left);
            let ttr = tree_tokens(*right);
            let nl = ttl.len() as int;
            let nr = ttr.len() as int;
            lemma_tree_tokens_len(*left);
            lemma_tree_tokens_len(*right);
            let opk = op_token(operator);
            let m = i + 1 + nl;
            let h = m + 1 + nr;
            assert(t.subrange(i + 1, m) =~= ttl) by {
                assert forall|k: int| 0 <= k < nl implies t.subrange(i + 1, m)[k] == ttl[k] by {
                    assert(t.subrange(i + 1, m)[k] == t[i + 1 + k]);
                    assert(t[i + 1 + k] == tt[1 + k]);
                    assert(tt[1 + k] == ttl[k]);
                }
            }
            assert(t.subrange(m + 1, h) =~= ttr) by {
                assert forall|k: int| 0 <= k < nr implies t.subrange(m + 1, h)[k] == ttr[k] by {
                    assert(t.subrange(m + 1, h)[k] == t[m + 1 + k]);
                    assert(t[m + 1 + k] == tt[2 + nl + k]);
                    assert(tt[2 + nl + k] == ttr[k]);
                }
            }
            assert(t[m] == opk) by {
                assert(tt[1 + nl] == opk);
            }
            assert(t[h] == TokenV::RParen) by {
                assert(tt[n - 1] == TokenV::RParen);
            }
            assert(follower(t, m)) by {
                assert(kind_of(opk) == TokenKind::Plus || kind_of(opk) == TokenKind::Minus
                    || kind_of(opk) == TokenKind::Asterisk || kind_of(opk) == TokenKind::CDot
                    || kind_of(opk) == TokenKind::Equals);
            }
            assert(follower(t, h));
            lemma_parse_core(*left, t, i + 1);
            lemma_parse_core(*right, t, m + 1);
            assert(e == ExprV::BinaryOp { left: Box::new(*left), operator, right: Box::new(*right) });
            lemma_core_binop(*left, operator, *right, t, i);
        },
        _ => {},
    }
}

/// Structural stability of rendering and re-parsing: for every core tree,
/// parsing its rendered text succeeds and yields exactly the original
/// tree with one explicit group node added around each binary operation
/// — so re-rendering reproduces the original's shape up to grouping:
/// with group nodes dropped, the re-parsed tree's shape is the original's.
pub proof fn lemma_render_parse_structural_stability(e: ExprV)
    requires
        core_tree(e),
    ensures
        crate::scanner::spec_parse_block(spec_render(e)) == Ok::<ExprV, ErrV>(regrouped(e)),
        ungrouped(regrouped(e)) == ungrouped(e),
{
    let s = spec_render(e);
    let n = s.len() as int;
    assert(s.subrange(0, n) =~= s);
    assert(safe_boundary(s, n));
    lemma_render_tokens(e, s, 0, n);
    assert(spec_tokens(s, n) =~= Seq::<TokenV>::empty());
    let t = spec_tokens(s, 0);
    assert(t =~= tree_tokens(e));
    lemma_tree_tokens_len(e);
    let m = tree_tokens(e).len() as int;
    assert(t.subrange(0, m) =~= tree_tokens(e));
    assert(follower(t, m));
    lemma_parse_core(e, t, 0);
    assert(!is_kind(t, m, TokenKind::Asterisk) && !is_kind(t, m, TokenKind::CDot));
    assert(!is_kind(t, m, TokenKind::Plus) && !is_kind(t, m, TokenKind::Minus));
    assert(!is_kind(t, m, TokenKind::Equals));
    assert(spec_parse_expression(t, 0, false) == Ok::<(ExprV, int), ErrV>((regrouped(e), m)));
    lemma_ungrouped_regrouped(e);
}

/// Regrouping keeps a core tree inside the core fragment.
pub proof fn lemma_regrouped_core(e: ExprV)
    requires
        core_tree(e),
    ensures
        core_tree(regrouped(e)),
    decreases e,
{
    reveal_with_fuel(core_tree, 3);
    match e {
        ExprV::BinaryOp { left, operator, right } => {
            lemma_regrouped_core(*left);
            lemma_regrouped_core(*right);
        },
        ExprV::Parenthesized(inner) => {
            lemma_regrouped_core(*inner);
        },
        _ => {},
    }
}

/// Rendering the re-parsed tree and parsing again changes nothing more:
/// the shape, up to grouping, stays the original's through any further
/// render-and-parse round.
pub proof fn lemma_rerender_stable(e: ExprV)
    requires
        core_tree(e),
    ensures
        crate::scanner::spec_parse_block(spec_render(regrouped(e))) == Ok::<ExprV, ErrV>(
            regrouped(regrouped(e)),
        ),
        ungrouped(regrouped(regrouped(e))) == ungrouped(e),
{
    lemma_regrouped_core(e);
    lemma_render_parse_structural_stability(regrouped(e));
    lemma_ungrouped_regrouped(regrouped(e));
    lemma_ungrouped_regrouped(e);
}

} // verus!
