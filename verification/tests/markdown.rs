use markdown_formula_parser::ast::{BinaryOperator, MathExpr};
use markdown_formula_parser::parse_markdown_math;

fn add(l: &str, r: &str) -> MathExpr {
    MathExpr::BinaryOp {
        left: Box::new(MathExpr::Variable(l.to_string())),
        operator: BinaryOperator::Add,
        right: Box::new(MathExpr::Variable(r.to_string())),
    }
}

#[test]
fn finds_inline_and_display_blocks_in_order() {
    let blocks = parse_markdown_math("text $a+b$ more $$c+d$$");
    assert_eq!(blocks.len(), 2);
    assert_eq!(blocks[0].display_style, false);
    assert_eq!(blocks[0].expr, add("a", "b"));
    assert_eq!(blocks[1].display_style, true);
    assert_eq!(blocks[1].expr, add("c", "d"));
}

#[test]
fn no_dollar_signs_no_blocks() {
    assert_eq!(parse_markdown_math("plain prose").len(), 0);
}

#[test]
fn unparseable_span_is_skipped_silently() {
    let blocks = parse_markdown_math("$)$ then $x$");
    assert_eq!(blocks.len(), 1);
    assert_eq!(blocks[0].expr, MathExpr::Variable("x".to_string()));
}

#[test]
fn unclosed_dollar_is_ignored() {
    let blocks = parse_markdown_math("a $x and nothing closes");
    assert_eq!(blocks.len(), 0);
}

#[test]
fn display_without_a_double_closing_delimiter_falls_back() {
    // the lone `$` never closes the `$$` span; the opener advances one
    // character, and the second `$` then opens an inline span holding `x`
    let blocks = parse_markdown_math("$$x$ y");
    assert_eq!(blocks.len(), 1);
    assert_eq!(blocks[0].display_style, false);
    assert_eq!(blocks[0].expr, MathExpr::Variable("x".to_string()));
}

#[test]
fn empty_inline_span_is_not_math() {
    // `$$` read as an empty display block fails to parse and is skipped
    assert_eq!(parse_markdown_math("$$$$").len(), 0);
}

#[test]
fn adjacent_blocks_are_both_found() {
    let blocks = parse_markdown_math("$x$$y$");
    assert_eq!(blocks.len(), 2);
    assert_eq!(blocks[0].expr, MathExpr::Variable("x".to_string()));
    assert_eq!(blocks[1].expr, MathExpr::Variable("y".to_string()));
}
