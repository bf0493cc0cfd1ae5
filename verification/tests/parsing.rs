use markdown_formula_parser::ast::{BinaryOperator, MathExpr, MatrixType, UnaryOperator};
use markdown_formula_parser::parse_inline_math;

fn num(s: &str) -> MathExpr {
    MathExpr::Number(s.to_string())
}

fn var(s: &str) -> MathExpr {
    MathExpr::Variable(s.to_string())
}

fn bin(l: MathExpr, op: BinaryOperator, r: MathExpr) -> MathExpr {
    MathExpr::BinaryOp { left: Box::new(l), operator: op, right: Box::new(r) }
}

fn parse(s: &str) -> MathExpr {
    parse_inline_math(s).expect("parse should succeed").expr
}

#[test]
fn precedence_of_addition_and_multiplication() {
    // multiplication binds tighter than addition
    assert_eq!(
        parse("2 + 3 * 4"),
        bin(num("2"), BinaryOperator::Add, bin(num("3"), BinaryOperator::Multiply, num("4")))
    );
}

#[test]
fn parenthesized_group_is_preserved() {
    assert_eq!(
        parse("(2 + 3) * 4"),
        bin(
            MathExpr::Parenthesized(Box::new(bin(num("2"), BinaryOperator::Add, num("3")))),
            BinaryOperator::Multiply,
            num("4")
        )
    );
}

#[test]
fn subtraction_is_left_associative() {
    assert_eq!(
        parse("1 - 2 - 3"),
        bin(bin(num("1"), BinaryOperator::Subtract, num("2")), BinaryOperator::Subtract, num("3"))
    );
}

#[test]
fn division_builds_a_fraction() {
    assert_eq!(
        parse("x / y"),
        MathExpr::Fraction { numerator: Box::new(var("x")), denominator: Box::new(var("y")) }
    );
}

#[test]
fn absolute_value() {
    assert_eq!(
        parse("|x|"),
        MathExpr::FunctionCall { name: "abs".to_string(), args: vec![var("x")] }
    );
}

#[test]
fn norm() {
    assert_eq!(
        parse("||x||"),
        MathExpr::FunctionCall { name: "norm".to_string(), args: vec![var("x")] }
    );
}

#[test]
fn pipe_stop_keeps_addition_outside_absolute_values() {
    let abs_x = MathExpr::FunctionCall { name: "abs".to_string(), args: vec![var("x")] };
    let abs_y = MathExpr::FunctionCall { name: "abs".to_string(), args: vec![var("y")] };
    assert_eq!(parse("|x| + |y|"), bin(abs_x, BinaryOperator::Add, abs_y));
}

#[test]
fn absolute_value_of_a_sum() {
    assert_eq!(
        parse("|a + b|"),
        MathExpr::FunctionCall {
            name: "abs".to_string(),
            args: vec![bin(var("a"), BinaryOperator::Add, var("b"))],
        }
    );
}

#[test]
fn chained_carets_group_left_to_right() {
    // the postfix chain binds left-to-right: x^2^3 is (x^2)^3, and the
    // parse neither loops nor recurses without bound
    assert_eq!(
        parse("x^2^3"),
        MathExpr::Superscript {
            base: Box::new(MathExpr::Superscript {
                base: Box::new(var("x")),
                superscript: Box::new(num("2")),
            }),
            superscript: Box::new(num("3")),
        }
    );
}

#[test]
fn subscript_binds_before_superscript() {
    assert_eq!(
        parse("x_1^2"),
        MathExpr::Superscript {
            base: Box::new(MathExpr::Subscript {
                base: Box::new(var("x")),
                subscript: Box::new(num("1")),
            }),
            superscript: Box::new(num("2")),
        }
    );
}

#[test]
fn braced_superscript_holds_a_full_expression() {
    assert_eq!(
        parse("x^{a + b}"),
        MathExpr::Superscript {
            base: Box::new(var("x")),
            superscript: Box::new(bin(var("a"), BinaryOperator::Add, var("b"))),
        }
    );
}

#[test]
fn matrix_round_trip_structure() {
    let m = parse("\\begin{matrix} a & b \\\\ c & d \\end{matrix}");
    assert_eq!(
        m,
        MathExpr::Matrix {
            rows: vec![vec![var("a"), var("b")], vec![var("c"), var("d")]],
            matrix_type: MatrixType::Matrix,
        }
    );
}

#[test]
fn pmatrix_keeps_its_type() {
    let m = parse("\\begin{pmatrix} 1 \\end{pmatrix}");
    assert_eq!(
        m,
        MathExpr::Matrix { rows: vec![vec![num("1")]], matrix_type: MatrixType::PMatrix }
    );
}

#[test]
fn implicit_multiplication_of_adjacent_primaries() {
    assert_eq!(parse("2x"), bin(num("2"), BinaryOperator::Multiply, var("x")));
}

#[test]
fn implicit_multiplication_of_two_absolute_values() {
    let abs_a = MathExpr::FunctionCall { name: "abs".to_string(), args: vec![var("a")] };
    let abs_b = MathExpr::FunctionCall { name: "abs".to_string(), args: vec![var("b")] };
    assert_eq!(parse("|a| |b|"), bin(abs_a, BinaryOperator::Multiply, abs_b));
}

#[test]
fn unary_minus() {
    assert_eq!(
        parse("-3"),
        MathExpr::UnaryOp { operator: UnaryOperator::Minus, expr: Box::new(num("3")) }
    );
}

#[test]
fn equality_is_lowest_precedence() {
    assert_eq!(
        parse("x = a + b"),
        bin(var("x"), BinaryOperator::Equals, bin(var("a"), BinaryOperator::Add, var("b")))
    );
}

#[test]
fn dot_product_operator() {
    assert_eq!(parse("a \\cdot b"), bin(var("a"), BinaryOperator::DotProduct, var("b")));
}

#[test]
fn fraction_command() {
    assert_eq!(
        parse("\\frac{1}{2}"),
        MathExpr::Fraction { numerator: Box::new(num("1")), denominator: Box::new(num("2")) }
    );
}

#[test]
fn sqrt_without_index() {
    assert_eq!(
        parse("\\sqrt{x}"),
        MathExpr::Root { radicand: Box::new(var("x")), index: None }
    );
}

#[test]
fn sqrt_with_index() {
    assert_eq!(
        parse("\\sqrt[3]{x}"),
        MathExpr::Root { radicand: Box::new(var("x")), index: Some(Box::new(num("3"))) }
    );
}

#[test]
fn derivative_operator_from_slash() {
    assert_eq!(parse("d/dx"), var("\\frac{d}{dx}"));
}

#[test]
fn derivative_with_bracketed_operand() {
    assert_eq!(
        parse("\\frac{d}{dx}[y]"),
        MathExpr::Derivative { variable: "x".to_string(), expression: Box::new(var("y")) }
    );
}

#[test]
fn frac_d_dx_without_operand_is_opaque() {
    assert_eq!(parse("\\frac{d}{dx}"), var("\\frac{d}{dx}"));
}

#[test]
fn escaped_command_function_call() {
    assert_eq!(
        parse("\\sin(x)"),
        MathExpr::FunctionCall { name: "\\sin".to_string(), args: vec![var("x")] }
    );
}

#[test]
fn escaped_command_without_call_is_an_opaque_variable() {
    assert_eq!(parse("\\alpha"), var("\\alpha"));
}

#[test]
fn integral_sign_is_an_opaque_variable() {
    assert_eq!(
        parse("\\int x"),
        bin(var("\\int"), BinaryOperator::Multiply, var("x"))
    );
}

#[test]
fn vec_command_folds_to_text() {
    assert_eq!(parse("\\vec{x}"), var("\\vec{x}"));
}

#[test]
fn left_right_fold_to_plain_brackets() {
    assert_eq!(
        parse("\\left( x \\right)"),
        bin(
            bin(var("("), BinaryOperator::Multiply, var("x")),
            BinaryOperator::Multiply,
            var(")")
        )
    );
}

#[test]
fn prime_after_identifier() {
    assert_eq!(parse("f'"), var("f'"));
}

#[test]
fn function_call_with_two_arguments() {
    assert_eq!(
        parse("max(a, b)"),
        MathExpr::FunctionCall { name: "max".to_string(), args: vec![var("a"), var("b")] }
    );
}

#[test]
fn number_with_decimal_point() {
    assert_eq!(parse("2.5"), num("2.5"));
}

#[test]
fn unrecognized_characters_are_dropped() {
    // `@` matches no token and is skipped silently
    assert_eq!(parse("a @ b"), bin(var("a"), BinaryOperator::Multiply, var("b")));
}

#[test]
fn bracketed_group_parses_like_a_parenthesized_one() {
    assert_eq!(
        parse("[a + b]"),
        MathExpr::Parenthesized(Box::new(bin(var("a"), BinaryOperator::Add, var("b"))))
    );
}
