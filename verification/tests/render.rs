use markdown_formula_parser::ast::{BinaryOperator, MathExpr, MatrixType, UnaryOperator};
use markdown_formula_parser::{parse_display_math, parse_inline_math};

fn render(s: &str) -> String {
    parse_inline_math(s).expect("parse should succeed").expr.to_string()
}

#[test]
fn binary_operations_render_parenthesized() {
    assert_eq!(render("2 + 3 * 4"), "(2 + (3 * 4))".to_string());
}

#[test]
fn operator_notation() {
    assert_eq!(BinaryOperator::Add.to_string(), "+");
    assert_eq!(BinaryOperator::Subtract.to_string(), "-");
    assert_eq!(BinaryOperator::Multiply.to_string(), "*");
    assert_eq!(BinaryOperator::DotProduct.to_string(), "\\cdot");
    assert_eq!(BinaryOperator::Divide.to_string(), "/");
    assert_eq!(BinaryOperator::Power.to_string(), "^");
    assert_eq!(BinaryOperator::Equals.to_string(), "=");
}

#[test]
fn unary_operator_notation() {
    assert_eq!(UnaryOperator::Plus.to_string(), "+");
    assert_eq!(UnaryOperator::Minus.to_string(), "-");
    assert_eq!(UnaryOperator::Factorial.to_string(), "!");
}

#[test]
fn absolute_value_renders_with_pipes() {
    assert_eq!(render("|x + y|"), "|(x + y)|".to_string());
}

#[test]
fn norm_renders_as_a_function_call() {
    assert_eq!(render("||x||"), "norm(x)".to_string());
}

#[test]
fn subscript_renders_with_brackets() {
    // rendering is a structural re-serialization, not faithful LaTeX:
    // subscripts come out in bracket notation
    assert_eq!(render("x_1"), "x[1]".to_string());
}

#[test]
fn superscript_renders_with_braces() {
    assert_eq!(render("x^2"), "x^{2}".to_string());
}

#[test]
fn fraction_renders_as_frac() {
    assert_eq!(render("1/2"), "\\frac{1}{2}".to_string());
}

#[test]
fn root_renders_as_sqrt() {
    assert_eq!(render("\\sqrt{x}"), "\\sqrt{x}".to_string());
    assert_eq!(render("\\sqrt[3]{x}"), "\\sqrt[3]{x}".to_string());
}

#[test]
fn matrix_renders_with_its_environment() {
    assert_eq!(
        render("\\begin{bmatrix} 1 & 2 \\\\ 3 & 4 \\end{bmatrix}"),
        "\\begin{bmatrix} 1 & 2 \\\\ 3 & 4 \\end{bmatrix}".to_string()
    );
}

#[test]
fn matrix_type_names() {
    assert_eq!(MatrixType::Matrix.to_str(), "matrix");
    assert_eq!(MatrixType::PMatrix.to_str(), "pmatrix");
    assert_eq!(MatrixType::BMatrix.to_str(), "bmatrix");
    assert_eq!(MatrixType::VMatrix.to_str(), "vmatrix");
    assert_eq!(MatrixType::VMatrixDouble.to_str(), "Vmatrix");
}

#[test]
fn derivative_renders_with_its_variable() {
    assert_eq!(render("\\frac{d}{dx}[y + 1]"), "\\frac{d}{dx}((y + 1))".to_string());
}

#[test]
fn function_call_renders_with_comma_separated_arguments() {
    assert_eq!(render("max(a, b)"), "max(a, b)".to_string());
}

#[test]
fn inline_block_renders_with_single_dollars() {
    let b = parse_inline_math("x + 1").unwrap();
    assert_eq!(b.to_string(), "$ (x + 1) $".to_string());
}

#[test]
fn display_block_renders_with_double_dollars() {
    let b = parse_display_math("x + 1").unwrap();
    assert_eq!(b.to_string(), "$$ (x + 1) $$".to_string());
}

#[test]
fn rendering_a_rendered_tree_is_structurally_stable() {
    // render -> parse -> render: the reparse wraps each rendered binary
    // operation in one explicit group, and from then on the shape is
    // stable up to that grouping
    let t1 = parse_inline_math("2 + 3").unwrap().expr;
    let s1 = t1.to_string();
    assert_eq!(s1, "(2 + 3)".to_string());
    let t2 = parse_inline_math(&s1).unwrap().expr;
    assert_eq!(
        t2,
        MathExpr::Parenthesized(Box::new(MathExpr::BinaryOp {
            left: Box::new(MathExpr::Number("2".to_string())),
            operator: BinaryOperator::Add,
            right: Box::new(MathExpr::Number("3".to_string())),
        }))
    );
}

#[test]
fn number_text_is_preserved() {
    assert_eq!(render("2.5"), "2.5".to_string());
}
