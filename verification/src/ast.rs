//! The expression tree built by parsing, and its rendering back to text.
//!
//! Every node is immutable once built and owns its children, so every tree
//! is finite and acyclic.  Rendering produces a normalized textual form; it
//! does not reproduce the original notation (for instance, subscripts render
//! with bracket notation).

use vstd::prelude::*;

verus! {

/// A binary operator.
#[derive(Debug, Clone, Copy, PartialEq, Eq, Structural)]
pub enum BinaryOperator {
    Add,
    Subtract,
    Multiply,
    DotProduct,
    Divide,
    Power,
    Equals,
}

/// A unary operator.
#[derive(Debug, Clone, Copy, PartialEq, Eq, Structural)]
pub enum UnaryOperator {
    Plus,
    Minus,
    Factorial,
}

/// A matrix environment name.
#[derive(Debug, Clone, Copy, PartialEq, Eq, Structural)]
pub enum MatrixType {
    Matrix,
    PMatrix,
    BMatrix,
    VMatrix,
    VMatrixDouble,
}

/// The notation of a binary operator.
pub open spec fn spec_binop_text(op: BinaryOperator) -> Seq<char> {
    match op {
        BinaryOperator::Add => "+"@,
        BinaryOperator::Subtract => "-"@,
        BinaryOperator::Multiply => "*"@,
        BinaryOperator::DotProduct => "\\cdot"@,
        BinaryOperator::Divide => "/"@,
        BinaryOperator::Power => "^"@,
        BinaryOperator::Equals => "="@,
    }
}

/// The notation of a unary operator.
pub open spec fn spec_unop_text(op: UnaryOperator) -> Seq<char> {
    match op {
        UnaryOperator::Plus => "+"@,
        UnaryOperator::Minus => "-"@,
        UnaryOperator::Factorial => "!"@,
    }
}

/// The name of a matrix environment.
pub open spec fn spec_matrix_type_text(t: MatrixType) -> Seq<char> {
    match t {
        MatrixType::Matrix => "matrix"@,
        MatrixType::PMatrix => "pmatrix"@,
        MatrixType::BMatrix => "bmatrix"@,
        MatrixType::VMatrix => "vmatrix"@,
        MatrixType::VMatrixDouble => "Vmatrix"@,
    }
}

impl BinaryOperator {
    /// The notation of this operator.
    pub fn to_string(&self) -> (r: &str)
        ensures
            r@ == spec_binop_text(*self),
    {
        match self {
            BinaryOperator::Add => "+",
            BinaryOperator::Subtract => "-",
            BinaryOperator::Multiply => "*",
            BinaryOperator::DotProduct => "\\cdot",
            BinaryOperator::Divide => "/",
            BinaryOperator::Power => "^",
            BinaryOperator::Equals => "=",
        }
    }
}

impl UnaryOperator {
    /// The notation of this operator.
    pub fn to_string(&self) -> (r: &str)
        ensures
            r@ == spec_unop_text(*self),
    {
        match self {
            UnaryOperator::Plus => "+",
            UnaryOperator::Minus => "-",
            UnaryOperator::Factorial => "!",
        }
    }
}

impl MatrixType {
    /// The name of this matrix environment.
    pub fn to_str(&self) -> (r: &str)
        ensures
            r@ == spec_matrix_type_text(*self),
    {
        match self {
            MatrixType::Matrix => "matrix",
            MatrixType::PMatrix => "pmatrix",
            MatrixType::BMatrix => "bmatrix",
            MatrixType::VMatrix => "vmatrix",
            MatrixType::VMatrixDouble => "Vmatrix",
        }
    }
}

/// One node of the expression tree.  `Number` carries the literal text of
/// the number; `Variable` also encodes several opaque constructs (escaped
/// command names, vector notation, the bare derivative operator) as
/// formatted text when no structured variant exists.  Absolute value and
/// norm are represented as `FunctionCall`s named `abs` and `norm` with one
/// argument each.
#[derive(Debug, PartialEq)]
pub enum MathExpr {
    Number(String),
    Variable(String),
    BinaryOp { left: Box<MathExpr>, operator: BinaryOperator, right: Box<MathExpr> },
    UnaryOp { operator: UnaryOperator, expr: Box<MathExpr> },
    FunctionCall { name: String, args: Vec<MathExpr> },
    Subscript { base: Box<MathExpr>, subscript: Box<MathExpr> },
    Superscript { base: Box<MathExpr>, superscript: Box<MathExpr> },
    Fraction { numerator: Box<MathExpr>, denominator: Box<MathExpr> },
    Root { radicand: Box<MathExpr>, index: Option<Box<MathExpr>> },
    Parenthesized(Box<MathExpr>),
    Matrix { rows: Vec<Vec<MathExpr>>, matrix_type: MatrixType },
    Derivative { variable: String, expression: Box<MathExpr> },
}

/// The mathematical value of an expression tree: the same shape as
/// `MathExpr`, with text abstracted to character sequences and vectors to
/// sequences.
pub enum ExprV {
    Number(Seq<char>),
    Variable(Seq<char>),
    BinaryOp { left: Box<ExprV>, operator: BinaryOperator, right: Box<ExprV> },
    UnaryOp { operator: UnaryOperator, expr: Box<ExprV> },
    FunctionCall { name: Seq<char>, args: Seq<ExprV> },
    Subscript { base: Box<ExprV>, subscript: Box<ExprV> },
    Superscript { base: Box<ExprV>, superscript: Box<ExprV> },
    Fraction { numerator: Box<ExprV>, denominator: Box<ExprV> },
    Root { radicand: Box<ExprV>, index: Option<Box<ExprV>> },
    Parenthesized(Box<ExprV>),
    Matrix { rows: Seq<Seq<ExprV>>, matrix_type: MatrixType },
    Derivative { variable: Seq<char>, expression: Box<ExprV> },
}

/// The value of an expression tree.
pub open spec fn view_expr(e: &MathExpr) -> ExprV
    decreases e,
{
    match e {
        MathExpr::Number(s) => ExprV::Number(s@),
        MathExpr::Variable(s) => ExprV::Variable(s@),
        MathExpr::BinaryOp { left, operator, right } => ExprV::BinaryOp {
            left: Box::new(view_expr(left)),
            operator: *operator,
            right: Box::new(view_expr(right)),
        },
        MathExpr::UnaryOp { operator, expr } => ExprV::UnaryOp {
            operator: *operator,
            expr: Box::new(view_expr(expr)),
        },
        MathExpr::FunctionCall { name, args } => ExprV::FunctionCall {
            name: name@,
            args: view_exprs(args@),
        },
        MathExpr::Subscript { base, subscript } => ExprV::Subscript {
            base: Box::new(view_expr(base)),
            subscript: Box::new(view_expr(subscript)),
        },
        MathExpr::Superscript { base, superscript } => ExprV::Superscript {
            base: Box::new(view_expr(base)),
            superscript: Box::new(view_expr(superscript)),
        },
        MathExpr::Fraction { numerator, denominator } => ExprV::Fraction {
            numerator: Box::new(view_expr(numerator)),
            denominator: Box::new(view_expr(denominator)),
        },
        MathExpr::Root { radicand, index } => ExprV::Root {
            radicand: Box::new(view_expr(radicand)),
            index: match index {
                Some(i) => Some(Box::new(view_expr(i))),
                None => None,
            },
        },
        MathExpr::Parenthesized(inner) => ExprV::Parenthesized(Box::new(view_expr(inner))),
        MathExpr::Matrix { rows, matrix_type } => ExprV::Matrix {
            rows: view_rows(rows@),
            matrix_type: *matrix_type,
        },
        MathExpr::Derivative { variable, expression } => ExprV::Derivative {
            variable: variable@,
            expression: Box::new(view_expr(expression)),
        },
    }
}

/// The values of a sequence of expression trees.
pub open spec fn view_exprs(s: Seq<MathExpr>) -> Seq<ExprV>
    decreases s,
{
    if s.len() == 0 {
        Seq::empty()
    } else {
        seq![view_expr(&s[0])].add(view_exprs(s.drop_first()))
    }
}

/// The values of a sequence of rows of expression trees.
pub open spec fn view_rows(s: Seq<Vec<MathExpr>>) -> Seq<Seq<ExprV>>
    decreases s,
{
    if s.len() == 0 {
        Seq::empty()
    } else {
        seq![view_exprs(s[0]@)].add(view_rows(s.drop_first()))
    }
}

/// `view_exprs` maps the sequence element by element.
pub proof fn lemma_view_exprs(s: Seq<MathExpr>)
    ensures
        view_exprs(s).len() == s.len(),
        forall|i: int| 0 <= i < s.len() ==> view_exprs(s)[i] == view_expr(&s[i]),
    decreases s,
{
    if s.len() > 0 {
        lemma_view_exprs(s.drop_first());
    }
}

/// `view_rows` maps the sequence element by element.
pub proof fn lemma_view_rows(s: Seq<Vec<MathExpr>>)
    ensures
        view_rows(s).len() == s.len(),
        forall|i: int| 0 <= i < s.len() ==> view_rows(s)[i] == view_exprs(s[i]@),
    decreases s,
{
    if s.len() > 0 {
        lemma_view_rows(s.drop_first());
    }
}

impl View for MathExpr {
    type V = ExprV;

    open spec fn view(&self) -> ExprV {
        view_expr(self)
    }
}

impl DeepView for MathExpr {
    type V = ExprV;

    open spec fn deep_view(&self) -> ExprV {
        view_expr(self)
    }
}

/// One parsed formula: an expression tree paired with its display mode,
/// `true` for a block formula (`$$...$$`) and `false` for an inline one
/// (`$...$`).
#[derive(Debug, PartialEq)]
pub struct MathBlock {
    pub expr: MathExpr,
    pub display_style: bool,
}

/// The value of a parsed formula.
pub struct MathBlockV {
    pub expr: ExprV,
    pub display_style: bool,
}

impl View for MathBlock {
    type V = MathBlockV;

    open spec fn view(&self) -> MathBlockV {
        MathBlockV { expr: view_expr(&self.expr), display_style: self.display_style }
    }
}

impl DeepView for MathBlock {
    type V = MathBlockV;

    open spec fn deep_view(&self) -> MathBlockV {
        self.view()
    }
}

/// The rendered text of an expression value.
pub open spec fn spec_render(e: ExprV) -> Seq<char>
    decreases e,
{
    match e {
        ExprV::Number(s) => s,
        ExprV::Variable(s) => s,
        ExprV::BinaryOp { left, operator, right } => "("@ + spec_render(*left) + " "@
            + spec_binop_text(operator) + " "@ + spec_render(*right) + ")"@,
        ExprV::UnaryOp { operator, expr } => match operator {
            UnaryOperator::Plus => "+"@ + spec_render(*expr),
            UnaryOperator::Minus => "-"@ + spec_render(*expr),
            UnaryOperator::Factorial => spec_render(*expr) + "!"@,
        },
        ExprV::FunctionCall { name, args } => {
            if name == "abs"@ && args.len() == 1 {
                "|"@ + spec_render(args[0]) + "|"@
            } else {
                name + "("@ + spec_render_args(args) + ")"@
            }
        },
        ExprV::Subscript { base, subscript } => spec_render(*base) + "["@ + spec_render(*subscript)
            + "]"@,
        ExprV::Superscript { base, superscript } => spec_render(*base) + "^{"@ + spec_render(
            *superscript,
        ) + "}"@,
        ExprV::Fraction { numerator, denominator } => "\\frac{"@ + spec_render(*numerator) + "}{"@
            + spec_render(*denominator) + "}"@,
        ExprV::Root { radicand, index } => match index {
            Some(i) => "\\sqrt["@ + spec_render(*i) + "]{"@ + spec_render(*radicand) + "}"@,
            None => "\\sqrt{"@ + spec_render(*radicand) + "}"@,
        },
        ExprV::Parenthesized(inner) => "("@ + spec_render(*inner) + ")"@,
        ExprV::Matrix { rows, matrix_type } => "\\begin{"@ + spec_matrix_type_text(matrix_type)
            + "} "@ + spec_render_rows(rows) + " \\end{"@ + spec_matrix_type_text(matrix_type)
            + "}"@,
        ExprV::Derivative { variable, expression } => "\\frac{d}{d"@ + variable + "}("@
            + spec_render(*expression) + ")"@,
    }
}

/// The rendered arguments of a function call, joined by `, `.
pub open spec fn spec_render_args(args: Seq<ExprV>) -> Seq<char>
    decreases args,
{
    if args.len() == 0 {
        Seq::empty()
    } else if args.len() == 1 {
        spec_render(args[0])
    } else {
        spec_render(args[0]) + ", "@ + spec_render_args(args.drop_first())
    }
}

/// The rendered cells of one matrix row, joined by ` & `.
pub open spec fn spec_render_row(row: Seq<ExprV>) -> Seq<char>
    decreases row,
{
    if row.len() == 0 {
        Seq::empty()
    } else if row.len() == 1 {
        spec_render(row[0])
    } else {
        spec_render(row[0]) + " & "@ + spec_render_row(row.drop_first())
    }
}

/// The rendered rows of a matrix, joined by ` \\ `.
pub open spec fn spec_render_rows(rows: Seq<Seq<ExprV>>) -> Seq<char>
    decreases rows,
{
    if rows.len() == 0 {
        Seq::empty()
    } else if rows.len() == 1 {
        spec_render_row(rows[0])
    } else {
        spec_render_row(rows[0]) + " \\\\ "@ + spec_render_rows(rows.drop_first())
    }
}

/// The rendered text of a formula, wrapped in its `$` or `$$` delimiters.
pub open spec fn spec_render_block(b: MathBlockV) -> Seq<char> {
    if b.display_style {
        "$$ "@ + spec_render(b.expr) + " $$"@
    } else {
        "$ "@ + spec_render(b.expr) + " $"@
    }
}

impl MathExpr {
    /// The rendered text of this expression.
    pub fn to_string(&self) -> (r: String)
        ensures
            r@ == spec_render(self@),
        decreases self, 0int,
    {
        match self {
            MathExpr::Number(s) => s.clone(),
            MathExpr::Variable(s) => s.clone(),
            MathExpr::BinaryOp { left, operator, right } => {
                let mut r = String::new();
                crate::strutil::push_str(&mut r, "(");
                let ls = left.to_string();
                crate::strutil::push_str(&mut r, ls.as_str());
                crate::strutil::push_str(&mut r, " ");
                crate::strutil::push_str(&mut r, operator.to_string());
                crate::strutil::push_str(&mut r, " ");
                let rs = right.to_string();
                crate::strutil::push_str(&mut r, rs.as_str());
                crate::strutil::push_str(&mut r, ")");
                r
            }
            MathExpr::UnaryOp { operator, expr } => {
                match operator {
                    UnaryOperator::Plus => {
                        let mut r = String::new();
                        crate::strutil::push_str(&mut r, "+");
                        let es = expr.to_string();
                        crate::strutil::push_str(&mut r, es.as_str());
                        r
                    }
                    UnaryOperator::Minus => {
                        let mut r = String::new();
                        crate::strutil::push_str(&mut r, "-");
                        let es = expr.to_string();
                        crate::strutil::push_str(&mut r, es.as_str());
                        r
                    }
                    UnaryOperator::Factorial => {
                        let mut r = expr.to_string();
                        crate::strutil::push_str(&mut r, "!");
                        r
                    }
                }
            }
            MathExpr::FunctionCall { name, args } => {
                if crate::strutil::str_lit_eq(name, "abs") && args.len() == 1 {
                    proof {
                        lemma_view_exprs(args@);
                    }
                    let mut r = String::new();
                    crate::strutil::push_str(&mut r, "|");
                    proof {
                        assert(decreases_to!(*self => self->FunctionCall_args));
                        assert(decreases_to!(self->FunctionCall_args => self->FunctionCall_args@));
                        assert(decreases_to!(
                            self->FunctionCall_args@ => self->FunctionCall_args@[0]));
                    }
                    let as0 = args[0].to_string();
                    crate::strutil::push_str(&mut r, as0.as_str());
                    crate::strutil::push_str(&mut r, "|");
                    r
                } else {
                    let mut r = name.clone();
                    crate::strutil::push_str(&mut r, "(");
                    proof {
                        lemma_view_exprs(args@);
                        assert(decreases_to!(*self => self->FunctionCall_args));
                        assert(decreases_to!(self->FunctionCall_args => self->FunctionCall_args@));
                        assert(view_exprs(args@).skip(0) =~= view_exprs(args@));
                    }
                    let argtext = render_args_from(args, 0);
                    crate::strutil::push_str(&mut r, argtext.as_str());
                    crate::strutil::push_str(&mut r, ")");
                    r
                }
            }
            MathExpr::Subscript { base, subscript } => {
                let mut r = base.to_string();
                crate::strutil::push_str(&mut r, "[");
                let ss = subscript.to_string();
                crate::strutil::push_str(&mut r, ss.as_str());
                crate::strutil::push_str(&mut r, "]");
                r
            }
            MathExpr::Superscript { base, superscript } => {
                let mut r = base.to_string();
                crate::strutil::push_str(&mut r, "^{");
                let ss = superscript.to_string();
                crate::strutil::push_str(&mut r, ss.as_str());
                crate::strutil::push_str(&mut r, "}");
                r
            }
            MathExpr::Fraction { numerator, denominator } => {
                let mut r = String::new();
                crate::strutil::push_str(&mut r, "\\frac{");
                let ns = numerator.to_string();
                crate::strutil::push_str(&mut r, ns.as_str());
                crate::strutil::push_str(&mut r, "}{");
                let ds = denominator.to_string();
                crate::strutil::push_str(&mut r, ds.as_str());
                crate::strutil::push_str(&mut r, "}");
                r
            }
            MathExpr::Root { radicand, index } => {
                match index {
                    Some(idx) => {
                        let mut r = String::new();
                        crate::strutil::push_str(&mut r, "\\sqrt[");
                        let is = idx.to_string();
                        crate::strutil::push_str(&mut r, is.as_str());
                        crate::strutil::push_str(&mut r, "]{");
                        let rs = radicand.to_string();
                        crate::strutil::push_str(&mut r, rs.as_str());
                        crate::strutil::push_str(&mut r, "}");
                        r
                    }
                    None => {
                        let mut r = String::new();
                        crate::strutil::push_str(&mut r, "\\sqrt{");
                        let rs = radicand.to_string();
                        crate::strutil::push_str(&mut r, rs.as_str());
                        crate::strutil::push_str(&mut r, "}");
                        r
                    }
                }
            }
            MathExpr::Parenthesized(inner) => {
                let mut r = String::new();
                crate::strutil::push_str(&mut r, "(");
                let is = inner.to_string();
                crate::strutil::push_str(&mut r, is.as_str());
                crate::strutil::push_str(&mut r, ")");
                r
            }
            MathExpr::Matrix { rows, matrix_type } => {
                let mut r = String::new();
                crate::strutil::push_str(&mut r, "\\begin{");
                crate::strutil::push_str(&mut r, matrix_type.to_str());
                crate::strutil::push_str(&mut r, "} ");
                proof {
                    assert(decreases_to!(*self => self->Matrix_rows));
                    assert(decreases_to!(self->Matrix_rows => self->Matrix_rows@));
                    assert(view_rows(rows@).skip(0) =~= view_rows(rows@));
                }
                let rowtext = render_rows_from(rows, 0);
                crate::strutil::push_str(&mut r, rowtext.as_str());
                crate::strutil::push_str(&mut r, " \\end{");
                crate::strutil::push_str(&mut r, matrix_type.to_str());
                crate::strutil::push_str(&mut r, "}");
                r
            }
            MathExpr::Derivative { variable, expression } => {
                let mut r = String::new();
                crate::strutil::push_str(&mut r, "\\frac{d}{d");
                crate::strutil::push_str(&mut r, variable.as_str());
                crate::strutil::push_str(&mut r, "}(");
                let es = expression.to_string();
                crate::strutil::push_str(&mut r, es.as_str());
                crate::strutil::push_str(&mut r, ")");
                r
            }
        }
    }
}


/// The rendered arguments from index `i` on, joined by `, `.
fn render_args_from(args: &Vec<MathExpr>, i: usize) -> (r: String)
    requires
        i <= args@.len(),
    ensures
        r@ == spec_render_args(view_exprs(args@).skip(i as int)),
    decreases args@, args@.len() - i,
{
    proof {
        lemma_view_exprs(args@);
    }
    let ghost avs = view_exprs(args@);
    if i >= args.len() {
        proof {
            assert(avs.skip(i as int) =~= Seq::<ExprV>::empty());
        }
        String::new()
    } else {
        proof {
            assert(decreases_to!(args@ => args@[i as int]));
        }
        let mut r = args[i].to_string();
        if i + 1 < args.len() {
            crate::strutil::push_str(&mut r, ", ");
            let rest = render_args_from(args, i + 1);
            crate::strutil::push_str(&mut r, rest.as_str());
            proof {
                assert(avs.skip(i as int).drop_first() =~= avs.skip(i + 1));
                assert(avs.skip(i as int)[0] == avs[i as int]);
                assert(avs.skip(i as int).len() == avs.len() - i);
            }
        } else {
            proof {
                assert(avs.skip(i as int)[0] == avs[i as int]);
                assert(avs.skip(i as int).len() == 1);
            }
        }
        r
    }
}

/// The rendered cells of one row from index `i` on, joined by ` & `.
fn render_row_from(row: &Vec<MathExpr>, i: usize) -> (r: String)
    requires
        i <= row@.len(),
    ensures
        r@ == spec_render_row(view_exprs(row@).skip(i as int)),
    decreases row@, row@.len() - i,
{
    proof {
        lemma_view_exprs(row@);
    }
    let ghost rvs = view_exprs(row@);
    if i >= row.len() {
        proof {
            assert(rvs.skip(i as int) =~= Seq::<ExprV>::empty());
        }
        String::new()
    } else {
        proof {
            assert(decreases_to!(row@ => row@[i as int]));
        }
        let mut r = row[i].to_string();
        if i + 1 < row.len() {
            crate::strutil::push_str(&mut r, " & ");
            let rest = render_row_from(row, i + 1);
            crate::strutil::push_str(&mut r, rest.as_str());
            proof {
                assert(rvs.skip(i as int).drop_first() =~= rvs.skip(i + 1));
                assert(rvs.skip(i as int)[0] == rvs[i as int]);
                assert(rvs.skip(i as int).len() == rvs.len() - i);
            }
        } else {
            proof {
                assert(rvs.skip(i as int)[0] == rvs[i as int]);
                assert(rvs.skip(i as int).len() == 1);
            }
        }
        r
    }
}

/// The rendered rows from index `i` on, joined by ` \\ `.
fn render_rows_from(rows: &Vec<Vec<MathExpr>>, i: usize) -> (r: String)
    requires
        i <= rows@.len(),
    ensures
        r@ == spec_render_rows(view_rows(rows@).skip(i as int)),
    decreases rows@, rows@.len() - i,
{
    proof {
        lemma_view_rows(rows@);
    }
    let ghost rvs = view_rows(rows@);
    if i >= rows.len() {
        proof {
            assert(rvs.skip(i as int) =~= Seq::<Seq<ExprV>>::empty());
        }
        String::new()
    } else {
        proof {
            assert(decreases_to!(rows@ => rows@[i as int]));
            assert(decreases_to!(rows@[i as int] => rows@[i as int]@));
        }
        let mut r = render_row_from(&rows[i], 0);
        proof {
            assert(view_exprs(rows@[i as int]@).skip(0) =~= view_exprs(rows@[i as int]@));
        }
        if i + 1 < rows.len() {
            crate::strutil::push_str(&mut r, " \\\\ ");
            let rest = render_rows_from(rows, i + 1);
            crate::strutil::push_str(&mut r, rest.as_str());
            proof {
                assert(rvs.skip(i as int).drop_first() =~= rvs.skip(i + 1));
                assert(rvs.skip(i as int)[0] == rvs[i as int]);
                assert(rvs.skip(i as int).len() == rvs.len() - i);
            }
        } else {
            proof {
                assert(rvs.skip(i as int)[0] == rvs[i as int]);
                assert(rvs.skip(i as int).len() == 1);
            }
        }
        r
    }
}

impl MathBlock {
    /// The rendered text of this formula, wrapped in its delimiters.
    pub fn to_string(&self) -> (r: String)
        ensures
            r@ == spec_render_block(self@),
    {
        let mut r = String::new();
        if self.display_style {
            crate::strutil::push_str(&mut r, "$$ ");
            let es = self.expr.to_string();
            crate::strutil::push_str(&mut r, es.as_str());
            crate::strutil::push_str(&mut r, " $$");
        } else {
            crate::strutil::push_str(&mut r, "$ ");
            let es = self.expr.to_string();
            crate::strutil::push_str(&mut r, es.as_str());
            crate::strutil::push_str(&mut r, " $");
        }
        r
    }
}

} // verus!
