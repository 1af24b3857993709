//! The Python front end: `rustpython-parser` reads the program, its syntax
//! tree is carried over into the library's syntax one node for one node,
//! and the statements are typed as a command.

use vstd::prelude::*;

use rustpython_parser::ast::{self, BoolOp, CmpOp, Expr, Operator, Stmt, UnaryOp};
use rustpython_parser::text_size::TextRange;
use rustpython_parser::Parse;

use crate::command_typing::{
    block_tree, closed_stmts, infer_command_from_suite, lists_bindings, suite_bindings, CommandDerivationTree,
    CommandError,
};
use crate::compiler::CompilerFrontend;
use crate::syntax::{BinaryOperator, BooleanOperator, ComparisonOperator, Literal, PyExpr, PyStmt, UnaryOperator};
use crate::types::TypeModel;

verus! {

#[verifier::external_type_specification]
#[verifier::external_body]
pub struct ExTextRange(TextRange);

#[verifier::external_type_specification]
#[verifier::external_body]
#[verifier::reject_recursive_types(R)]
pub struct ExStmt<R>(Stmt<R>);

#[verifier::external_type_specification]
#[verifier::external_body]
#[verifier::reject_recursive_types(R)]
pub struct ExExpr<R>(Expr<R>);

#[verifier::external_type_specification]
#[verifier::external_body]
pub struct ExUnaryOp(UnaryOp);

#[verifier::external_type_specification]
#[verifier::external_body]
pub struct ExOperator(Operator);

#[verifier::external_type_specification]
#[verifier::external_body]
pub struct ExBoolOp(BoolOp);

#[verifier::external_type_specification]
#[verifier::external_body]
pub struct ExCmpOp(CmpOp);

/// What `rustpython-parser` makes of the program text `source` named
/// `source_name`: the statements of the module in the library's syntax, or
/// the text of the parse error.
pub uninterp spec fn python_parse(source: Seq<char>, source_name: Seq<char>) -> Result<Seq<PyStmt>, Seq<char>>;

/// `ast::Suite::parse` of `rustpython-parser` on the text and its name,
/// the statements carried over node for node, a parse error by its text.
/// The outcome is named, not stated.
#[verifier::external_body]
fn parse_python(source: &str, source_name: &str) -> (r: Result<Vec<PyStmt>, String>)
    ensures
        r is Ok ==> python_parse(source@, source_name@) == Ok::<Seq<PyStmt>, Seq<char>>(r->Ok_0@),
        r is Err ==> python_parse(source@, source_name@) == Err::<Seq<PyStmt>, Seq<char>>(r->Err_0@),
{
    match ast::Suite::parse(source, source_name) {
        Ok(suite) => Ok(convert_block(&suite)),
        Err(err) => Err(err.to_string()),
    }
}

/// The statements of a block of `rustpython-parser`'s tree, in order.
#[verifier::external_body]
fn convert_block(stmts: &[Stmt]) -> Vec<PyStmt> {
    stmts.iter().map(convert_stmt).collect()
}

/// One statement of `rustpython-parser`'s tree; a kind the language does
/// not have keeps its debug text.
#[verifier::external_body]
fn convert_stmt(stmt: &Stmt) -> PyStmt {
    match stmt {
        Stmt::Pass(_) => PyStmt::Pass,
        Stmt::Raise(_) => PyStmt::Raise,
        Stmt::Assign(s) => PyStmt::Assign { targets: convert_exprs(&s.targets), value: convert_expr(&s.value) },
        Stmt::If(s) => PyStmt::If { test: convert_expr(&s.test), body: convert_block(&s.body), orelse: convert_block(&s.orelse) },
        Stmt::While(s) => PyStmt::While { test: convert_expr(&s.test), body: convert_block(&s.body) },
        Stmt::Expr(s) => PyStmt::Expr(convert_expr(&s.value)),
        other => PyStmt::Other(format!("{:?}", other)),
    }
}

/// Expressions of `rustpython-parser`'s tree, in order.
#[verifier::external_body]
fn convert_exprs(exprs: &[Expr]) -> Vec<PyExpr> {
    exprs.iter().map(convert_expr).collect()
}

/// Names, constants and operations of `rustpython-parser`'s tree.
#[verifier::external_body]
fn convert_expr(expr: &Expr) -> PyExpr {
    match expr {
        Expr::Name(e) => PyExpr::Name(e.id.to_string()),
        Expr::Constant(_) => PyExpr::Constant(convert_constant(expr)),
        Expr::UnaryOp(e) => PyExpr::UnaryOp(convert_unary(e.op), Box::new(convert_expr(&e.operand))),
        Expr::BinOp(e) => PyExpr::BinOp(Box::new(convert_expr(&e.left)), convert_binary(e.op), Box::new(convert_expr(&e.right))),
        Expr::BoolOp(e) => PyExpr::BoolOp(convert_boolean(e.op), convert_exprs(&e.values)),
        _ => convert_other_expr(expr),
    }
}

/// Comparisons and calls of `rustpython-parser`'s tree; another kind of
/// expression keeps its debug text.
#[verifier::external_body]
fn convert_other_expr(expr: &Expr) -> PyExpr {
    match expr {
        Expr::Compare(e) => PyExpr::Compare(
            Box::new(convert_expr(&e.left)),
            e.ops.iter().map(|op| convert_comparison(*op)).collect(),
            convert_exprs(&e.comparators),
        ),
        Expr::Call(e) => PyExpr::Call { func: Box::new(convert_expr(&e.func)), args: convert_exprs(&e.args), has_keywords: !e.keywords.is_empty() },
        other => PyExpr::Other(format!("{:?}", other)),
    }
}

/// A constant of `rustpython-parser`'s tree: booleans, and numbers by the
/// text of their value; another constant keeps the debug text of the
/// expression.
#[verifier::external_body]
fn convert_constant(expr: &Expr) -> Literal {
    match expr {
        Expr::Constant(c) => match &c.value {
            ast::Constant::Bool(b) => Literal::Bool(*b),
            ast::Constant::Int(i) => Literal::Int(i.to_string()),
            ast::Constant::Float(f) => Literal::Float(f.to_string()),
            _ => Literal::Other(format!("{:?}", expr)),
        },
        _ => Literal::Other(format!("{:?}", expr)),
    }
}

/// A unary operator of `rustpython-parser`'s tree.
#[verifier::external_body]
fn convert_unary(op: UnaryOp) -> UnaryOperator {
    match op {
        UnaryOp::UAdd => UnaryOperator::UAdd,
        UnaryOp::USub => UnaryOperator::USub,
        UnaryOp::Not => UnaryOperator::Not,
        UnaryOp::Invert => UnaryOperator::Invert,
    }
}

/// A binary operator of `rustpython-parser`'s tree.
#[verifier::external_body]
fn convert_binary(op: Operator) -> BinaryOperator {
    match op {
        Operator::Add => BinaryOperator::Add,
        Operator::Sub => BinaryOperator::Sub,
        Operator::Mult => BinaryOperator::Mult,
        Operator::MatMult => BinaryOperator::MatMult,
        Operator::Div => BinaryOperator::Div,
        Operator::Mod => BinaryOperator::Mod,
        Operator::Pow => BinaryOperator::Pow,
        Operator::LShift => BinaryOperator::LShift,
        Operator::RShift => BinaryOperator::RShift,
        Operator::BitOr => BinaryOperator::BitOr,
        Operator::BitXor => BinaryOperator::BitXor,
        Operator::BitAnd => BinaryOperator::BitAnd,
        Operator::FloorDiv => BinaryOperator::FloorDiv,
    }
}

/// A boolean operator of `rustpython-parser`'s tree.
#[verifier::external_body]
fn convert_boolean(op: BoolOp) -> BooleanOperator {
    match op {
        BoolOp::And => BooleanOperator::And,
        BoolOp::Or => BooleanOperator::Or,
    }
}

/// A comparison operator of `rustpython-parser`'s tree.
#[verifier::external_body]
fn convert_comparison(op: CmpOp) -> ComparisonOperator {
    match op {
        CmpOp::Eq => ComparisonOperator::Eq,
        CmpOp::NotEq => ComparisonOperator::NotEq,
        CmpOp::Lt => ComparisonOperator::Lt,
        CmpOp::LtE => ComparisonOperator::LtE,
        CmpOp::Gt => ComparisonOperator::Gt,
        CmpOp::GtE => ComparisonOperator::GtE,
        CmpOp::Is => ComparisonOperator::Is,
        CmpOp::IsNot => ComparisonOperator::IsNot,
        CmpOp::In => ComparisonOperator::In,
        CmpOp::NotIn => ComparisonOperator::NotIn,
    }
}

/// The Python front end.
pub struct PythonCompiler;

/// Why the Python front end failed: the program does not parse (with the
/// parser's message), or it cannot be typed.
#[derive(Debug)]
pub enum FrontendError {
    Parse(String),
    Typing(CommandError),
}

/// What typing the parsed statements `stmts` may answer: a tree of the
/// whole block over the context of its free variables, or a typing error;
/// a block of closed statements is always typed.
pub open spec fn typed_answer(stmts: Seq<PyStmt>, r: Result<CommandDerivationTree, FrontendError>) -> bool {
    &&& r is Ok ==> exists|ctx: Seq<(Seq<char>, TypeModel)>| #[trigger]
        block_tree(stmts, ctx, r->Ok_0) && lists_bindings(ctx, suite_bindings(stmts))
    &&& r is Err ==> r->Err_0 is Typing
    &&& closed_stmts(stmts, stmts.len()) ==> r is Ok
}

/// The answer of the Python front end on the text `source` named
/// `source_name`: the parser's error, or the typing of what it parsed.
pub open spec fn python_answer(
    source_name: Seq<char>,
    source: Seq<char>,
    r: Result<CommandDerivationTree, FrontendError>,
) -> bool {
    match python_parse(source, source_name) {
        Err(m) => r matches Err(FrontendError::Parse(e)) && e@ == m,
        Ok(stmts) => typed_answer(stmts, r),
    }
}

impl CompilerFrontend for PythonCompiler {
    type Error = FrontendError;

    closed spec fn answers(
        &self,
        source_name: Seq<char>,
        source: Seq<char>,
        r: Result<CommandDerivationTree, FrontendError>,
    ) -> bool {
        python_answer(source_name, source, r)
    }

    fn compile(&self, source_name: &str, source: &str) -> (r: Result<CommandDerivationTree, FrontendError>)
        ensures
            python_answer(source_name@, source@, r),
    {
        match parse_python(source, source_name) {
            Err(m) => Err(FrontendError::Parse(m)),
            Ok(stmts) => {
                let typed = infer_command_from_suite(&stmts);
                let r = match typed {
                    Ok(tree) => Ok(tree),
                    Err(e) => Err(FrontendError::Typing(e)),
                };
                proof {
                    if typed is Ok {
                        let ctx = choose|ctx: Seq<(Seq<char>, TypeModel)>| #[trigger]
                            block_tree(stmts@, ctx, typed->Ok_0) && lists_bindings(ctx, suite_bindings(stmts@));
                        assert(block_tree(stmts@, ctx, r->Ok_0) && lists_bindings(ctx, suite_bindings(stmts@)));
                    }
                    assert(typed_answer(stmts@, r));
                }
                r
            },
        }
    }
}

} // verus!
