//! The fragment of Python syntax that the compiler reads: expressions and
//! statements, as handed over by a parser, and their rendering as text.

use vstd::prelude::*;
use vstd::string::*;

use crate::types::{type_model, TypeExpr, TypeModel};

verus! {

/// Unary operators.
#[derive(Debug, Clone, Copy, PartialEq, Eq)]
pub enum UnaryOperator {
    UAdd,
    USub,
    Not,
    Invert,
}

/// Binary arithmetic and bitwise operators.
#[derive(Debug, Clone, Copy, PartialEq, Eq)]
pub enum BinaryOperator {
    Add,
    Sub,
    Mult,
    MatMult,
    Div,
    Mod,
    Pow,
    LShift,
    RShift,
    BitOr,
    BitXor,
    BitAnd,
    FloorDiv,
}

/// Boolean connectives.
#[derive(Debug, Clone, Copy, PartialEq, Eq)]
pub enum BooleanOperator {
    And,
    Or,
}

/// Comparison operators.
#[derive(Debug, Clone, Copy, PartialEq, Eq)]
pub enum ComparisonOperator {
    Eq,
    NotEq,
    Lt,
    LtE,
    Gt,
    GtE,
    Is,
    IsNot,
    In,
    NotIn,
}

/// Literal constants; numbers are kept as the text of their value.
#[derive(Debug)]
pub enum Literal {
    Bool(bool),
    Int(String),
    Float(String),
    /// Any other literal, with its text.
    Other(String),
}

/// Python expressions.
#[derive(Debug)]
pub enum PyExpr {
    Name(String),
    Constant(Literal),
    UnaryOp(UnaryOperator, Box<PyExpr>),
    BinOp(Box<PyExpr>, BinaryOperator, Box<PyExpr>),
    BoolOp(BooleanOperator, Vec<PyExpr>),
    Compare(Box<PyExpr>, Vec<ComparisonOperator>, Vec<PyExpr>),
    Call { func: Box<PyExpr>, args: Vec<PyExpr>, has_keywords: bool },
    /// Any other expression, with its text.
    Other(String),
}

/// Python statements.
#[derive(Debug)]
pub enum PyStmt {
    Pass,
    Raise,
    Assign { targets: Vec<PyExpr>, value: PyExpr },
    If { test: PyExpr, body: Vec<PyStmt>, orelse: Vec<PyStmt> },
    While { test: PyExpr, body: Vec<PyStmt> },
    Expr(PyExpr),
    /// Any other statement, with its text.
    Other(String),
}

/// The text of the decimal numeral of `n`.
pub open spec fn decimal_text(n: nat) -> Seq<char>
    decreases n,
{
    if n < 10 {
        seq![digit_char(n)]
    } else {
        decimal_text(n / 10).push(digit_char(n % 10))
    }
}

/// The decimal digit for `d < 10`.
pub open spec fn digit_char(d: nat) -> char {
    if d == 0 {
        '0'
    } else if d == 1 {
        '1'
    } else if d == 2 {
        '2'
    } else if d == 3 {
        '3'
    } else if d == 4 {
        '4'
    } else if d == 5 {
        '5'
    } else if d == 6 {
        '6'
    } else if d == 7 {
        '7'
    } else if d == 8 {
        '8'
    } else {
        '9'
    }
}

fn digit(d: usize) -> (c: char)
    requires
        d < 10,
    ensures
        c == digit_char(d as nat),
{
    if d == 0 {
        '0'
    } else if d == 1 {
        '1'
    } else if d == 2 {
        '2'
    } else if d == 3 {
        '3'
    } else if d == 4 {
        '4'
    } else if d == 5 {
        '5'
    } else if d == 6 {
        '6'
    } else if d == 7 {
        '7'
    } else if d == 8 {
        '8'
    } else {
        '9'
    }
}

/// Appends one character to a string: `String::push`.
#[verifier::external_body]
pub(crate) fn push_char(s: &mut String, c: char)
    ensures
        final(s)@ == old(s)@.push(c),
{
    s.push(c);
}

/// The decimal numeral of `n`.
pub fn decimal(n: usize) -> (r: String)
    ensures
        r@ == decimal_text(n as nat),
    decreases n,
{
    let c = digit(n % 10);
    let mut s = if n < 10 {
        String::new()
    } else {
        decimal(n / 10)
    };
    push_char(&mut s, c);
    proof {
        if n < 10 {
            assert(s@ =~= seq![digit_char(n as nat)]);
        }
    }
    s
}

/// The text of a type: `Bool`, `1`, `Int`, `Float`, its name, `a` and its
/// number, or `union(l, r)`.
pub open spec fn type_text(t: TypeModel) -> Seq<char>
    decreases t,
{
    match t {
        TypeModel::Bool => "Bool"@,
        TypeModel::Unit => "1"@,
        TypeModel::Int => "Int"@,
        TypeModel::Float => "Float"@,
        TypeModel::Named(n) => n,
        TypeModel::Var(id) => "a"@ + decimal_text(id as nat),
        TypeModel::Union(l, r) => "union("@ + type_text(*l) + ", "@ + type_text(*r) + ")"@,
    }
}

/// The text of a type.
pub fn type_to_string(t: &TypeExpr) -> (r: String)
    ensures
        r@ == type_text(type_model(*t)),
    decreases t,
{
    match t {
        TypeExpr::Bool => String::from_str("Bool"),
        TypeExpr::Unit => String::from_str("1"),
        TypeExpr::Int => String::from_str("Int"),
        TypeExpr::Float => String::from_str("Float"),
        TypeExpr::Named(n) => n.clone(),
        TypeExpr::Var(v) => {
            let digits = decimal(v.0);
            String::from_str("a").concat(digits.as_str())
        },
        TypeExpr::Union(l, r) => {
            let ls = type_to_string(l);
            let rs = type_to_string(r);
            String::from_str("union(").concat(ls.as_str()).concat(", ").concat(rs.as_str()).concat(")")
        },
    }
}

/// The text of a unary operator in front of its operand.
pub open spec fn unary_text(op: UnaryOperator) -> Seq<char> {
    match op {
        UnaryOperator::UAdd => "+"@,
        UnaryOperator::USub => "-"@,
        UnaryOperator::Not => "not "@,
        UnaryOperator::Invert => "?"@,
    }
}

fn unary_str(op: UnaryOperator) -> (r: &'static str)
    ensures
        r@ == unary_text(op),
{
    match op {
        UnaryOperator::UAdd => "+",
        UnaryOperator::USub => "-",
        UnaryOperator::Not => "not ",
        UnaryOperator::Invert => "?",
    }
}

/// The text of an arithmetic operator; `?` for the bitwise ones.
pub open spec fn binary_text(op: BinaryOperator) -> Seq<char> {
    match op {
        BinaryOperator::Add => "+"@,
        BinaryOperator::Sub => "-"@,
        BinaryOperator::Mult => "*"@,
        BinaryOperator::Div => "/"@,
        BinaryOperator::Mod => "%"@,
        BinaryOperator::Pow => "**"@,
        BinaryOperator::FloorDiv => "//"@,
        _ => "?"@,
    }
}

/// The text of an arithmetic operator; `?` for the bitwise ones.
pub fn binary_str(op: BinaryOperator) -> (r: &'static str)
    ensures
        r@ == binary_text(op),
{
    match op {
        BinaryOperator::Add => "+",
        BinaryOperator::Sub => "-",
        BinaryOperator::Mult => "*",
        BinaryOperator::Div => "/",
        BinaryOperator::Mod => "%",
        BinaryOperator::Pow => "**",
        BinaryOperator::FloorDiv => "//",
        _ => "?",
    }
}

/// The text of an ordering or equality comparison; `?` for the others.
pub open spec fn comparison_text(op: ComparisonOperator) -> Seq<char> {
    match op {
        ComparisonOperator::Lt => "<"@,
        ComparisonOperator::LtE => "<="@,
        ComparisonOperator::Gt => ">"@,
        ComparisonOperator::GtE => ">="@,
        ComparisonOperator::Eq => "=="@,
        ComparisonOperator::NotEq => "!="@,
        _ => "?"@,
    }
}

/// The text of an ordering or equality comparison; `?` for the others.
pub fn comparison_str(op: ComparisonOperator) -> (r: &'static str)
    ensures
        r@ == comparison_text(op),
{
    match op {
        ComparisonOperator::Lt => "<",
        ComparisonOperator::LtE => "<=",
        ComparisonOperator::Gt => ">",
        ComparisonOperator::GtE => ">=",
        ComparisonOperator::Eq => "==",
        ComparisonOperator::NotEq => "!=",
        _ => "?",
    }
}

/// The text of a boolean connective.
pub open spec fn boolean_text(op: BooleanOperator) -> Seq<char> {
    match op {
        BooleanOperator::And => "and"@,
        BooleanOperator::Or => "or"@,
    }
}

fn boolean_str(op: BooleanOperator) -> (r: &'static str)
    ensures
        r@ == boolean_text(op),
{
    match op {
        BooleanOperator::And => "and",
        BooleanOperator::Or => "or",
    }
}

/// The text of a literal: `true` or `false`, or the text it carries.
pub open spec fn literal_text(l: Literal) -> Seq<char> {
    match l {
        Literal::Bool(b) => if b {
            "true"@
        } else {
            "false"@
        },
        Literal::Int(s) => s@,
        Literal::Float(s) => s@,
        Literal::Other(s) => s@,
    }
}

/// `(a op b)`.
pub open spec fn parenthesized(a: Seq<char>, op: Seq<char>, b: Seq<char>) -> Seq<char> {
    "("@ + a + " "@ + op + " "@ + b + ")"@
}

fn parenthesize(a: &str, op: &str, b: &str) -> (r: String)
    ensures
        r@ == parenthesized(a@, op@, b@),
{
    String::from_str("(").concat(a).concat(" ").concat(op).concat(" ").concat(b).concat(")")
}

/// The text of an expression, with binary operations parenthesized and
/// boolean operations nested from the left.
pub open spec fn expr_text(e: PyExpr) -> Seq<char>
    decreases e, 0nat,
{
    match e {
        PyExpr::Name(id) => id@,
        PyExpr::Constant(l) => literal_text(l),
        PyExpr::UnaryOp(op, operand) => unary_text(op) + expr_text(*operand),
        PyExpr::BinOp(l, op, r) => parenthesized(expr_text(*l), binary_text(op), expr_text(*r)),
        PyExpr::Call { func, args, has_keywords } => {
            let name = match *func {
                PyExpr::Name(id) => id@,
                _ => "<call>"@,
            };
            if args@.len() == 1 {
                name + "("@ + expr_text(args@[0]) + ")"@
            } else {
                name + "(...)"@
            }
        },
        PyExpr::BoolOp(op, values) => if values@.len() == 0 {
            "(<empty boolop>)"@
        } else {
            bool_op_text(op, values@, values@.len())
        },
        PyExpr::Compare(l, ops, comparators) => if ops@.len() == 1 && comparators@.len() == 1 {
            parenthesized(expr_text(*l), comparison_text(ops@[0]), expr_text(comparators@[0]))
        } else {
            "?"@
        },
        PyExpr::Other(text) => text@,
    }
}

/// The text of the first `n` operands of a boolean operation, nested from
/// the left.
pub open spec fn bool_op_text(op: BooleanOperator, values: Seq<PyExpr>, n: nat) -> Seq<char>
    decreases values, n,
{
    if n <= 1 || n > values.len() {
        if values.len() > 0 {
            expr_text(values[0])
        } else {
            Seq::empty()
        }
    } else {
        parenthesized(bool_op_text(op, values, (n - 1) as nat), boolean_text(op), expr_text(values[n - 1]))
    }
}

/// The text of a literal.
pub fn literal_to_string(l: &Literal) -> (r: String)
    ensures
        r@ == literal_text(*l),
{
    match l {
        Literal::Bool(b) => if *b {
            String::from_str("true")
        } else {
            String::from_str("false")
        },
        Literal::Int(s) => s.clone(),
        Literal::Float(s) => s.clone(),
        Literal::Other(s) => s.clone(),
    }
}

/// The text of an expression.
pub fn expr_to_string(e: &PyExpr) -> (r: String)
    ensures
        r@ == expr_text(*e),
    decreases e,
{
    match e {
        PyExpr::Name(id) => id.clone(),
        PyExpr::Constant(l) => literal_to_string(l),
        PyExpr::UnaryOp(op, operand) => {
            let inner = expr_to_string(operand);
            String::from_str(unary_str(*op)).concat(inner.as_str())
        },
        PyExpr::BinOp(l, op, r) => {
            let ls = expr_to_string(l);
            let rs = expr_to_string(r);
            parenthesize(ls.as_str(), binary_str(*op), rs.as_str())
        },
        PyExpr::Call { func, args, has_keywords } => {
            let name = match &**func {
                PyExpr::Name(id) => id.clone(),
                _ => String::from_str("<call>"),
            };
            if args.len() == 1 {
                let arg = expr_to_string(&args[0]);
                name.concat("(").concat(arg.as_str()).concat(")")
            } else {
                name.concat("(...)")
            }
        },
        PyExpr::BoolOp(op, values) => {
            if values.len() == 0 {
                return String::from_str("(<empty boolop>)");
            }
            let mut acc = expr_to_string(&values[0]);
            let mut i: usize = 1;
            while i < values.len()
                invariant
                    1 <= i <= values@.len(),
                    *e == PyExpr::BoolOp(*op, *values),
                    acc@ == bool_op_text(*op, values@, i as nat),
                decreases values@.len() - i,
            {
                proof {
                    assert(decreases_to!(*values => values@));
                    assert(decreases_to!(values@ => values@[i as int]));
                    assert(decreases_to!(*e => (*e)->BoolOp_1));
                    assert(decreases_to!(*e => values@[i as int]));
                }
                let part = expr_to_string(&values[i]);
                acc = parenthesize(acc.as_str(), boolean_str(*op), part.as_str());
                i = i + 1;
            }
            acc
        },
        PyExpr::Compare(l, ops, comparators) => {
            if ops.len() != 1 || comparators.len() != 1 {
                return String::from_str("?");
            }
            let ls = expr_to_string(l);
            let rs = expr_to_string(&comparators[0]);
            parenthesize(ls.as_str(), comparison_str(ops[0]), rs.as_str())
        },
        PyExpr::Other(text) => text.clone(),
    }
}

} // verus!
