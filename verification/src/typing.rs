//! Type inference for expressions and predicates: every expression gets a
//! deduction tree whose nodes record the rule used, the judgment
//! `context |- expr : type`, the shape of the expression and the
//! constraints collected on the way.

use vstd::prelude::*;
use vstd::string::*;

use crate::context::{chars_lt, entries_lookup, lemma_chars_lt_total, name_less, Context};
use crate::python_builtin_signatures::{
    builtin_table, builtin_type_signatures, BuiltinModel, BuiltinSignature, Constraint, PyType, PyTypeModel, SchemeModel,
    TypeScheme, TypeVar,
};
use crate::syntax::{
    decimal, expr_text, expr_to_string, literal_text, literal_to_string, type_text, type_to_string, BinaryOperator, BooleanOperator, ComparisonOperator, Literal,
    PyExpr, UnaryOperator,
};
use crate::types::{type_model, ConstraintModel, TypeConstraint, TypeExpr, TypeModel, TypeVar as ExprTypeVar};

verus! {

/// The counter of fresh type variables during inference.
#[derive(Debug)]
pub struct InferenceState {
    next_type_var: usize,
}

impl InferenceState {
    /// The number of the next fresh type variable.
    pub closed spec fn next(&self) -> nat {
        self.next_type_var as nat
    }

    pub fn new(next_type_var: usize) -> (r: Self)
        ensures
            r.next() == next_type_var,
    {
        Self { next_type_var }
    }

    /// A fresh type variable; `None` when the numbers are used up.
    fn fresh_type_var(&mut self) -> (r: Option<TypeExpr>)
        ensures
            match r {
                Some(t) => t == TypeExpr::Var(ExprTypeVar(old(self).next() as usize)) && final(self).next()
                    == old(self).next() + 1,
                None => final(self).next() == old(self).next() && old(self).next() == usize::MAX,
            },
    {
        if self.next_type_var == usize::MAX {
            return None;
        }
        let id = self.next_type_var;
        self.next_type_var = self.next_type_var + 1;
        Some(TypeExpr::Var(ExprTypeVar(id)))
    }
}

/// The entries of a context at one node of a deduction tree.
#[derive(Debug)]
pub struct ContextSnapshot(Vec<(String, TypeExpr)>);

/// The model of a list of context entries.
pub open spec fn entries_view(entries: Seq<(String, TypeExpr)>) -> Seq<(Seq<char>, TypeModel)> {
    entries.map_values(|e: (String, TypeExpr)| (e.0@, type_model(e.1)))
}

impl ContextSnapshot {
    pub closed spec fn view_entries(&self) -> Seq<(Seq<char>, TypeModel)> {
        entries_view(self.0@)
    }

    pub fn new(entries: Vec<(String, TypeExpr)>) -> (r: Self)
        ensures
            r.view_entries() == entries_view(entries@),
    {
        Self(entries)
    }

    pub fn entries(&self) -> (r: &[(String, TypeExpr)])
        ensures
            entries_view(r@) == self.view_entries(),
    {
        self.0.as_slice()
    }
}

/// A typing judgment `context |- expr : ty`.
#[derive(Debug)]
pub struct Judgment {
    context: ContextSnapshot,
    expr: String,
    ty: TypeExpr,
}

impl Judgment {
    pub closed spec fn context_view(&self) -> Seq<(Seq<char>, TypeModel)> {
        self.context.view_entries()
    }

    pub closed spec fn expr_view(&self) -> Seq<char> {
        self.expr@
    }

    pub closed spec fn ty_view(&self) -> TypeModel {
        type_model(self.ty)
    }

    pub fn context(&self) -> (r: &ContextSnapshot)
        ensures
            r.view_entries() == self.context_view(),
    {
        &self.context
    }

    pub fn ty(&self) -> (r: &TypeExpr)
        ensures
            type_model(*r) == self.ty_view(),
    {
        &self.ty
    }

    pub fn expr(&self) -> (r: &str)
        ensures
            r@ == self.expr_view(),
    {
        self.expr.as_str()
    }
}

/// Constraints collected during inference, in order.
#[derive(Debug)]
pub struct ConstraintStore {
    constraints: Vec<TypeConstraint>,
}

impl ConstraintStore {
    pub closed spec fn view(&self) -> Seq<ConstraintModel> {
        self.constraints@.map_values(|c: TypeConstraint| c.deep_view())
    }

    pub fn new() -> (r: Self)
        ensures
            r.view() == Seq::<ConstraintModel>::empty(),
    {
        let r = Self { constraints: Vec::new() };
        proof {
            assert(r.view() =~= Seq::<ConstraintModel>::empty());
        }
        r
    }

    pub fn constraints(&self) -> (r: &[TypeConstraint])
        ensures
            r@.map_values(|c: TypeConstraint| c.deep_view()) == self.view(),
    {
        self.constraints.as_slice()
    }

    pub fn push(&mut self, constraint: TypeConstraint)
        ensures
            final(self).view() == old(self).view().push(constraint.deep_view()),
    {
        self.constraints.push(constraint);
        proof {
            assert(self.view() =~= old(self).view().push(constraint.deep_view()));
        }
    }

    pub fn extend(&mut self, other: &ConstraintStore)
        ensures
            final(self).view() == old(self).view() + other.view(),
    {
        let mut i: usize = 0;
        while i < other.constraints.len()
            invariant
                i <= other.constraints@.len(),
                self.view() == old(self).view() + other.view().subrange(0, i as int),
            decreases other.constraints@.len() - i,
        {
            let c = copy_constraint(&other.constraints[i]);
            self.push(c);
            i = i + 1;
            proof {
                assert(self.view() =~= old(self).view() + other.view().subrange(0, i as int));
            }
        }
        proof {
            assert(other.view().subrange(0, other.constraints@.len() as int) =~= other.view());
        }
    }
}

impl Default for ConstraintStore {
    fn default() -> (r: Self)
        ensures
            r.view() == Seq::<ConstraintModel>::empty(),
    {
        ConstraintStore::new()
    }
}

/// A copy of a constraint.
pub fn copy_constraint(c: &TypeConstraint) -> (r: TypeConstraint)
    ensures
        r == *c,
{
    match c {
        TypeConstraint::Equal(a, b) => TypeConstraint::Equal(a.copy(), b.copy()),
        TypeConstraint::Numeric(a) => TypeConstraint::Numeric(a.copy()),
        TypeConstraint::Iterable(a) => TypeConstraint::Iterable(a.copy()),
        TypeConstraint::Mapping(a, b) => TypeConstraint::Mapping(a.copy(), b.copy()),
        TypeConstraint::Sequence(a) => TypeConstraint::Sequence(a.copy()),
    }
}

/// The shape of the expression at a node, with its variable name,
/// literal, operator or callee.
#[derive(Debug)]
pub enum ExprForm {
    Var(String),
    Const(String),
    UnaryOp(String),
    BinOp(String),
    Call(String),
    BoolOp(String),
    Compare(String),
}

/// The model of an expression form: the kind and its text.
pub enum FormModel {
    Var(Seq<char>),
    Const(Seq<char>),
    UnaryOp(Seq<char>),
    BinOp(Seq<char>),
    Call(Seq<char>),
    BoolOp(Seq<char>),
    Compare(Seq<char>),
}

pub open spec fn form_model(f: ExprForm) -> FormModel {
    match f {
        ExprForm::Var(s) => FormModel::Var(s@),
        ExprForm::Const(s) => FormModel::Const(s@),
        ExprForm::UnaryOp(s) => FormModel::UnaryOp(s@),
        ExprForm::BinOp(s) => FormModel::BinOp(s@),
        ExprForm::Call(s) => FormModel::Call(s@),
        ExprForm::BoolOp(s) => FormModel::BoolOp(s@),
        ExprForm::Compare(s) => FormModel::Compare(s@),
    }
}

/// Why an expression or predicate could not be typed.
#[derive(Debug)]
pub enum TypeError {
    /// A variable that the context does not bind.
    UnboundVariable(String),
    /// A literal other than a boolean or a number.
    UnsupportedLiteral(String),
    /// An expression form the language does not have.
    UnsupportedExpression(String),
    /// A unary operator other than `+`, `-` and `not`, or one not allowed
    /// where it stands.
    UnsupportedUnaryOperator,
    /// A call whose callee is not a name.
    UnsupportedCallTarget,
    /// A call with keyword arguments.
    KeywordArguments,
    /// A comparison of more than two operands.
    ChainedComparison,
    /// An operand that must be boolean and cannot be, with its type.
    ExpectedBool(TypeExpr),
    /// A builtin or operator that has no signature.
    UnknownBuiltin(String),
    /// No signature of the builtin accepts the arguments.
    NoMatchingSignature(String, usize),
    /// Type variables ran out.
    TypeVariablesExhausted,
}

/// A node of a deduction tree.
#[derive(Debug)]
pub struct DeductionTree {
    rule: &'static str,
    judgment: Judgment,
    children: Vec<DeductionTree>,
    form: ExprForm,
    constraints: ConstraintStore,
}

impl DeductionTree {
    pub closed spec fn rule_view(&self) -> Seq<char> {
        self.rule@
    }

    pub closed spec fn judgment_view(&self) -> Judgment {
        self.judgment
    }

    pub closed spec fn children_view(&self) -> Seq<DeductionTree> {
        self.children@
    }

    pub closed spec fn form_view(&self) -> FormModel {
        form_model(self.form)
    }

    pub closed spec fn constraints_view(&self) -> Seq<ConstraintModel> {
        self.constraints.view()
    }

    pub fn judgment(&self) -> (r: &Judgment)
        ensures
            *r == self.judgment_view(),
    {
        &self.judgment
    }

    pub fn children(&self) -> (r: &[DeductionTree])
        ensures
            r@ == self.children_view(),
    {
        self.children.as_slice()
    }

    pub fn rule(&self) -> (r: &'static str)
        ensures
            r@ == self.rule_view(),
    {
        self.rule
    }

    pub fn form(&self) -> (r: &ExprForm)
        ensures
            form_model(*r) == self.form_view(),
    {
        &self.form
    }

    pub fn constraints(&self) -> (r: &ConstraintStore)
        ensures
            r.view() == self.constraints_view(),
    {
        &self.constraints
    }

    /// Checks that the node has the expected number of children.
    pub fn assert_child_count(&self, expected: usize, label: &str)
        requires
            self.children_view().len() == expected,
    {
    }
}

impl DeductionTree {
    /// The variables that the expression reads, in order of use, one entry
    /// per use.
    pub closed spec fn input_vars(self) -> Seq<Seq<char>>
        decreases self, 0nat,
    {
        match self.form {
            ExprForm::Var(name) => seq![name@],
            ExprForm::Const(_) => Seq::empty(),
            ExprForm::UnaryOp(_) => if self.children@.len() > 0 {
                self.children@[0].input_vars()
            } else {
                Seq::empty()
            },
            ExprForm::Call(_) | ExprForm::BoolOp(_) => DeductionTree::vars_of_children(self.children@, self.children@.len()),
            ExprForm::BinOp(_) | ExprForm::Compare(_) => if self.children@.len() != 2 {
                Seq::empty()
            } else {
                self.children@[0].input_vars() + self.children@[1].input_vars()
            },
        }
    }

    /// The variables read by the first `n` trees, in order.
    pub closed spec fn vars_of_children(ts: Seq<DeductionTree>, n: nat) -> Seq<Seq<char>>
        decreases ts, n,
    {
        if n == 0 || n > ts.len() {
            Seq::empty()
        } else {
            DeductionTree::vars_of_children(ts, (n - 1) as nat) + ts[n - 1].input_vars()
        }
    }

    /// The variables a tree reads, by its shape and children: the name of a
    /// variable, nothing for a constant, those of the operand of a unary
    /// operation, and those of the children, in order, otherwise.
    pub proof fn lemma_input_vars(self)
        ensures
            self.input_vars() == match self.form_view() {
                FormModel::Var(n) => seq![n],
                FormModel::Const(_) => Seq::empty(),
                FormModel::UnaryOp(_) => if self.children_view().len() > 0 {
                    self.children_view()[0].input_vars()
                } else {
                    Seq::empty()
                },
                FormModel::Call(_) => DeductionTree::vars_of_children(self.children_view(), self.children_view().len()),
                FormModel::BoolOp(_) => DeductionTree::vars_of_children(self.children_view(), self.children_view().len()),
                _ => if self.children_view().len() != 2 {
                    Seq::empty()
                } else {
                    self.children_view()[0].input_vars() + self.children_view()[1].input_vars()
                },
            },
    {
    }

    /// The variables read by the first `n` trees: those of the first `n - 1`,
    /// then those of tree `n`.
    pub proof fn lemma_vars_of_children(ts: Seq<DeductionTree>, n: nat)
        ensures
            DeductionTree::vars_of_children(ts, n) == if n == 0 || n > ts.len() {
                Seq::empty()
            } else {
                DeductionTree::vars_of_children(ts, (n - 1) as nat) + ts[n - 1].input_vars()
            },
    {
    }

    /// The variables that the expression reads, in order of use.
    pub fn expr_input_vars(&self) -> (r: Vec<String>)
        ensures
            r@.map_values(|s: String| s@) == self.input_vars(),
        decreases self,
    {
        match &self.form {
            ExprForm::Var(name) => {
                let mut v: Vec<String> = Vec::new();
                v.push(name.clone());
                proof {
                    assert(v@.map_values(|s: String| s@) =~= seq![name@]);
                }
                v
            },
            ExprForm::Const(_) => {
                let v: Vec<String> = Vec::new();
                proof {
                    assert(v@.map_values(|s: String| s@) =~= Seq::<Seq<char>>::empty());
                }
                v
            },
            ExprForm::UnaryOp(_) => {
                if self.children.len() > 0 {
                    proof {
                        assert(decreases_to!(*self => self.children));
                        assert(decreases_to!(*self => self.children@[0]));
                    }
                    self.children[0].expr_input_vars()
                } else {
                    let v: Vec<String> = Vec::new();
                    proof {
                        assert(v@.map_values(|s: String| s@) =~= Seq::<Seq<char>>::empty());
                    }
                    v
                }
            },
            ExprForm::Call(_) | ExprForm::BoolOp(_) => {
                let mut vars: Vec<String> = Vec::new();
                let mut i: usize = 0;
                proof {
                    assert(vars@.map_values(|s: String| s@) =~= Seq::<Seq<char>>::empty());
                }
                while i < self.children.len()
                    invariant
                        i <= self.children@.len(),
                        self.form is Call || self.form is BoolOp,
                        vars@.map_values(|s: String| s@) == DeductionTree::vars_of_children(self.children@, i as nat),
                    decreases self.children@.len() - i,
                {
                    proof {
                        assert(decreases_to!(*self => self.children));
                        assert(decreases_to!(*self => self.children@[i as int]));
                    }
                    let mut more = self.children[i].expr_input_vars();
                    let ghost a = vars@;
                    let ghost b = more@;
                    vars.append(&mut more);
                    proof {
                        assert(vars@.map_values(|s: String| s@) =~= a.map_values(|s: String| s@) + b.map_values(
                            |s: String| s@,
                        ));
                    }
                    i = i + 1;
                }
                vars
            },
            ExprForm::BinOp(_) | ExprForm::Compare(_) => {
                if self.children.len() != 2 {
                    let v: Vec<String> = Vec::new();
                    proof {
                        assert(v@.map_values(|s: String| s@) =~= Seq::<Seq<char>>::empty());
                    }
                    return v;
                }
                proof {
                    assert(decreases_to!(*self => self.children));
                    assert(decreases_to!(*self => self.children@[0]));
                    assert(decreases_to!(*self => self.children@[1]));
                }
                let mut left = self.children[0].expr_input_vars();
                let mut right = self.children[1].expr_input_vars();
                let ghost a = left@;
                let ghost b = right@;
                left.append(&mut right);
                proof {
                    assert(left@.map_values(|s: String| s@) =~= a.map_values(|s: String| s@) + b.map_values(
                        |s: String| s@,
                    ));
                }
                left
            },
        }
    }
}

/// Decides whether two strings are equal.
pub fn str_equal(a: &str, b: &str) -> (r: bool)
    ensures
        r == (a@ == b@),
{
    proof {
        lemma_chars_lt_total(a@, b@);
    }
    !name_less(a, b) && !name_less(b, a)
}

/// A type that may turn out to be `Bool`: `Bool`, a variable, or a union
/// of such types.
pub open spec fn potential_bool(t: TypeModel) -> bool
    decreases t,
{
    match t {
        TypeModel::Bool => true,
        TypeModel::Var(_) => true,
        TypeModel::Union(l, r) => potential_bool(*l) && potential_bool(*r),
        _ => false,
    }
}

/// A type that may turn out to be numeric: `Int`, `Float`, a variable, or
/// a union of such types.
pub open spec fn potential_numeric(t: TypeModel) -> bool
    decreases t,
{
    match t {
        TypeModel::Int => true,
        TypeModel::Float => true,
        TypeModel::Var(_) => true,
        TypeModel::Union(l, r) => potential_numeric(*l) && potential_numeric(*r),
        _ => false,
    }
}

fn is_potential_bool(t: &TypeExpr) -> (r: bool)
    ensures
        r == potential_bool(type_model(*t)),
    decreases t,
{
    match t {
        TypeExpr::Bool => true,
        TypeExpr::Unit => false,
        TypeExpr::Var(_) => true,
        TypeExpr::Union(l, r) => is_potential_bool(l) && is_potential_bool(r),
        TypeExpr::Int | TypeExpr::Float | TypeExpr::Named(_) => false,
    }
}

fn is_potential_numeric(t: &TypeExpr) -> (r: bool)
    ensures
        r == potential_numeric(type_model(*t)),
    decreases t,
{
    match t {
        TypeExpr::Int | TypeExpr::Float => true,
        TypeExpr::Var(_) => true,
        TypeExpr::Union(l, r) => is_potential_numeric(l) && is_potential_numeric(r),
        TypeExpr::Bool | TypeExpr::Unit | TypeExpr::Named(_) => false,
    }
}

/// A type with no variables at its root and no union: `Bool`, `1`, `Int`,
/// `Float` or a named type.
pub open spec fn concrete(t: TypeModel) -> bool {
    t is Bool || t is Unit || t is Int || t is Float || t is Named
}

fn is_concrete_type(t: &TypeExpr) -> (r: bool)
    ensures
        r == concrete(type_model(*t)),
{
    match t {
        TypeExpr::Bool | TypeExpr::Unit | TypeExpr::Int | TypeExpr::Float | TypeExpr::Named(_) => true,
        _ => false,
    }
}

/// Two types are compatible when either is a variable or they are equal.
pub open spec fn compatible(a: TypeModel, b: TypeModel) -> bool {
    a is Var || b is Var || a == b
}

fn compatible_types(a: &TypeExpr, b: &TypeExpr) -> (r: bool)
    ensures
        r == compatible(type_model(*a), type_model(*b)),
{
    match a {
        TypeExpr::Var(_) => true,
        _ => match b {
            TypeExpr::Var(_) => true,
            _ => a.same(b),
        },
    }
}

/// The label of a unary operator in a deduction tree.
pub open spec fn unary_label(op: UnaryOperator) -> Seq<char> {
    match op {
        UnaryOperator::UAdd => "pos"@,
        UnaryOperator::USub => "neg"@,
        UnaryOperator::Not => "not"@,
        UnaryOperator::Invert => "unary"@,
    }
}

fn unary_op_label(op: UnaryOperator) -> (r: String)
    ensures
        r@ == unary_label(op),
{
    match op {
        UnaryOperator::UAdd => String::from_str("pos"),
        UnaryOperator::USub => String::from_str("neg"),
        UnaryOperator::Not => String::from_str("not"),
        UnaryOperator::Invert => String::from_str("unary"),
    }
}

/// The label of a comparison in a deduction tree; `cmp` for those that are
/// neither orderings nor equalities.
pub open spec fn compare_label(op: ComparisonOperator) -> Seq<char> {
    match op {
        ComparisonOperator::Lt => "<"@,
        ComparisonOperator::LtE => "<="@,
        ComparisonOperator::Gt => ">"@,
        ComparisonOperator::GtE => ">="@,
        ComparisonOperator::Eq => "=="@,
        ComparisonOperator::NotEq => "!="@,
        _ => "cmp"@,
    }
}

fn compare_op_label(op: ComparisonOperator) -> (r: String)
    ensures
        r@ == compare_label(op),
{
    match op {
        ComparisonOperator::Lt => String::from_str("<"),
        ComparisonOperator::LtE => String::from_str("<="),
        ComparisonOperator::Gt => String::from_str(">"),
        ComparisonOperator::GtE => String::from_str(">="),
        ComparisonOperator::Eq => String::from_str("=="),
        ComparisonOperator::NotEq => String::from_str("!="),
        _ => String::from_str("cmp"),
    }
}

fn binop_label(op: BinaryOperator) -> (r: String)
    ensures
        r@ == crate::syntax::binary_text(op),
{
    String::from_str(crate::syntax::binary_str(op))
}

fn bool_op_label(op: BooleanOperator) -> (r: String)
    ensures
        r@ == crate::syntax::boolean_text(op),
{
    match op {
        BooleanOperator::And => String::from_str("and"),
        BooleanOperator::Or => String::from_str("or"),
    }
}

/// The label of a predicate constant: `True` or `False`.
pub open spec fn predicate_const_text(value: bool) -> Seq<char> {
    if value {
        "True"@
    } else {
        "False"@
    }
}

fn predicate_const_label(value: bool) -> (r: String)
    ensures
        r@ == predicate_const_text(value),
{
    if value {
        String::from_str("True")
    } else {
        String::from_str("False")
    }
}

/// Decides whether two type variables of a signature have the same name.
fn same_type_var(a: &TypeVar, b: &TypeVar) -> (r: bool)
    ensures
        r == (a.0@ == b.0@),
{
    str_equal(a.0, b.0)
}

/// The type bound to a variable of a signature: the first binding of its
/// name.
pub open spec fn mapping_lookup(m: Seq<(TypeVar, TypeExpr)>, name: Seq<char>) -> Option<TypeModel>
    decreases m.len(),
{
    if m.len() == 0 {
        None
    } else if m[0].0.0@ == name {
        Some(type_model(m[0].1))
    } else {
        mapping_lookup(m.drop_first(), name)
    }
}

fn mapping_get(m: &Vec<(TypeVar, TypeExpr)>, v: &TypeVar) -> (r: Option<TypeExpr>)
    ensures
        match r {
            Some(t) => mapping_lookup(m@, v.0@) == Some(type_model(t)),
            None => mapping_lookup(m@, v.0@) is None,
        },
{
    let mut i: usize = 0;
    proof {
        assert(m@.skip(0) =~= m@);
    }
    while i < m.len()
        invariant
            i <= m@.len(),
            mapping_lookup(m@, v.0@) == mapping_lookup(m@.skip(i as int), v.0@),
        decreases m@.len() - i,
    {
        if same_type_var(&m[i].0, v) {
            return Some(m[i].1.copy());
        }
        proof {
            assert(m@.skip(i as int).drop_first() =~= m@.skip(i + 1));
        }
        i = i + 1;
    }
    None
}

/// Binds a variable of a signature, replacing its first binding if it has
/// one.
/// Replacing an entry by one of the same name, or adding an entry, leaves
/// the lookup of every other name as it was.
proof fn lemma_mapping_lookup_frame(m: Seq<(TypeVar, TypeExpr)>, m2: Seq<(TypeVar, TypeExpr)>, key: Seq<char>, n: Seq<char>)
    requires
        n != key,
        m2.len() == m.len() || m2.len() == m.len() + 1,
        forall|k: int| 0 <= k < m.len() ==> (#[trigger] m2[k] == m[k] || (m2[k].0.0@ == key && m[k].0.0@ == key)),
        m2.len() == m.len() + 1 ==> m2[m.len() as int].0.0@ == key,
    ensures
        mapping_lookup(m2, n) == mapping_lookup(m, n),
    decreases m.len(),
{
    if m.len() == 0 {
        if m2.len() == 1 {
            assert(mapping_lookup(m2.drop_first(), n) is None);
        }
    } else {
        assert(m2[0] == m[0] || (m2[0].0.0@ == key && m[0].0.0@ == key));
        assert forall|k: int| 0 <= k < m.drop_first().len() implies (#[trigger] m2.drop_first()[k] == m.drop_first()[k]
            || (m2.drop_first()[k].0.0@ == key && m.drop_first()[k].0.0@ == key)) by {
            assert(m2[k + 1] == m[k + 1] || (m2[k + 1].0.0@ == key && m[k + 1].0.0@ == key));
        }
        lemma_mapping_lookup_frame(m.drop_first(), m2.drop_first(), key, n);
    }
}

fn mapping_insert(m: &mut Vec<(TypeVar, TypeExpr)>, v: TypeVar, t: TypeExpr)
    ensures
        mapping_lookup(final(m)@, v.0@) == Some(type_model(t)),
        forall|n: Seq<char>| n != v.0@ ==> #[trigger] mapping_lookup(final(m)@, n) == mapping_lookup(old(m)@, n),
{
    let mut i: usize = 0;
    let ghost name = v.0@;
    proof {
        assert(m@.skip(0) =~= m@);
    }
    while i < m.len()
        invariant
            i <= m@.len(),
            name == v.0@,
            m@ == old(m)@,
            forall|k: int| 0 <= k < i ==> #[trigger] m@[k].0.0@ != name,
        decreases m@.len() - i,
    {
        if same_type_var(&m[i].0, &v) {
            let ghost before = m@;
            m.remove(i);
            m.insert(i, (v, t));
            proof {
                assert(m@ =~= before.update(i as int, (v, t)));
                lemma_mapping_lookup_at(m@, i as int, name);
                assert forall|n: Seq<char>| n != name implies #[trigger] mapping_lookup(m@, n) == mapping_lookup(before, n) by {
                    lemma_mapping_lookup_frame(before, m@, name, n);
                }
            }
            return;
        }
        i = i + 1;
    }
    let ghost before = m@;
    m.push((v, t));
    proof {
        lemma_mapping_lookup_at(m@, before.len() as int, name);
        assert forall|n: Seq<char>| n != name implies #[trigger] mapping_lookup(m@, n) == mapping_lookup(before, n) by {
            lemma_mapping_lookup_frame(before, m@, name, n);
        }
    }
}

/// A binding at `i` that no earlier binding shadows is the one found.
proof fn lemma_mapping_lookup_at(m: Seq<(TypeVar, TypeExpr)>, i: int, name: Seq<char>)
    requires
        0 <= i < m.len(),
        m[i].0.0@ == name,
        forall|k: int| 0 <= k < i ==> #[trigger] m[k].0.0@ != name,
    ensures
        mapping_lookup(m, name) == Some(type_model(m[i].1)),
    decreases i,
{
    if i > 0 {
        assert forall|k: int| 0 <= k < i - 1 implies #[trigger] m.drop_first()[k].0.0@ != name by {
            assert(m.drop_first()[k] == m[k + 1]);
        }
        lemma_mapping_lookup_at(m.drop_first(), i - 1, name);
    }
}

/// The first equation with `target` on one side and a concrete type on
/// the other gives that concrete type.
pub open spec fn concrete_from(target: TypeModel, cs: Seq<ConstraintModel>) -> Option<TypeModel>
    decreases cs.len(),
{
    if cs.len() == 0 {
        None
    } else {
        match cs[0] {
            ConstraintModel::Equal(l, r) => if l == target {
                if concrete(r) {
                    Some(r)
                } else {
                    concrete_from(target, cs.drop_first())
                }
            } else if r == target {
                if concrete(l) {
                    Some(l)
                } else {
                    concrete_from(target, cs.drop_first())
                }
            } else {
                concrete_from(target, cs.drop_first())
            },
            _ => concrete_from(target, cs.drop_first()),
        }
    }
}

fn concrete_from_constraints(target: &TypeExpr, constraints: &Vec<TypeConstraint>) -> (r: Option<TypeExpr>)
    ensures
        match r {
            Some(t) => concrete_from(
                type_model(*target),
                constraints@.map_values(|c: TypeConstraint| c.deep_view()),
            ) == Some(type_model(t)),
            None => concrete_from(
                type_model(*target),
                constraints@.map_values(|c: TypeConstraint| c.deep_view()),
            ) is None,
        },
{
    let ghost cs = constraints@.map_values(|c: TypeConstraint| c.deep_view());
    let mut i: usize = 0;
    proof {
        assert(cs.skip(0) =~= cs);
    }
    while i < constraints.len()
        invariant
            i <= constraints@.len(),
            cs == constraints@.map_values(|c: TypeConstraint| c.deep_view()),
            concrete_from(type_model(*target), cs) == concrete_from(type_model(*target), cs.skip(i as int)),
        decreases constraints@.len() - i,
    {
        proof {
            assert(cs.skip(i as int).drop_first() =~= cs.skip(i + 1));
            assert(cs.skip(i as int)[0] == constraints@[i as int].deep_view());
        }
        match &constraints[i] {
            TypeConstraint::Equal(lhs, rhs) => {
                if lhs.same(target) {
                    if is_concrete_type(rhs) {
                        return Some(rhs.copy());
                    }
                } else if rhs.same(target) {
                    if is_concrete_type(lhs) {
                        return Some(lhs.copy());
                    }
                }
            },
            _ => {},
        }
        i = i + 1;
    }
    None
}

/// The text of a signature type, with bound variables shown by the text of
/// their types and unbound ones by their names.
pub open spec fn pytype_text(p: PyType, m: Seq<(TypeVar, TypeExpr)>) -> Seq<char>
    decreases p, 0nat,
{
    match p {
        PyType::Any => "Any"@,
        PyType::NoneType => "None"@,
        PyType::Bool => "Bool"@,
        PyType::Int => "Int"@,
        PyType::Float => "Float"@,
        PyType::Complex => "Complex"@,
        PyType::Str => "Str"@,
        PyType::Bytes => "Bytes"@,
        PyType::ByteArray => "ByteArray"@,
        PyType::Range => "Range"@,
        PyType::Slice => "Slice"@,
        PyType::MemoryView => "MemoryView"@,
        PyType::Object => "Object"@,
        PyType::Type => "Type"@,
        PyType::Var(v) => match mapping_lookup(m, v.0@) {
            Some(t) => type_text(t),
            None => v.0@,
        },
        PyType::Iterable(inner) => "Iterable["@ + pytype_text(*inner, m) + "]"@,
        PyType::Sequence(inner) => "Sequence["@ + pytype_text(*inner, m) + "]"@,
        PyType::List(inner) => "List["@ + pytype_text(*inner, m) + "]"@,
        PyType::Tuple(items) => "Tuple["@ + pytype_items_text(items@, m, items@.len()) + "]"@,
        PyType::TupleOf(inner) => "Tuple["@ + pytype_text(*inner, m) + "]"@,
        PyType::Dict(k, v) => "Dict["@ + pytype_text(*k, m) + ", "@ + pytype_text(*v, m) + "]"@,
        PyType::SetOf(inner) => "Set["@ + pytype_text(*inner, m) + "]"@,
        PyType::FrozenSet(inner) => "FrozenSet["@ + pytype_text(*inner, m) + "]"@,
        PyType::Mapping(k, v) => "Mapping["@ + pytype_text(*k, m) + ", "@ + pytype_text(*v, m) + "]"@,
    }
}

/// The texts of the first `k` types, separated by `, `.
pub open spec fn pytype_items_text(items: Seq<PyType>, m: Seq<(TypeVar, TypeExpr)>, k: nat) -> Seq<char>
    decreases items, k,
{
    if k == 0 || k > items.len() {
        Seq::empty()
    } else if k == 1 {
        pytype_text(items[0], m)
    } else {
        pytype_items_text(items, m, (k - 1) as nat) + ", "@ + pytype_text(items[k - 1], m)
    }
}

fn format_pytype(pytype: &PyType, mapping: &Vec<(TypeVar, TypeExpr)>) -> (r: String)
    ensures
        r@ == pytype_text(*pytype, mapping@),
    decreases pytype,
{
    match pytype {
        PyType::Any => String::from_str("Any"),
        PyType::NoneType => String::from_str("None"),
        PyType::Bool => String::from_str("Bool"),
        PyType::Int => String::from_str("Int"),
        PyType::Float => String::from_str("Float"),
        PyType::Complex => String::from_str("Complex"),
        PyType::Str => String::from_str("Str"),
        PyType::Bytes => String::from_str("Bytes"),
        PyType::ByteArray => String::from_str("ByteArray"),
        PyType::Range => String::from_str("Range"),
        PyType::Slice => String::from_str("Slice"),
        PyType::MemoryView => String::from_str("MemoryView"),
        PyType::Object => String::from_str("Object"),
        PyType::Type => String::from_str("Type"),
        PyType::Var(var) => match mapping_get(mapping, var) {
            Some(ty) => type_to_string(&ty),
            None => String::from_str(var.0),
        },
        PyType::Iterable(inner) => wrap("Iterable[", format_pytype(inner, mapping)),
        PyType::Sequence(inner) => wrap("Sequence[", format_pytype(inner, mapping)),
        PyType::List(inner) => wrap("List[", format_pytype(inner, mapping)),
        PyType::Tuple(items) => {
            let mut parts = String::new();
            let mut i: usize = 0;
            while i < items.len()
                invariant
                    i <= items@.len(),
                    *pytype == PyType::Tuple(*items),
                    parts@ == pytype_items_text(items@, mapping@, i as nat),
                decreases items@.len() - i,
            {
                proof {
                    assert(decreases_to!(*pytype => (*pytype)->Tuple_0));
                    assert(decreases_to!(*pytype => items@[i as int]));
                }
                if i > 0 {
                    parts = parts.concat(", ");
                }
                let part = format_pytype(&items[i], mapping);
                parts = parts.concat(part.as_str());
                i = i + 1;
            }
            wrap("Tuple[", parts)
        },
        PyType::TupleOf(inner) => wrap("Tuple[", format_pytype(inner, mapping)),
        PyType::Dict(key, value) => {
            let k = format_pytype(key, mapping);
            let v = format_pytype(value, mapping);
            String::from_str("Dict[").concat(k.as_str()).concat(", ").concat(v.as_str()).concat("]")
        },
        PyType::SetOf(inner) => wrap("Set[", format_pytype(inner, mapping)),
        PyType::FrozenSet(inner) => wrap("FrozenSet[", format_pytype(inner, mapping)),
        PyType::Mapping(key, value) => {
            let k = format_pytype(key, mapping);
            let v = format_pytype(value, mapping);
            String::from_str("Mapping[").concat(k.as_str()).concat(", ").concat(v.as_str()).concat("]")
        },
    }
}

/// `prefix`, the inner text and a closing bracket.
fn wrap(prefix: &str, inner: String) -> (r: String)
    ensures
        r@ == prefix@ + inner@ + "]"@,
{
    String::from_str(prefix).concat(inner.as_str()).concat("]")
}

/// A signature type as a type of the program, without binding anything:
/// an unbound variable is named after itself.
fn pytype_to_typeexpr_label(pytype: &PyType, mapping: &Vec<(TypeVar, TypeExpr)>) -> (r: TypeExpr)
    ensures
        pytype is Bool ==> r == TypeExpr::Bool,
        pytype is Int ==> r == TypeExpr::Int,
        pytype is Float ==> r == TypeExpr::Float,
        pytype is NoneType ==> r == TypeExpr::Unit,
        pytype is Var ==> match mapping_lookup(mapping@, pytype->Var_0.0@) {
            Some(t) => type_model(r) == t,
            None => type_model(r) == TypeModel::Named(pytype->Var_0.0@),
        },
{
    match pytype {
        PyType::Bool => TypeExpr::Bool,
        PyType::Int => TypeExpr::Int,
        PyType::Float => TypeExpr::Float,
        PyType::NoneType => TypeExpr::Unit,
        PyType::Any => TypeExpr::Named(String::from_str("Any")),
        PyType::Var(var) => match mapping_get(mapping, var) {
            Some(ty) => ty,
            None => TypeExpr::Named(String::from_str(var.0)),
        },
        _ => TypeExpr::Named(format_pytype(pytype, mapping)),
    }
}

/// A signature type as a type of the program; an unbound variable is
/// bound to a fresh type variable. `None` when type variables ran out.
fn pytype_to_typeexpr(
    pytype: &PyType,
    mapping: &mut Vec<(TypeVar, TypeExpr)>,
    state: &mut InferenceState,
) -> (r: Option<TypeExpr>)
    ensures
        r is Some ==> (pytype is Bool ==> r == Some(TypeExpr::Bool)),
        r is Some ==> (pytype is Int ==> r == Some(TypeExpr::Int)),
        r is Some ==> (pytype is Float ==> r == Some(TypeExpr::Float)),
        r is Some ==> (pytype is NoneType ==> r == Some(TypeExpr::Unit)),
        r is Some && pytype is Var ==> mapping_lookup(final(mapping)@, pytype->Var_0.0@) == Some(
            type_model(r->0),
        ),
        r is None <==> pytype is Var && mapping_lookup(old(mapping)@, pytype->Var_0.0@) is None && old(state).next()
            == usize::MAX,
        final(state).next() >= old(state).next(),
        !(pytype is Var) ==> final(state).next() == old(state).next() && final(mapping)@ == old(mapping)@,
        !(pytype is Var || pytype is Bool || pytype is Int || pytype is Float || pytype is NoneType) ==> (r matches Some(
            t,
        ) && type_model(t) == TypeModel::Named(pytype_text(*pytype, old(mapping)@))),
{
    match pytype {
        PyType::Bool => Some(TypeExpr::Bool),
        PyType::Int => Some(TypeExpr::Int),
        PyType::Float => Some(TypeExpr::Float),
        PyType::NoneType => Some(TypeExpr::Unit),
        PyType::Var(var) => match mapping_get(mapping, var) {
            Some(ty) => Some(ty),
            None => fresh_mapped_var(mapping, var, state),
        },
        PyType::Any => Some(TypeExpr::Named(String::from_str("Any"))),
        _ => Some(TypeExpr::Named(format_pytype(pytype, mapping))),
    }
}

/// Binds a variable of a signature to a fresh type variable.
fn fresh_mapped_var(
    mapping: &mut Vec<(TypeVar, TypeExpr)>,
    var: &TypeVar,
    state: &mut InferenceState,
) -> (r: Option<TypeExpr>)
    ensures
        match r {
            Some(t) => t == TypeExpr::Var(ExprTypeVar(old(state).next() as usize)) && final(state).next() == old(
                state,
            ).next() + 1 && mapping_lookup(final(mapping)@, var.0@) == Some(type_model(t)),
            None => final(state).next() == old(state).next() && old(state).next() == usize::MAX && final(mapping)@
                == old(mapping)@,
        },
        forall|n: Seq<char>| n != var.0@ ==> #[trigger] mapping_lookup(final(mapping)@, n) == mapping_lookup(old(mapping)@, n),
{
    match state.fresh_type_var() {
        None => None,
        Some(fresh) => {
            mapping_insert(mapping, TypeVar(var.0), fresh.copy());
            Some(fresh)
        },
    }
}

/// The type bound to a variable of a signature, or a fresh type variable
/// bound to it.
fn mapped_or_fresh(
    mapping: &mut Vec<(TypeVar, TypeExpr)>,
    var: &TypeVar,
    state: &mut InferenceState,
) -> (r: Option<TypeExpr>)
    ensures
        r is Some ==> mapping_lookup(final(mapping)@, var.0@) == Some(type_model(r->0)),
        match mapping_lookup(old(mapping)@, var.0@) {
            Some(t) => r is Some && type_model(r->0) == t && final(mapping)@ == old(mapping)@ && final(state).next()
                == old(state).next(),
            None => match r {
                Some(t) => t == TypeExpr::Var(ExprTypeVar(old(state).next() as usize)) && final(state).next() == old(
                    state,
                ).next() + 1,
                None => final(state).next() == old(state).next() && old(state).next() == usize::MAX,
            },
        },
        forall|n: Seq<char>| n != var.0@ ==> #[trigger] mapping_lookup(final(mapping)@, n) == mapping_lookup(old(mapping)@, n),
{
    match mapping_get(mapping, var) {
        Some(t) => Some(t),
        None => fresh_mapped_var(mapping, var, state),
    }
}

/// The result type of a signature: a variable bound to a concrete type
/// gives that type; one bound to a variable or a union gives the concrete
/// type it is equated with, or a fresh variable equated with it; an unbound
/// variable gives a fresh variable.
fn output_from_scheme(
    output: &PyType,
    mapping: &mut Vec<(TypeVar, TypeExpr)>,
    constraints: &mut Vec<TypeConstraint>,
    state: &mut InferenceState,
) -> (r: Option<TypeExpr>)
    ensures
        old(constraints)@.is_prefix_of(final(constraints)@),
        final(constraints)@.len() <= old(constraints)@.len() + 1,
        final(constraints)@.len() == old(constraints)@.len() + 1 ==> final(constraints)@.last() is Equal,
        final(state).next() >= old(state).next(),
        match *output {
            PyType::Var(v) => match mapping_lookup(old(mapping)@, v.0@) {
                Some(t) => if concrete(t) {
                    r matches Some(x) && type_model(x) == t && final(constraints)@ == old(constraints)@
                } else {
                    match concrete_from(t, old(constraints)@.map_values(|c: TypeConstraint| c.deep_view())) {
                        Some(c) => r matches Some(x) && type_model(x) == c && final(constraints)@ == old(constraints)@,
                        None => match r {
                            Some(x) => {
                                &&& x == TypeExpr::Var(ExprTypeVar(old(state).next() as usize))
                                &&& final(state).next() == old(state).next() + 1
                                &&& final(constraints)@ == old(constraints)@.push(final(constraints)@.last())
                                &&& final(constraints)@.last() matches TypeConstraint::Equal(a, b) && a == x
                                    && type_model(b) == t
                                &&& mapping_lookup(final(mapping)@, v.0@) == Some(type_model(x))
                            },
                            None => old(state).next() == usize::MAX && final(constraints)@ == old(constraints)@,
                        },
                    }
                },
                None => final(constraints)@ == old(constraints)@ && match r {
                    Some(x) => x == TypeExpr::Var(ExprTypeVar(old(state).next() as usize)) && final(state).next()
                        == old(state).next() + 1 && mapping_lookup(final(mapping)@, v.0@) == Some(type_model(x)),
                    None => old(state).next() == usize::MAX,
                },
            },
            PyType::Bool => r == Some(TypeExpr::Bool),
            PyType::Int => r == Some(TypeExpr::Int),
            PyType::Float => r == Some(TypeExpr::Float),
            PyType::NoneType => r == Some(TypeExpr::Unit),
            _ => r is Some && final(constraints)@ == old(constraints)@ && final(state).next() == old(state).next(),
        },
{
    match output {
        PyType::Var(var) => match mapping_get(mapping, var) {
            Some(existing) => {
                if is_concrete_type(&existing) {
                    return Some(existing);
                }
                if let Some(concrete) = concrete_from_constraints(&existing, constraints) {
                    return Some(concrete);
                }
                match state.fresh_type_var() {
                    None => None,
                    Some(fresh) => {
                        constraints.push(TypeConstraint::Equal(fresh.copy(), existing));
                        mapping_insert(mapping, TypeVar(var.0), fresh.copy());
                        Some(fresh)
                    },
                }
            },
            None => fresh_mapped_var(mapping, var, state),
        },
        _ => pytype_to_typeexpr(output, mapping, state),
    }
}

/// The type of the argument at the first of the first `k` inputs that is
/// the signature variable named `n`.
pub open spec fn first_var_arg(inputs: Seq<PyType>, args: Seq<TypeExpr>, n: Seq<char>, k: nat) -> Option<TypeModel>
    decreases k,
{
    if k == 0 || k > inputs.len() {
        None
    } else {
        match first_var_arg(inputs, args, n, (k - 1) as nat) {
            Some(t) => Some(t),
            None => if inputs[k - 1] is Var && inputs[k - 1]->Var_0.0@ == n {
                Some(type_model(args[k - 1]))
            } else {
                None
            },
        }
    }
}

/// When the signature's result is one of its variables, the type of the
/// first argument bound to that variable.
pub open spec fn bound_output(scheme: TypeScheme, args: Seq<TypeExpr>) -> Option<TypeModel> {
    match scheme.output {
        PyType::Var(v) => first_var_arg(scheme.inputs@, args, v.0@, scheme.inputs@.len()),
        _ => None,
    }
}

/// An argument of this type passes a signature input that is `Any` or one
/// of the plain types `Bool`, `Int`, `Float` and `None`: it has that type,
/// or is a type variable (equated with it).
pub open spec fn plain_input_accepts(p: PyType, a: TypeExpr) -> bool {
    match p {
        PyType::Any => true,
        PyType::Bool => a is Var || type_model(a) == TypeModel::Bool,
        PyType::Int => a is Var || type_model(a) == TypeModel::Int,
        PyType::Float => a is Var || type_model(a) == TypeModel::Float,
        PyType::NoneType => a is Var || type_model(a) == TypeModel::Unit,
        _ => false,
    }
}

/// A signature without variables or constraints, whose inputs all pass
/// the arguments.
pub open spec fn plain_scheme_applies(args: Seq<TypeExpr>, scheme: TypeScheme) -> bool {
    &&& args.len() == scheme.inputs@.len()
    &&& forall|k: int| 0 <= k < args.len() ==> plain_input_accepts(#[trigger] scheme.inputs@[k], args[k])
    &&& scheme.constraints@.len() == 0
    &&& !(scheme.output is Var)
}

/// The type that a variable of a signature takes in an instance: the
/// argument first bound to the variable, or else a type variable.
pub open spec fn instantiated_by(v: TypeVar, t: TypeModel, scheme: TypeScheme, args: Seq<TypeExpr>) -> bool {
    match first_var_arg(scheme.inputs@, args, v.0@, scheme.inputs@.len()) {
        Some(a) => t == a,
        None => t is Var,
    }
}

/// `m` is the constraint `c` of a signature with its variables instantiated.
pub open spec fn instantiates(c: Constraint, m: ConstraintModel, scheme: TypeScheme, args: Seq<TypeExpr>) -> bool {
    match c {
        Constraint::Numeric(v) => m matches ConstraintModel::Numeric(t) && instantiated_by(v, t, scheme, args),
        Constraint::Iterable(v) => m matches ConstraintModel::Iterable(t) && instantiated_by(v, t, scheme, args),
        Constraint::Sequence(v) => m matches ConstraintModel::Sequence(t) && instantiated_by(v, t, scheme, args),
        Constraint::Mapping(k, v) => m matches ConstraintModel::Mapping(a, b) && instantiated_by(k, a, scheme, args)
            && instantiated_by(v, b, scheme, args),
    }
}

/// `after` is `before` followed by what matching the signature records:
/// `e` equations of the arguments (at most one per argument), then the
/// signature's constraints instantiated, in order, then at most one
/// equation for the result.
pub open spec fn records_instance(
    before: Seq<ConstraintModel>,
    after: Seq<ConstraintModel>,
    scheme: TypeScheme,
    args: Seq<TypeExpr>,
    e: int,
) -> bool {
    let n = scheme.constraints@.len() as int;
    let added = after.subrange(before.len() as int, after.len() as int);
    &&& before.is_prefix_of(after)
    &&& 0 <= e <= args.len()
    &&& e + n <= added.len() <= e + n + 1
    &&& forall|t: int| 0 <= t < e ==> (#[trigger] added[t]) is Equal
    &&& forall|t: int| 0 <= t < n ==> instantiates(#[trigger] scheme.constraints@[t], added[e + t], scheme, args)
    &&& added.len() == e + n + 1 ==> added[e + n] is Equal
}

/// Matches argument types against one signature. On a match the
/// constraints the signature places are added to the store and the result
/// type is returned; `Ok(None)` when the signature does not apply.
fn match_scheme_with_constraints(
    args: &[TypeExpr],
    scheme: &TypeScheme,
    store: &mut ConstraintStore,
    state: &mut InferenceState,
) -> (r: Result<Option<TypeExpr>, TypeError>)
    ensures
        old(store).view().is_prefix_of(final(store).view()),
        r matches Ok(None) ==> final(store).view() == old(store).view(),
        r is Err ==> final(store).view() == old(store).view(),
        args@.len() != scheme.inputs@.len() ==> r == Ok::<Option<TypeExpr>, TypeError>(None),
        r matches Ok(Some(_)) ==> args@.len() == scheme.inputs@.len(),
        r is Err ==> r == Err::<Option<TypeExpr>, TypeError>(TypeError::TypeVariablesExhausted) && final(state).next()
            == usize::MAX,
        final(state).next() >= old(state).next(),
        plain_scheme_applies(args@, *scheme) ==> r matches Ok(Some(_)),
        r matches Ok(Some(_)) ==> exists|e: int| #[trigger]
            records_instance(old(store).view(), final(store).view(), *scheme, args@, e),
        r matches Ok(Some(t)) ==> {
            &&& (scheme.output is Bool ==> t == TypeExpr::Bool)
            &&& (scheme.output is Int ==> t == TypeExpr::Int)
            &&& (scheme.output is Float ==> t == TypeExpr::Float)
            &&& (scheme.output is NoneType ==> t == TypeExpr::Unit)
            &&& (bound_output(*scheme, args@) is Some && concrete(bound_output(*scheme, args@)->0) ==> type_model(t)
                == bound_output(*scheme, args@)->0)
        },
{
    if args.len() != scheme.inputs.len() {
        return Ok(None);
    }
    let ghost plain = plain_scheme_applies(args@, *scheme);
    let mut mapping: Vec<(TypeVar, TypeExpr)> = Vec::new();
    let mut local: Vec<TypeConstraint> = Vec::new();
    let mut i: usize = 0;
    while i < args.len()
        invariant
            i <= args@.len(),
            args@.len() == scheme.inputs@.len(),
            plain == plain_scheme_applies(args@, *scheme),
            state.next() == old(state).next(),
            forall|n: Seq<char>| #[trigger] mapping_lookup(mapping@, n) == first_var_arg(scheme.inputs@, args@, n, i as nat),
            local@.len() <= i,
            forall|t: int| 0 <= t < local@.len() ==> (#[trigger] local@[t]) is Equal,
        decreases args@.len() - i,
    {
        let ghost before = mapping@;
        let arg = &args[i];
        match &scheme.inputs[i] {
            PyType::Any => {},
            PyType::Var(var) => match mapping_get(&mapping, var) {
                Some(existing) => {
                    if !compatible_types(&existing, arg) {
                        return Ok(None);
                    }
                    local.push(TypeConstraint::Equal(existing, arg.copy()));
                },
                None => {
                    mapping_insert(&mut mapping, TypeVar(var.0), arg.copy());
                },
            },
            expected => {
                let expected_expr = pytype_to_typeexpr_label(expected, &mapping);
                match arg {
                    TypeExpr::Var(_) => {
                        local.push(TypeConstraint::Equal(arg.copy(), expected_expr));
                    },
                    _ => {
                        if !arg.same(&expected_expr) {
                            return Ok(None);
                        }
                    },
                }
            },
        }
        proof {
            assert forall|n: Seq<char>| #[trigger] mapping_lookup(mapping@, n) == first_var_arg(
                scheme.inputs@,
                args@,
                n,
                (i + 1) as nat,
            ) by {
                assert(mapping_lookup(before, n) == first_var_arg(scheme.inputs@, args@, n, i as nat));
            }
        }
        i = i + 1;
    }
    let ghost e = local@.len() as int;
    let mut j: usize = 0;
    while j < scheme.constraints.len()
        invariant
            j <= scheme.constraints@.len(),
            plain == plain_scheme_applies(args@, *scheme),
            plain ==> j == 0,
            state.next() >= old(state).next(),
            args@.len() == scheme.inputs@.len(),
            forall|n: Seq<char>|
                #[trigger] first_var_arg(scheme.inputs@, args@, n, scheme.inputs@.len()) is Some ==> mapping_lookup(
                    mapping@,
                    n,
                ) == first_var_arg(scheme.inputs@, args@, n, scheme.inputs@.len()),
            forall|n: Seq<char>|
                #[trigger] first_var_arg(scheme.inputs@, args@, n, scheme.inputs@.len()) is None && mapping_lookup(
                    mapping@,
                    n,
                ) is Some ==> mapping_lookup(mapping@, n)->0 is Var,
            0 <= e <= args@.len(),
            local@.len() == e + j,
            forall|t: int| 0 <= t < e ==> (#[trigger] local@[t]) is Equal,
            forall|t: int|
                0 <= t < j ==> instantiates(
                    #[trigger] scheme.constraints@[t],
                    local@[e + t].deep_view(),
                    *scheme,
                    args@,
                ),
        decreases scheme.constraints@.len() - j,
    {
        match &scheme.constraints[j] {
            Constraint::Numeric(var) => {
                let ty = match mapped_or_fresh(&mut mapping, var, state) {
                    Some(t) => t,
                    None => {
                        return Err(TypeError::TypeVariablesExhausted);
                    },
                };
                if !is_potential_numeric(&ty) {
                    return Ok(None);
                }
                local.push(TypeConstraint::Numeric(ty));
            },
            Constraint::Iterable(var) => {
                let ty = match mapped_or_fresh(&mut mapping, var, state) {
                    Some(t) => t,
                    None => {
                        return Err(TypeError::TypeVariablesExhausted);
                    },
                };
                local.push(TypeConstraint::Iterable(ty));
            },
            Constraint::Sequence(var) => {
                let ty = match mapped_or_fresh(&mut mapping, var, state) {
                    Some(t) => t,
                    None => {
                        return Err(TypeError::TypeVariablesExhausted);
                    },
                };
                local.push(TypeConstraint::Sequence(ty));
            },
            Constraint::Mapping(key, value) => {
                let key_ty = match mapped_or_fresh(&mut mapping, key, state) {
                    Some(t) => t,
                    None => {
                        return Err(TypeError::TypeVariablesExhausted);
                    },
                };
                let value_ty = match mapped_or_fresh(&mut mapping, value, state) {
                    Some(t) => t,
                    None => {
                        return Err(TypeError::TypeVariablesExhausted);
                    },
                };
                local.push(TypeConstraint::Mapping(key_ty, value_ty));
            },
        }
        j = j + 1;
    }
    let ghost mid = local@;
    let output = match output_from_scheme(&scheme.output, &mut mapping, &mut local, state) {
        Some(t) => t,
        None => {
            return Err(TypeError::TypeVariablesExhausted);
        },
    };
    let ghost recorded = local@.map_values(|c: TypeConstraint| c.deep_view());
    let mut k: usize = 0;
    while k < local.len()
        invariant
            k <= local@.len(),
            recorded == local@.map_values(|c: TypeConstraint| c.deep_view()),
            store.view() == old(store).view() + recorded.subrange(0, k as int),
        decreases local@.len() - k,
    {
        let c = copy_constraint(&local[k]);
        store.push(c);
        proof {
            assert(recorded.subrange(0, k + 1) =~= recorded.subrange(0, k as int).push(recorded[k as int]));
            assert(store.view() =~= old(store).view() + recorded.subrange(0, k + 1));
        }
        k = k + 1;
    }
    proof {
        let before = old(store).view();
        let after = store.view();
        assert(recorded.subrange(0, local@.len() as int) =~= recorded);
        assert(after.subrange(before.len() as int, after.len() as int) =~= recorded);
        let n = scheme.constraints@.len() as int;
        assert(mid.len() == e + n);
        assert forall|t: int| 0 <= t < mid.len() implies #[trigger] local@[t] == mid[t] by {
            assert(mid.is_prefix_of(local@));
        }
        assert forall|t: int| 0 <= t < e implies (#[trigger] recorded[t]) is Equal by {
            assert(local@[t] == mid[t]);
        }
        assert forall|t: int| 0 <= t < n implies instantiates(
            #[trigger] scheme.constraints@[t],
            recorded[e + t],
            *scheme,
            args@,
        ) by {
            assert(local@[e + t] == mid[e + t]);
        }
        if recorded.len() == e + n + 1 {
            assert(recorded[e + n] == local@.last().deep_view());
        }
        assert(records_instance(before, after, *scheme, args@, e));
    }
    Ok(Some(output))
}

/// The overloads of the first builtin named `name` in `table`, if any.
pub open spec fn overloads_in(table: Seq<BuiltinModel>, name: Seq<char>) -> Option<Seq<SchemeModel>>
    decreases table.len(),
{
    if table.len() == 0 {
        None
    } else if table[0].name == name {
        Some(table[0].schemes)
    } else {
        overloads_in(table.drop_first(), name)
    }
}

/// The overloads among `schemes` that take `arity` arguments, in order.
pub open spec fn with_arity(schemes: Seq<SchemeModel>, arity: nat) -> Seq<SchemeModel>
    decreases schemes.len(),
{
    if schemes.len() == 0 {
        Seq::empty()
    } else {
        (if schemes[0].inputs.len() == arity {
            seq![schemes[0]]
        } else {
            Seq::empty()
        }) + with_arity(schemes.drop_first(), arity)
    }
}

/// The overloads of the builtin `name` in the builtin table that take
/// `arity` arguments, in table order.
pub open spec fn builtin_overloads(name: Seq<char>, arity: nat) -> Seq<SchemeModel> {
    match overloads_in(builtin_table(), name) {
        Some(schemes) => with_arity(schemes, arity),
        None => Seq::empty(),
    }
}

/// The models of a list of signatures.
pub open spec fn scheme_views(s: Seq<TypeScheme>) -> Seq<SchemeModel> {
    s.map_values(|x: TypeScheme| x.deep_view())
}

/// The models of a list of types.
pub open spec fn type_models(ts: Seq<TypeExpr>) -> Seq<TypeModel> {
    ts.map_values(|t: TypeExpr| type_model(t))
}

/// An argument of type `a` passes the signature input `p` without
/// constraints: `p` is `Any`, or one of `Bool`, `Int`, `Float` and `None`
/// and `a` is that type or a type variable.
pub open spec fn accepts_plainly(p: PyTypeModel, a: TypeModel) -> bool {
    match p {
        PyTypeModel::Any => true,
        PyTypeModel::Bool => a is Var || a == TypeModel::Bool,
        PyTypeModel::Int => a is Var || a == TypeModel::Int,
        PyTypeModel::Float => a is Var || a == TypeModel::Float,
        PyTypeModel::NoneType => a is Var || a == TypeModel::Unit,
        _ => false,
    }
}

/// An overload that applies to arguments of these types on its face: one
/// input per argument, each passed plainly, no constraints and a result
/// that is not a variable.
pub open spec fn applies_plainly(s: SchemeModel, args: Seq<TypeModel>) -> bool {
    &&& s.inputs.len() == args.len()
    &&& forall|k: int| 0 <= k < args.len() ==> accepts_plainly(#[trigger] s.inputs[k], args[k])
    &&& s.constraints.len() == 0
    &&& !(s.output is Var)
}

/// A result type agrees with an overload whose result is `Bool`, `Int`,
/// `Float` or `None`.
pub open spec fn fits_output(s: SchemeModel, t: TypeModel) -> bool {
    &&& s.output is Bool ==> t == TypeModel::Bool
    &&& s.output is Int ==> t == TypeModel::Int
    &&& s.output is Float ==> t == TypeModel::Float
    &&& s.output is NoneType ==> t == TypeModel::Unit
}

/// Overload `k` is the one chosen for the arguments: the result type agrees
/// with it, and no earlier overload applies on its face.
pub open spec fn chosen_overload(overloads: Seq<SchemeModel>, args: Seq<TypeModel>, t: TypeModel, k: int) -> bool {
    &&& 0 <= k < overloads.len()
    &&& fits_output(overloads[k], t)
    &&& forall|j: int| 0 <= j < k ==> !applies_plainly(#[trigger] overloads[j], args)
}

/// `t` is the result type of the builtin `name` on arguments of these
/// types, as the first overload of the builtin table that matches gives it.
pub open spec fn builtin_result(name: Seq<char>, args: Seq<TypeModel>, t: TypeModel) -> bool {
    exists|k: int| #[trigger] chosen_overload(builtin_overloads(name, args.len()), args, t, k)
}

/// The typing of a builtin follows its first overload: when the first
/// overload for the arguments applies on its face and has a plain result,
/// the result type is that result.
pub proof fn law_first_overload_decides(name: Seq<char>, args: Seq<TypeModel>, t: TypeModel)
    requires
        builtin_result(name, args, t),
        builtin_overloads(name, args.len()).len() > 0,
        applies_plainly(builtin_overloads(name, args.len())[0], args),
    ensures
        fits_output(builtin_overloads(name, args.len())[0], t),
{
    let k = choose|k: int| #[trigger] chosen_overload(builtin_overloads(name, args.len()), args, t, k);
    if k > 0 {
        assert(!applies_plainly(builtin_overloads(name, args.len())[0], args));
    }
}

/// An overload that applies on its face, by model, applies on its face.
proof fn lemma_applies_plainly(args: Seq<TypeExpr>, scheme: TypeScheme)
    requires
        applies_plainly(scheme.deep_view(), type_models(args)),
    ensures
        plain_scheme_applies(args, scheme),
{
    assert forall|k: int| 0 <= k < args.len() implies plain_input_accepts(#[trigger] scheme.inputs@[k], args[k]) by {
        assert(accepts_plainly(scheme.deep_view().inputs[k], type_models(args)[k]));
        assert(scheme.deep_view().inputs[k] == crate::python_builtin_signatures::pytype_model(scheme.inputs@[k]));
        match args[k] {
            TypeExpr::Var(_) => {},
            _ => {},
        }
    }
    assert(!(scheme.output is Var)) by {
        if scheme.output is Var {
            assert(scheme.deep_view().output is Var);
        }
    }
}

/// The signatures of the builtin `name` that take `arity` arguments, in
/// table order; none when the table has no such builtin.
fn builtin_schemes(name: &str, arity: usize) -> (r: Vec<TypeScheme>)
    ensures
        forall|k: int| 0 <= k < r@.len() ==> (#[trigger] r@[k]).inputs@.len() == arity,
        scheme_views(r@) == builtin_overloads(name@, arity as nat),
{
    let mut table = builtin_type_signatures();
    proof {
        assert(table@.map_values(|b: BuiltinSignature| b.deep_view()) =~= builtin_table());
    }
    while table.len() > 0
        invariant
            overloads_in(table@.map_values(|b: BuiltinSignature| b.deep_view()), name@) == overloads_in(
                builtin_table(),
                name@,
            ),
        decreases table@.len(),
    {
        let ghost before = table@.map_values(|b: BuiltinSignature| b.deep_view());
        let builtin = table.remove(0);
        proof {
            assert(table@.map_values(|b: BuiltinSignature| b.deep_view()) =~= before.drop_first());
            assert(before[0] == builtin.deep_view());
        }
        if str_equal(builtin.name, name) {
            let mut schemes = builtin.schemes;
            let ghost all = scheme_views(schemes@);
            proof {
                assert(all =~= builtin.deep_view().schemes);
            }
            let mut out: Vec<TypeScheme> = Vec::new();
            proof {
                assert(scheme_views(out@) + with_arity(scheme_views(schemes@), arity as nat) =~= with_arity(
                    all,
                    arity as nat,
                ));
            }
            while schemes.len() > 0
                invariant
                    forall|k: int| 0 <= k < out@.len() ==> (#[trigger] out@[k]).inputs@.len() == arity,
                    scheme_views(out@) + with_arity(scheme_views(schemes@), arity as nat) == with_arity(
                        all,
                        arity as nat,
                    ),
                decreases schemes@.len(),
            {
                let ghost rest = scheme_views(schemes@);
                let ghost done = scheme_views(out@);
                let scheme = schemes.remove(0);
                proof {
                    assert(scheme_views(schemes@) =~= rest.drop_first());
                    assert(rest[0] == scheme.deep_view());
                    assert(scheme.deep_view().inputs.len() == scheme.inputs@.len());
                }
                if scheme.inputs.len() == arity {
                    out.push(scheme);
                    proof {
                        assert(scheme_views(out@) =~= done.push(rest[0]));
                        assert(with_arity(rest, arity as nat) == seq![rest[0]] + with_arity(rest.drop_first(), arity as nat));
                        assert(done.push(rest[0]) + with_arity(rest.drop_first(), arity as nat) =~= done + (seq![rest[0]]
                            + with_arity(rest.drop_first(), arity as nat)));
                    }
                } else {
                    proof {
                        assert(with_arity(rest, arity as nat) =~= with_arity(rest.drop_first(), arity as nat));
                    }
                }
            }
            proof {
                assert(scheme_views(schemes@) =~= Seq::<SchemeModel>::empty());
                assert(with_arity(Seq::<SchemeModel>::empty(), arity as nat) =~= Seq::<SchemeModel>::empty());
                assert(scheme_views(out@) =~= with_arity(all, arity as nat));
            }
            return out;
        }
    }
    proof {
        assert(table@.map_values(|b: BuiltinSignature| b.deep_view()) =~= Seq::<BuiltinModel>::empty());
        assert(scheme_views(Seq::<TypeScheme>::empty()) =~= Seq::<SchemeModel>::empty());
    }
    Vec::new()
}

/// The result type of the builtin `name` applied to arguments of the
/// given types: the first signature that matches, with its constraints
/// added to the store.
fn resolve_builtin_output(
    name: &str,
    args: &[TypeExpr],
    constraints: &mut ConstraintStore,
    state: &mut InferenceState,
) -> (r: Result<TypeExpr, TypeError>)
    ensures
        old(constraints).view().is_prefix_of(final(constraints).view()),
        final(state).next() >= old(state).next(),
        r matches Ok(t) ==> builtin_result(name@, type_models(args@), type_model(t)),
        match r {
            Ok(_) => true,
            Err(TypeError::UnknownBuiltin(n)) => n@ == name@ && final(constraints).view() == old(constraints).view(),
            Err(TypeError::NoMatchingSignature(n, k)) => n@ == name@ && k == args@.len() && final(constraints).view()
                == old(constraints).view(),
            Err(TypeError::TypeVariablesExhausted) => final(state).next() == usize::MAX,
            Err(_) => false,
        },
{
    let schemes = builtin_schemes(name, args.len());
    if schemes.len() == 0 {
        return Err(TypeError::UnknownBuiltin(String::from_str(name)));
    }
    let mut i: usize = 0;
    while i < schemes.len()
        invariant
            i <= schemes@.len(),
            old(constraints).view().is_prefix_of(constraints.view()),
            constraints.view() == old(constraints).view(),
            state.next() >= old(state).next(),
            scheme_views(schemes@) == builtin_overloads(name@, args@.len()),
            forall|j: int|
                0 <= j < i ==> !applies_plainly(#[trigger] scheme_views(schemes@)[j], type_models(args@)),
        decreases schemes@.len() - i,
    {
        let ghost before = constraints.view();
        let m = match_scheme_with_constraints(args, &schemes[i], constraints, state);
        match m {
            Err(e) => {
                return Err(e);
            },
            Ok(Some(output)) => {
                proof {
                    assert(old(constraints).view().is_prefix_of(constraints.view()));
                    let v = scheme_views(schemes@);
                    assert(v[i as int] == schemes@[i as int].deep_view());
                    assert(fits_output(v[i as int], type_model(output)));
                    assert(chosen_overload(v, type_models(args@), type_model(output), i as int));
                    assert(type_models(args@).len() == args@.len());
                    assert(chosen_overload(
                        builtin_overloads(name@, type_models(args@).len()),
                        type_models(args@),
                        type_model(output),
                        i as int,
                    ));
                }
                return Ok(output);
            },
            Ok(None) => {
                proof {
                    let v = scheme_views(schemes@);
                    assert(v[i as int] == schemes@[i as int].deep_view());
                    if applies_plainly(v[i as int], type_models(args@)) {
                        lemma_applies_plainly(args@, schemes@[i as int]);
                    }
                }
            },
        }
        i = i + 1;
    }
    Err(TypeError::NoMatchingSignature(String::from_str(name), args.len()))
}

/// The constraints of the first `n` trees, in order.
pub open spec fn children_constraints(ts: Seq<DeductionTree>, n: nat) -> Seq<ConstraintModel>
    decreases n,
{
    if n == 0 || n > ts.len() {
        Seq::empty()
    } else {
        children_constraints(ts, (n - 1) as nat) + ts[n - 1].constraints_view()
    }
}

/// The type of a boolean or numeric literal.
pub open spec fn literal_type(l: Literal) -> TypeModel {
    match l {
        Literal::Bool(_) => TypeModel::Bool,
        Literal::Int(_) => TypeModel::Int,
        _ => TypeModel::Float,
    }
}

/// The callee name of a call whose callee is a name.
pub open spec fn callee_name(func: PyExpr) -> Seq<char> {
    match func {
        PyExpr::Name(id) => id@,
        _ => Seq::empty(),
    }
}

/// Expressions the language has: names, boolean and numeric literals, `+`,
/// `-` and `not`, binary operations, boolean operations, comparisons of
/// two operands, and calls of named functions without keyword arguments.
pub open spec fn supported_expr(e: PyExpr) -> bool
    decreases e, 0nat,
{
    match e {
        PyExpr::Name(_) => true,
        PyExpr::Constant(l) => !(l is Other),
        PyExpr::UnaryOp(op, operand) => !(op is Invert) && supported_expr(*operand),
        PyExpr::BinOp(l, _, r) => supported_expr(*l) && supported_expr(*r),
        PyExpr::Call { func, args, has_keywords } => !has_keywords && (*func is Name) && supported_all(args@, args@.len()),
        PyExpr::BoolOp(_, values) => supported_all(values@, values@.len()),
        PyExpr::Compare(l, ops, comparators) => ops@.len() == 1 && comparators@.len() == 1 && supported_expr(*l)
            && supported_expr(comparators@[0]),
        PyExpr::Other(_) => false,
    }
}

/// The first `n` expressions are supported.
pub open spec fn supported_all(es: Seq<PyExpr>, n: nat) -> bool
    decreases es, n,
{
    if n == 0 || n > es.len() {
        true
    } else {
        supported_all(es, (n - 1) as nat) && supported_expr(es[n - 1])
    }
}

/// The node records the context, the text of the expression, the rule, the
/// shape and the number of children.
pub open spec fn node_is(
    t: DeductionTree,
    ctx: Seq<(Seq<char>, TypeModel)>,
    e: PyExpr,
    rule: Seq<char>,
    form: FormModel,
    n: nat,
) -> bool {
    &&& t.judgment_view().context_view() == ctx
    &&& t.judgment_view().expr_view() == expr_text(e)
    &&& t.rule_view() == rule
    &&& t.form_view() == form
    &&& t.children_view().len() == n
}

/// `t` is a deduction tree for the expression `e` in the context: one node
/// per subexpression, variables typed by the context, literals by their
/// kind, `not`, boolean operations and comparisons typed `Bool` over
/// operands that may be `Bool`, `+` and `-` typed as their operand, and
/// the constraints of the operands kept in order before those of the node.
pub open spec fn expr_tree(e: PyExpr, ctx: Seq<(Seq<char>, TypeModel)>, t: DeductionTree) -> bool
    decreases e, 0nat,
{
    let ch = t.children_view();
    let ty = t.judgment_view().ty_view();
    match e {
        PyExpr::Name(id) => node_is(t, ctx, e, "Var"@, FormModel::Var(id@), 0) && entries_lookup(ctx, id@) == Some(ty)
            && t.constraints_view().len() == 0,
        PyExpr::Constant(l) => node_is(t, ctx, e, "Const"@, FormModel::Const(literal_text(l)), 0) && !(l is Other)
            && ty == literal_type(l) && t.constraints_view().len() == 0,
        PyExpr::UnaryOp(op, operand) => node_is(t, ctx, e, "UnaryOp"@, FormModel::UnaryOp(unary_label(op)), 1)
            && expr_tree(*operand, ctx, ch[0]) && t.constraints_view() == ch[0].constraints_view() && !(op is Invert)
            && (op is Not ==> ty == TypeModel::Bool && potential_bool(ch[0].judgment_view().ty_view()))
            && (!(op is Not) ==> ty == ch[0].judgment_view().ty_view()),
        PyExpr::BinOp(l, op, r) => node_is(t, ctx, e, "BinOp"@, FormModel::BinOp(crate::syntax::binary_text(op)), 2)
            && expr_tree(*l, ctx, ch[0]) && expr_tree(*r, ctx, ch[1]) && children_constraints(ch, 2).is_prefix_of(
            t.constraints_view(),
        ) && builtin_result(crate::syntax::binary_text(op), child_types(ch), ty),
        PyExpr::Call { func, args, has_keywords } => node_is(
            t,
            ctx,
            e,
            "Call"@,
            FormModel::Call(callee_name(*func)),
            args@.len(),
        ) && !has_keywords && (*func is Name) && expr_trees(args@, ctx, ch, args@.len()) && children_constraints(
            ch,
            ch.len(),
        ).is_prefix_of(t.constraints_view()) && builtin_result(callee_name(*func), child_types(ch), ty),
        PyExpr::BoolOp(op, values) => node_is(
            t,
            ctx,
            e,
            "BoolOp"@,
            FormModel::BoolOp(crate::syntax::boolean_text(op)),
            values@.len(),
        ) && ty == TypeModel::Bool && expr_trees(values@, ctx, ch, values@.len()) && (forall|k: int|
            0 <= k < ch.len() ==> potential_bool(#[trigger] ch[k].judgment_view().ty_view())) && t.constraints_view()
            == children_constraints(ch, ch.len()),
        PyExpr::Compare(l, ops, comparators) => node_is(
            t,
            ctx,
            e,
            "Compare"@,
            FormModel::Compare(compare_label(ops@[0])),
            2,
        ) && ops@.len() == 1 && comparators@.len() == 1 && ty == TypeModel::Bool && expr_tree(*l, ctx, ch[0])
            && expr_tree(comparators@[0], ctx, ch[1]) && children_constraints(ch, 2).is_prefix_of(t.constraints_view()),
        PyExpr::Other(_) => false,
    }
}

/// The types of a list of deduction trees.
pub open spec fn child_types(ts: Seq<DeductionTree>) -> Seq<TypeModel> {
    ts.map_values(|t: DeductionTree| t.judgment_view().ty_view())
}

/// The types of expressions that no builtin signature decides: a name has
/// the type the context binds it to; `int`, `bool` and `float` literals
/// have those types; `not` gives `bool` and unary `+` and `-` keep the
/// operand's type; boolean operations and comparisons are `bool`.
pub proof fn law_expression_types(e: PyExpr, ctx: Seq<(Seq<char>, TypeModel)>, t: DeductionTree)
    requires
        expr_tree(e, ctx, t),
    ensures
        ({
            let ty = t.judgment_view().ty_view();
            &&& e matches PyExpr::Name(id) ==> entries_lookup(ctx, id@) == Some(ty)
            &&& e matches PyExpr::Constant(Literal::Int(_)) ==> ty == TypeModel::Int
            &&& e matches PyExpr::Constant(Literal::Bool(_)) ==> ty == TypeModel::Bool
            &&& e matches PyExpr::Constant(Literal::Float(_)) ==> ty == TypeModel::Float
            &&& e matches PyExpr::UnaryOp(UnaryOperator::Not, _) ==> ty == TypeModel::Bool
            &&& (e matches PyExpr::UnaryOp(UnaryOperator::USub, _) || e matches PyExpr::UnaryOp(UnaryOperator::UAdd, _))
                ==> t.children_view().len() == 1 && ty == t.children_view()[0].judgment_view().ty_view()
            &&& (e is BoolOp || e is Compare) ==> ty == TypeModel::Bool
        }),
{
}

/// A binary operation is typed by the overloads of its operator: its type
/// agrees with an overload for the operand types no earlier one of which
/// applies on its face; so when the first overload applies on its face,
/// the operation has that overload's result type (`1 / 2` is a `float`
/// because the first overload of `/` takes two `int`s to a `float`).
pub proof fn law_binop_typed_by_first_overload(e: PyExpr, ctx: Seq<(Seq<char>, TypeModel)>, t: DeductionTree)
    requires
        e is BinOp,
        expr_tree(e, ctx, t),
    ensures
        ({
            let name = crate::syntax::binary_text(e->BinOp_1);
            let args = child_types(t.children_view());
            let ty = t.judgment_view().ty_view();
            &&& args.len() == 2
            &&& builtin_result(name, args, ty)
            &&& builtin_overloads(name, 2).len() > 0 && applies_plainly(builtin_overloads(name, 2)[0], args)
                ==> fits_output(builtin_overloads(name, 2)[0], ty)
        }),
{
    let name = crate::syntax::binary_text(e->BinOp_1);
    let args = child_types(t.children_view());
    let ty = t.judgment_view().ty_view();
    if builtin_overloads(name, 2).len() > 0 && applies_plainly(builtin_overloads(name, 2)[0], args) {
        law_first_overload_decides(name, args, ty);
    }
}

/// The first `n` trees are deduction trees for the first `n` expressions.
pub open spec fn expr_trees(es: Seq<PyExpr>, ctx: Seq<(Seq<char>, TypeModel)>, ts: Seq<DeductionTree>, n: nat) -> bool
    decreases es, n,
{
    if n == 0 || n > es.len() {
        true
    } else {
        expr_trees(es, ctx, ts, (n - 1) as nat) && expr_tree(es[n - 1], ctx, ts[n - 1])
    }
}

/// A leaf of a deduction tree.
fn make_leaf(rule: &'static str, expr: &PyExpr, context: &Context, ty: TypeExpr, form: ExprForm) -> (r: DeductionTree)
    ensures
        r.rule_view() == rule@,
        r.judgment_view().context_view() == context.entries_model(),
        r.judgment_view().expr_view() == expr_text(*expr),
        r.judgment_view().ty_view() == type_model(ty),
        r.children_view().len() == 0,
        r.form_view() == form_model(form),
        r.constraints_view().len() == 0,
{
    let entries = context.entries();
    DeductionTree {
        rule,
        judgment: Judgment { context: ContextSnapshot(entries), expr: expr_to_string(expr), ty },
        children: Vec::new(),
        form,
        constraints: ConstraintStore::new(),
    }
}

/// An inner node of a deduction tree.
fn make_node(
    rule: &'static str,
    expr: &PyExpr,
    context: &Context,
    ty: TypeExpr,
    children: Vec<DeductionTree>,
    form: ExprForm,
    constraints: ConstraintStore,
) -> (r: DeductionTree)
    ensures
        r.rule_view() == rule@,
        r.judgment_view().context_view() == context.entries_model(),
        r.judgment_view().expr_view() == expr_text(*expr),
        r.judgment_view().ty_view() == type_model(ty),
        r.children_view() == children@,
        r.form_view() == form_model(form),
        r.constraints_view() == constraints.view(),
{
    let entries = context.entries();
    DeductionTree {
        rule,
        judgment: Judgment { context: ContextSnapshot(entries), expr: expr_to_string(expr), ty },
        children,
        form,
        constraints,
    }
}

/// The constraints of the children, in order.
fn merge_child_constraints(children: &Vec<DeductionTree>) -> (r: ConstraintStore)
    ensures
        r.view() == children_constraints(children@, children@.len()),
{
    let mut store = ConstraintStore::new();
    let mut i: usize = 0;
    while i < children.len()
        invariant
            i <= children@.len(),
            store.view() == children_constraints(children@, i as nat),
        decreases children@.len() - i,
    {
        store.extend(&children[i].constraints);
        i = i + 1;
    }
    store
}

/// The recursive predicates on the first `n` trees only read those trees.
proof fn lemma_trees_prefix(
    es: Seq<PyExpr>,
    ctx: Seq<(Seq<char>, TypeModel)>,
    ts1: Seq<DeductionTree>,
    ts2: Seq<DeductionTree>,
    n: nat,
)
    requires
        n <= ts1.len(),
        n <= ts2.len(),
        forall|k: int| 0 <= k < n ==> ts1[k] == ts2[k],
    ensures
        expr_trees(es, ctx, ts1, n) == expr_trees(es, ctx, ts2, n),
        children_constraints(ts1, n) == children_constraints(ts2, n),
    decreases n,
{
    if n > 0 {
        lemma_trees_prefix(es, ctx, ts1, ts2, (n - 1) as nat);
    }
}

impl ConstraintStore {
    /// A copy of the store.
    pub fn duplicate(&self) -> (r: ConstraintStore)
        ensures
            r.view() == self.view(),
    {
        let mut r = ConstraintStore::new();
        r.extend(self);
        proof {
            assert(r.view() =~= self.view());
        }
        r
    }
}

/// The type of an expression built only from names the context binds,
/// boolean and numeric literals, `+`, `-`, `not` and boolean operations,
/// whose `not` and boolean operations apply to operands that may be
/// `Bool`; `None` for any other expression. Typing such an expression
/// consults no builtin signature.
pub open spec fn plain_expr_type(e: PyExpr, ctx: Seq<(Seq<char>, TypeModel)>) -> Option<TypeModel>
    decreases e, 0nat,
{
    match e {
        PyExpr::Name(id) => entries_lookup(ctx, id@),
        PyExpr::Constant(l) => if l is Other {
            None
        } else {
            Some(literal_type(l))
        },
        PyExpr::UnaryOp(op, operand) => if op is Invert {
            None
        } else {
            match plain_expr_type(*operand, ctx) {
                Some(t) => if op is Not {
                    if potential_bool(t) {
                        Some(TypeModel::Bool)
                    } else {
                        None
                    }
                } else {
                    Some(t)
                },
                None => None,
            }
        },
        PyExpr::BoolOp(_, values) => if plain_bools(values@, ctx, values@.len()) {
            Some(TypeModel::Bool)
        } else {
            None
        },
        _ => None,
    }
}

/// The first `n` expressions have plain types that may be `Bool`.
pub open spec fn plain_bools(es: Seq<PyExpr>, ctx: Seq<(Seq<char>, TypeModel)>, n: nat) -> bool
    decreases es, n,
{
    if n == 0 || n > es.len() {
        true
    } else {
        plain_bools(es, ctx, (n - 1) as nat) && (plain_expr_type(es[n - 1], ctx) matches Some(t) && potential_bool(t))
    }
}

proof fn lemma_plain_bools(es: Seq<PyExpr>, ctx: Seq<(Seq<char>, TypeModel)>, n: nat, k: int)
    requires
        plain_bools(es, ctx, n),
        n <= es.len(),
        0 <= k < n,
    ensures
        plain_expr_type(es[k], ctx) matches Some(t) && potential_bool(t),
    decreases n,
{
    if k < n - 1 {
        lemma_plain_bools(es, ctx, (n - 1) as nat, k);
    }
}

/// Infers the type of an expression in a context.
fn infer_expr(expr: &PyExpr, context: &Context, state: &mut InferenceState) -> (r: Result<DeductionTree, TypeError>)
    ensures
        r is Ok ==> expr_tree(*expr, context.entries_model(), r->Ok_0),
        !supported_expr(*expr) ==> r is Err,
        plain_expr_type(*expr, context.entries_model()) matches Some(t) ==> (r matches Ok(tree)
            && tree.judgment_view().ty_view() == t),
    decreases expr,
{
    match expr {
        PyExpr::Name(id) => match context.get(id.as_str()) {
            None => Err(TypeError::UnboundVariable(id.clone())),
            Some(ty) => Ok(make_leaf("Var", expr, context, ty.copy(), ExprForm::Var(id.clone()))),
        },
        PyExpr::Constant(c) => {
            let ty = match c {
                Literal::Bool(_) => TypeExpr::Bool,
                Literal::Int(_) => TypeExpr::Int,
                Literal::Float(_) => TypeExpr::Float,
                Literal::Other(text) => {
                    return Err(TypeError::UnsupportedLiteral(text.clone()));
                },
            };
            Ok(make_leaf("Const", expr, context, ty, ExprForm::Const(literal_to_string(c))))
        },
        PyExpr::UnaryOp(op, operand) => {
            if let UnaryOperator::Invert = op {
                return Err(TypeError::UnsupportedUnaryOperator);
            }
            let child = match infer_expr(operand, context, state) {
                Ok(t) => t,
                Err(e) => {
                    return Err(e);
                },
            };
            let ty = if let UnaryOperator::Not = op {
                if !is_potential_bool(&child.judgment.ty) {
                    return Err(TypeError::ExpectedBool(child.judgment.ty.copy()));
                }
                TypeExpr::Bool
            } else {
                child.judgment.ty.copy()
            };
            let constraints = child.constraints.duplicate();
            let mut children: Vec<DeductionTree> = Vec::new();
            children.push(child);
            Ok(make_node("UnaryOp", expr, context, ty, children, ExprForm::UnaryOp(unary_op_label(*op)), constraints))
        },
        PyExpr::BinOp(l, op, r) => {
            let left = match infer_expr(l, context, state) {
                Ok(t) => t,
                Err(e) => {
                    return Err(e);
                },
            };
            let right = match infer_expr(r, context, state) {
                Ok(t) => t,
                Err(e) => {
                    return Err(e);
                },
            };
            let label = binop_label(*op);
            let mut arg_types: Vec<TypeExpr> = Vec::new();
            arg_types.push(left.judgment.ty.copy());
            arg_types.push(right.judgment.ty.copy());
            let mut children: Vec<DeductionTree> = Vec::new();
            children.push(left);
            children.push(right);
            let mut constraints = merge_child_constraints(&children);
            let ty = match resolve_builtin_output(label.as_str(), arg_types.as_slice(), &mut constraints, state) {
                Ok(t) => t,
                Err(e) => {
                    return Err(e);
                },
            };
            proof {
                assert(type_models(arg_types@) =~= child_types(children@));
            }
            Ok(make_node("BinOp", expr, context, ty, children, ExprForm::BinOp(label), constraints))
        },
        PyExpr::Call { func, args, has_keywords } => {
            if *has_keywords {
                return Err(TypeError::KeywordArguments);
            }
            let name = match &**func {
                PyExpr::Name(id) => id.clone(),
                _ => {
                    return Err(TypeError::UnsupportedCallTarget);
                },
            };
            let mut children: Vec<DeductionTree> = Vec::new();
            let mut arg_types: Vec<TypeExpr> = Vec::new();
            let mut i: usize = 0;
            while i < args.len()
                invariant
                    i <= args@.len(),
                    *expr == (PyExpr::Call { func: *func, args: *args, has_keywords: *has_keywords }),
                    children@.len() == i,
                    expr_trees(args@, context.entries_model(), children@, i as nat),
                    supported_all(args@, i as nat),
                    type_models(arg_types@) == child_types(children@),
                decreases args@.len() - i,
            {
                proof {
                    assert(decreases_to!(*expr => (*expr)->Call_args));
                    assert(decreases_to!(*expr => args@[i as int]));
                }
                let child = match infer_expr(&args[i], context, state) {
                    Ok(t) => t,
                    Err(e) => {
                        return Err(e);
                    },
                };
                let ghost before_types = arg_types@;
                arg_types.push(child.judgment.ty.copy());
                let ghost before = children@;
                children.push(child);
                proof {
                    assert(type_models(arg_types@) =~= type_models(before_types).push(type_model(arg_types@.last())));
                    assert(child_types(children@) =~= child_types(before).push(children@.last().judgment_view().ty_view()));
                    lemma_trees_prefix(args@, context.entries_model(), before, children@, i as nat);
                }
                i = i + 1;
            }
            let mut constraints = merge_child_constraints(&children);
            let ty = match resolve_builtin_output(name.as_str(), arg_types.as_slice(), &mut constraints, state) {
                Ok(t) => t,
                Err(e) => {
                    return Err(e);
                },
            };
            Ok(make_node("Call", expr, context, ty, children, ExprForm::Call(name), constraints))
        },
        PyExpr::BoolOp(op, values) => {
            let mut children: Vec<DeductionTree> = Vec::new();
            let mut i: usize = 0;
            while i < values.len()
                invariant
                    i <= values@.len(),
                    *expr == PyExpr::BoolOp(*op, *values),
                    children@.len() == i,
                    expr_trees(values@, context.entries_model(), children@, i as nat),
                    supported_all(values@, i as nat),
                    forall|k: int| 0 <= k < i ==> potential_bool(#[trigger] children@[k].judgment_view().ty_view()),
                decreases values@.len() - i,
            {
                proof {
                    if plain_bools(values@, context.entries_model(), values@.len()) {
                        lemma_plain_bools(values@, context.entries_model(), values@.len(), i as int);
                    }
                }
                proof {
                    assert(decreases_to!(*expr => (*expr)->BoolOp_1));
                    assert(decreases_to!(*expr => values@[i as int]));
                }
                let child = match infer_expr(&values[i], context, state) {
                    Ok(t) => t,
                    Err(e) => {
                        return Err(e);
                    },
                };
                if !is_potential_bool(&child.judgment.ty) {
                    return Err(TypeError::ExpectedBool(child.judgment.ty.copy()));
                }
                let ghost before = children@;
                children.push(child);
                proof {
                    lemma_trees_prefix(values@, context.entries_model(), before, children@, i as nat);
                }
                i = i + 1;
            }
            let constraints = merge_child_constraints(&children);
            Ok(make_node("BoolOp", expr, context, TypeExpr::Bool, children, ExprForm::BoolOp(bool_op_label(*op)), constraints))
        },
        PyExpr::Compare(l, ops, comparators) => {
            if ops.len() != 1 || comparators.len() != 1 {
                return Err(TypeError::ChainedComparison);
            }
            let left = match infer_expr(l, context, state) {
                Ok(t) => t,
                Err(e) => {
                    return Err(e);
                },
            };
            proof {
                assert(decreases_to!(*expr => (*expr)->Compare_2));
                assert(decreases_to!(*expr => comparators@[0]));
            }
            let right = match infer_expr(&comparators[0], context, state) {
                Ok(t) => t,
                Err(e) => {
                    return Err(e);
                },
            };
            let label = compare_op_label(ops[0]);
            let mut arg_types: Vec<TypeExpr> = Vec::new();
            arg_types.push(left.judgment.ty.copy());
            arg_types.push(right.judgment.ty.copy());
            let mut children: Vec<DeductionTree> = Vec::new();
            children.push(left);
            children.push(right);
            let mut constraints = merge_child_constraints(&children);
            let output = match resolve_builtin_output(label.as_str(), arg_types.as_slice(), &mut constraints, state) {
                Ok(t) => t,
                Err(e) => {
                    return Err(e);
                },
            };
            if !is_potential_bool(&output) {
                return Err(TypeError::ExpectedBool(output));
            }
            Ok(make_node("Compare", expr, context, TypeExpr::Bool, children, ExprForm::Compare(label), constraints))
        },
        PyExpr::Other(text) => Err(TypeError::UnsupportedExpression(text.clone())),
    }
}

/// `t` is a deduction tree for a relation of a predicate: a call of a
/// named predicate or a comparison of two operands, typed `Bool`, over
/// deduction trees of its argument expressions.
pub open spec fn relation_tree(e: PyExpr, ctx: Seq<(Seq<char>, TypeModel)>, t: DeductionTree) -> bool {
    let ch = t.children_view();
    t.judgment_view().ty_view() == TypeModel::Bool && match e {
        PyExpr::Call { func, args, has_keywords } => node_is(
            t,
            ctx,
            e,
            "PredCall"@,
            FormModel::Call(callee_name(*func)),
            args@.len(),
        ) && !has_keywords && (*func is Name) && expr_trees(args@, ctx, ch, args@.len()) && children_constraints(
            ch,
            ch.len(),
        ).is_prefix_of(t.constraints_view()) && (exists|u: TypeModel|
            #[trigger] builtin_result(callee_name(*func), child_types(ch), u) && potential_bool(u)),
        PyExpr::Compare(l, ops, comparators) => ops@.len() == 1 && comparators@.len() == 1 && node_is(
            t,
            ctx,
            e,
            "PredCompare"@,
            FormModel::Compare(compare_label(ops@[0])),
            2,
        ) && expr_tree(*l, ctx, ch[0]) && expr_tree(comparators@[0], ctx, ch[1]) && children_constraints(
            ch,
            2,
        ).is_prefix_of(t.constraints_view()),
        _ => false,
    }
}

/// `t` is a deduction tree for the predicate `e`: `True` and `False`, the
/// negation of a relation, relations, and `and` and `or` of predicates,
/// every node typed `Bool`.
pub open spec fn pred_tree(e: PyExpr, ctx: Seq<(Seq<char>, TypeModel)>, t: DeductionTree) -> bool
    decreases e, 0nat,
{
    let ch = t.children_view();
    t.judgment_view().ty_view() == TypeModel::Bool && match e {
        PyExpr::UnaryOp(op, operand) => (op is Not) && node_is(t, ctx, e, "PredBar"@, FormModel::UnaryOp("not"@), 1)
            && relation_tree(*operand, ctx, ch[0]) && t.constraints_view() == ch[0].constraints_view(),
        PyExpr::BoolOp(op, values) => node_is(
            t,
            ctx,
            e,
            "PredBoolOp"@,
            FormModel::BoolOp(crate::syntax::boolean_text(op)),
            values@.len(),
        ) && pred_trees(values@, ctx, ch, values@.len()) && t.constraints_view() == children_constraints(ch, ch.len()),
        PyExpr::Call { .. } => relation_tree(e, ctx, t),
        PyExpr::Compare(..) => relation_tree(e, ctx, t),
        PyExpr::Constant(Literal::Bool(v)) => node_is(t, ctx, e, "PredConst"@, FormModel::Const(predicate_const_text(v)), 0)
            && t.constraints_view().len() == 0,
        _ => false,
    }
}

/// The first `n` trees are deduction trees for the first `n` predicates.
pub open spec fn pred_trees(es: Seq<PyExpr>, ctx: Seq<(Seq<char>, TypeModel)>, ts: Seq<DeductionTree>, n: nat) -> bool
    decreases es, n,
{
    if n == 0 || n > es.len() {
        true
    } else {
        pred_trees(es, ctx, ts, (n - 1) as nat) && pred_tree(es[n - 1], ctx, ts[n - 1])
    }
}

proof fn lemma_pred_trees_prefix(
    es: Seq<PyExpr>,
    ctx: Seq<(Seq<char>, TypeModel)>,
    ts1: Seq<DeductionTree>,
    ts2: Seq<DeductionTree>,
    n: nat,
)
    requires
        n <= ts1.len(),
        n <= ts2.len(),
        forall|k: int| 0 <= k < n ==> ts1[k] == ts2[k],
    ensures
        pred_trees(es, ctx, ts1, n) == pred_trees(es, ctx, ts2, n),
        children_constraints(ts1, n) == children_constraints(ts2, n),
    decreases n,
{
    if n > 0 {
        lemma_pred_trees_prefix(es, ctx, ts1, ts2, (n - 1) as nat);
    }
}

/// Predicates the language has: `True`, `False`, relations, negated
/// relations, and `and` and `or` of predicates.
pub open spec fn supported_pred(e: PyExpr) -> bool
    decreases e, 0nat,
{
    match e {
        PyExpr::UnaryOp(op, operand) => (op is Not) && supported_relation(*operand),
        PyExpr::BoolOp(_, values) => supported_preds(values@, values@.len()),
        PyExpr::Call { .. } => supported_relation(e),
        PyExpr::Compare(..) => supported_relation(e),
        PyExpr::Constant(Literal::Bool(_)) => true,
        _ => false,
    }
}

/// The first `n` predicates are supported.
pub open spec fn supported_preds(es: Seq<PyExpr>, n: nat) -> bool
    decreases es, n,
{
    if n == 0 || n > es.len() {
        true
    } else {
        supported_preds(es, (n - 1) as nat) && supported_pred(es[n - 1])
    }
}

/// A relation whose syntax the language has.
pub open spec fn supported_relation(e: PyExpr) -> bool {
    (e is Call || e is Compare) && supported_expr(e)
}

/// Infers a relation of a predicate: a call or a comparison.
fn infer_predicate_relation(expr: &PyExpr, context: &Context, state: &mut InferenceState) -> (r: Result<
    DeductionTree,
    TypeError,
>)
    ensures
        r is Ok ==> relation_tree(*expr, context.entries_model(), r->Ok_0),
        !supported_relation(*expr) ==> r is Err,
{
    match expr {
        PyExpr::Call { func, args, has_keywords } => infer_predicate_call(expr, context, state),
        PyExpr::Compare(..) => infer_predicate_compare(expr, context, state),
        _ => Err(TypeError::UnsupportedExpression(expr_to_string(expr))),
    }
}

/// Infers a comparison used as a predicate.
fn infer_predicate_compare(expr: &PyExpr, context: &Context, state: &mut InferenceState) -> (r: Result<
    DeductionTree,
    TypeError,
>)
    requires
        expr is Compare,
    ensures
        r is Ok ==> relation_tree(*expr, context.entries_model(), r->Ok_0),
        !supported_relation(*expr) ==> r is Err,
{
    let whole = infer_expr(expr, context, state);
    match whole {
        Err(e) => Err(e),
        Ok(tree) => {
            let DeductionTree { rule, judgment, children, form, constraints } = tree;
            Ok(DeductionTree { rule: "PredCompare", judgment, children, form, constraints })
        },
    }
}

/// Infers a call of a named predicate; its result must be able to be
/// `Bool`.
fn infer_predicate_call(expr: &PyExpr, context: &Context, state: &mut InferenceState) -> (r: Result<
    DeductionTree,
    TypeError,
>)
    requires
        expr is Call,
    ensures
        r is Ok ==> relation_tree(*expr, context.entries_model(), r->Ok_0),
        !supported_relation(*expr) ==> r is Err,
{
    let whole = infer_expr(expr, context, state);
    match whole {
        Err(e) => Err(e),
        Ok(tree) => {
            if !is_potential_bool(&tree.judgment.ty) {
                return Err(TypeError::ExpectedBool(tree.judgment.ty.copy()));
            }
            let DeductionTree { rule, judgment, children, form, constraints } = tree;
            let Judgment { context: snapshot, expr: text, ty } = judgment;
            Ok(
                DeductionTree {
                    rule: "PredCall",
                    judgment: Judgment { context: snapshot, expr: text, ty: TypeExpr::Bool },
                    children,
                    form,
                    constraints,
                },
            )
        },
    }
}

/// A predicate made of `True` and `False` joined by `and` and `or`: one
/// that types without consulting a builtin signature.
pub open spec fn plain_pred(e: PyExpr) -> bool
    decreases e, 0nat,
{
    match e {
        PyExpr::Constant(Literal::Bool(_)) => true,
        PyExpr::BoolOp(_, values) => plain_preds(values@, values@.len()),
        _ => false,
    }
}

/// The first `k` predicates are plain.
pub open spec fn plain_preds(es: Seq<PyExpr>, k: nat) -> bool
    decreases es, k,
{
    if k == 0 || k > es.len() {
        true
    } else {
        plain_preds(es, (k - 1) as nat) && plain_pred(es[k - 1])
    }
}

proof fn lemma_plain_preds(es: Seq<PyExpr>, k: nat, i: int)
    requires
        plain_preds(es, k),
        k <= es.len(),
        0 <= i < k,
    ensures
        plain_pred(es[i]),
    decreases k,
{
    if i < k - 1 {
        lemma_plain_preds(es, (k - 1) as nat, i);
    }
}

/// A plain predicate reads no variable and holds no call.
proof fn lemma_plain_pred_closed(e: PyExpr)
    requires
        plain_pred(e),
    ensures
        name_count(e) == 0,
        !has_keyword_call(e),
    decreases e, 0nat,
{
    match e {
        PyExpr::BoolOp(_, values) => lemma_plain_preds_closed(values@, values@.len()),
        _ => {},
    }
}

proof fn lemma_plain_preds_closed(es: Seq<PyExpr>, k: nat)
    requires
        plain_preds(es, k),
        k <= es.len(),
    ensures
        name_count_any(es, k) == 0,
        !keyword_call_any(es, k),
    decreases es, k,
{
    if k > 0 {
        lemma_plain_preds_closed(es, (k - 1) as nat);
        lemma_plain_pred_closed(es[k - 1]);
    }
}

/// Infers a predicate in a context.
fn infer_predicate_expr(expr: &PyExpr, context: &Context, state: &mut InferenceState) -> (r: Result<
    DeductionTree,
    TypeError,
>)
    ensures
        r is Ok ==> pred_tree(*expr, context.entries_model(), r->Ok_0),
        !supported_pred(*expr) ==> r is Err,
        plain_pred(*expr) ==> r is Ok,
    decreases expr,
{
    match expr {
        PyExpr::UnaryOp(op, operand) => {
            if let UnaryOperator::Not = op {
                let child = match infer_predicate_relation(operand, context, state) {
                    Ok(t) => t,
                    Err(e) => {
                        return Err(e);
                    },
                };
                let constraints = child.constraints.duplicate();
                let mut children: Vec<DeductionTree> = Vec::new();
                children.push(child);
                Ok(
                    make_node(
                        "PredBar",
                        expr,
                        context,
                        TypeExpr::Bool,
                        children,
                        ExprForm::UnaryOp(String::from_str("not")),
                        constraints,
                    ),
                )
            } else {
                Err(TypeError::UnsupportedUnaryOperator)
            }
        },
        PyExpr::BoolOp(op, values) => {
            let mut children: Vec<DeductionTree> = Vec::new();
            let mut i: usize = 0;
            while i < values.len()
                invariant
                    i <= values@.len(),
                    *expr == PyExpr::BoolOp(*op, *values),
                    children@.len() == i,
                    pred_trees(values@, context.entries_model(), children@, i as nat),
                    supported_preds(values@, i as nat),
                decreases values@.len() - i,
            {
                proof {
                    if plain_preds(values@, values@.len()) {
                        lemma_plain_preds(values@, values@.len(), i as int);
                    }
                }
                proof {
                    assert(decreases_to!(*expr => (*expr)->BoolOp_1));
                    assert(decreases_to!(*expr => values@[i as int]));
                }
                let child = match infer_predicate_expr(&values[i], context, state) {
                    Ok(t) => t,
                    Err(e) => {
                        return Err(e);
                    },
                };
                if !is_bool_type(&child.judgment.ty) {
                    return Err(TypeError::ExpectedBool(child.judgment.ty.copy()));
                }
                let ghost before = children@;
                children.push(child);
                proof {
                    lemma_pred_trees_prefix(values@, context.entries_model(), before, children@, i as nat);
                }
                i = i + 1;
            }
            let constraints = merge_child_constraints(&children);
            Ok(
                make_node(
                    "PredBoolOp",
                    expr,
                    context,
                    TypeExpr::Bool,
                    children,
                    ExprForm::BoolOp(bool_op_label(*op)),
                    constraints,
                ),
            )
        },
        PyExpr::Call { .. } => infer_predicate_call(expr, context, state),
        PyExpr::Compare(..) => infer_predicate_compare(expr, context, state),
        PyExpr::Constant(c) => match c {
            Literal::Bool(value) => Ok(
                make_leaf("PredConst", expr, context, TypeExpr::Bool, ExprForm::Const(predicate_const_label(*value))),
            ),
            _ => Err(TypeError::UnsupportedLiteral(literal_to_string(c))),
        },
        _ => Err(TypeError::UnsupportedExpression(expr_to_string(expr))),
    }
}

fn is_bool_type(t: &TypeExpr) -> (r: bool)
    ensures
        r == (type_model(*t) == TypeModel::Bool),
{
    match t {
        TypeExpr::Bool => true,
        _ => false,
    }
}

/// The expression reads the variable `n`: as a name, or inside an
/// operand, an operation, a comparison or an argument of a call (the
/// callee itself is not read).
pub open spec fn reads_name(e: PyExpr, n: Seq<char>) -> bool
    decreases e, 0nat,
{
    match e {
        PyExpr::Name(id) => id@ == n,
        PyExpr::UnaryOp(_, operand) => reads_name(*operand, n),
        PyExpr::BinOp(l, _, r) => reads_name(*l, n) || reads_name(*r, n),
        PyExpr::BoolOp(_, values) => reads_any(values@, n, values@.len()),
        PyExpr::Compare(l, _, comparators) => reads_name(*l, n) || reads_any(comparators@, n, comparators@.len()),
        PyExpr::Call { args, .. } => reads_any(args@, n, args@.len()),
        _ => false,
    }
}

/// One of the first `k` expressions reads the variable `n`.
pub open spec fn reads_any(es: Seq<PyExpr>, n: Seq<char>, k: nat) -> bool
    decreases es, k,
{
    if k == 0 || k > es.len() {
        false
    } else {
        reads_any(es, n, (k - 1) as nat) || reads_name(es[k - 1], n)
    }
}

/// The expression holds a call with keyword arguments.
pub open spec fn has_keyword_call(e: PyExpr) -> bool
    decreases e, 0nat,
{
    match e {
        PyExpr::UnaryOp(_, operand) => has_keyword_call(*operand),
        PyExpr::BinOp(l, _, r) => has_keyword_call(*l) || has_keyword_call(*r),
        PyExpr::BoolOp(_, values) => keyword_call_any(values@, values@.len()),
        PyExpr::Compare(l, _, comparators) => has_keyword_call(*l) || keyword_call_any(
            comparators@,
            comparators@.len(),
        ),
        PyExpr::Call { args, has_keywords, .. } => has_keywords || keyword_call_any(args@, args@.len()),
        _ => false,
    }
}

/// One of the first `k` expressions holds a call with keyword arguments.
pub open spec fn keyword_call_any(es: Seq<PyExpr>, k: nat) -> bool
    decreases es, k,
{
    if k == 0 || k > es.len() {
        false
    } else {
        keyword_call_any(es, (k - 1) as nat) || has_keyword_call(es[k - 1])
    }
}

/// The number of places where the expression reads a variable.
pub open spec fn name_count(e: PyExpr) -> nat
    decreases e, 0nat,
{
    match e {
        PyExpr::Name(_) => 1,
        PyExpr::UnaryOp(_, operand) => name_count(*operand),
        PyExpr::BinOp(l, _, r) => name_count(*l) + name_count(*r),
        PyExpr::BoolOp(_, values) => name_count_any(values@, values@.len()),
        PyExpr::Compare(l, _, comparators) => name_count(*l) + name_count_any(comparators@, comparators@.len()),
        PyExpr::Call { args, .. } => name_count_any(args@, args@.len()),
        _ => 0,
    }
}

/// The number of places where the first `k` expressions read a variable.
pub open spec fn name_count_any(es: Seq<PyExpr>, k: nat) -> nat
    decreases es, k,
{
    if k == 0 || k > es.len() {
        0
    } else {
        name_count_any(es, (k - 1) as nat) + name_count(es[k - 1])
    }
}

/// Every entry binds its name to a type variable.
pub open spec fn all_var_entries(es: Seq<(Seq<char>, TypeModel)>) -> bool {
    forall|k: int| 0 <= k < es.len() ==> #[trigger] es[k].1 is Var
}

proof fn lemma_name_count_any(es: Seq<PyExpr>, i: nat, k: nat)
    requires
        i <= k <= es.len(),
    ensures
        name_count_any(es, i) <= name_count_any(es, k),
    decreases k,
{
    if i < k {
        lemma_name_count_any(es, i, (k - 1) as nat);
    }
}

proof fn lemma_keyword_call_any(es: Seq<PyExpr>, i: int, k: nat)
    requires
        0 <= i < k <= es.len(),
        has_keyword_call(es[i]),
    ensures
        keyword_call_any(es, k),
    decreases k,
{
    if i < k - 1 {
        lemma_keyword_call_any(es, i, (k - 1) as nat);
    }
}

/// Binds every variable the expression reads that the context does not
/// bind yet to a fresh type variable, in order of first use; bindings
/// already there are kept. Fails on keyword arguments, or when type
/// variables run out.
pub fn collect_free_vars(expr: &PyExpr, context: &mut Context) -> (r: Result<(), TypeError>)
    ensures
        forall|n: Seq<char>| #[trigger] old(context).lookup(n) is Some ==> final(context).lookup(n) == old(
            context,
        ).lookup(n),
        r is Ok ==> forall|n: Seq<char>| #[trigger] reads_name(*expr, n) ==> final(context).lookup(n) is Some,
        r matches Err(e) ==> (e is KeywordArguments && has_keyword_call(*expr)) || (e is TypeVariablesExhausted
            && final(context).next_var_spec() == usize::MAX && old(context).next_var_spec() + name_count(*expr)
            > usize::MAX),
        !has_keyword_call(*expr) && old(context).next_var_spec() + name_count(*expr) <= usize::MAX ==> r is Ok,
        old(context).next_var_spec() <= final(context).next_var_spec(),
        final(context).next_var_spec() <= old(context).next_var_spec() + name_count(*expr),
        all_var_entries(old(context).entries_model()) ==> all_var_entries(final(context).entries_model()),
    decreases expr,
{
    match expr {
        PyExpr::Name(id) => {
            if context.get(id.as_str()).is_none() && context.next_var_value() == usize::MAX {
                return Err(TypeError::TypeVariablesExhausted);
            }
            let ghost before = *context;
            let v = context.get_or_insert_var(id.as_str());
            proof {
                if all_var_entries(before.entries_model()) && before.lookup(id@) is None {
                    let entry = (id@, type_model(v));
                    let p = choose|p: int|
                        0 <= p <= before.entries_model().len() && context.entries_model() == before.entries_model().insert(
                            p,
                            entry,
                        );
                    assert forall|k: int| 0 <= k < context.entries_model().len() implies #[trigger] context.entries_model()[k].1 is Var by {
                        if k < p {
                            assert(context.entries_model()[k] == before.entries_model()[k]);
                        } else if k > p {
                            assert(context.entries_model()[k] == before.entries_model()[k - 1]);
                        }
                    }
                }
                assert forall|n: Seq<char>| #[trigger] reads_name(*expr, n) implies context.lookup(n) is Some by {
                    assert(n == id@);
                }
            }
            Ok(())
        },
        PyExpr::Constant(_) => Ok(()),
        PyExpr::UnaryOp(_, operand) => {
            let a = collect_free_vars(operand, context);
            proof {
                if a is Ok {
                    assert forall|n: Seq<char>| #[trigger] reads_name(*expr, n) implies context.lookup(n) is Some by {
                        assert(reads_name(**operand, n));
                    }
                }
            }
            a
        },
        PyExpr::BinOp(l, _, r) => {
            let a = collect_free_vars(l, context);
            if a.is_err() {
                return a;
            }
            let ghost mid = *context;
            let b = collect_free_vars(r, context);
            proof {
                if b is Ok {
                    assert forall|n: Seq<char>| #[trigger] reads_name(*expr, n) implies context.lookup(n) is Some by {
                        if reads_name(**l, n) {
                            assert(mid.lookup(n) is Some);
                        } else {
                            assert(reads_name(**r, n));
                        }
                    }
                }
            }
            b
        },
        PyExpr::BoolOp(op, values) => {
            let mut i: usize = 0;
            while i < values.len()
                invariant
                    i <= values@.len(),
                    *expr == PyExpr::BoolOp(*op, *values),
                    forall|n: Seq<char>| #[trigger] old(context).lookup(n) is Some ==> context.lookup(n) == old(
                        context,
                    ).lookup(n),
                    forall|n: Seq<char>| #[trigger] reads_any(values@, n, i as nat) ==> context.lookup(n) is Some,
                    old(context).next_var_spec() <= context.next_var_spec(),
                    context.next_var_spec() <= old(context).next_var_spec() + name_count_any(values@, i as nat),
                    all_var_entries(old(context).entries_model()) ==> all_var_entries(context.entries_model()),
                decreases values@.len() - i,
            {
                proof {
                    assert(decreases_to!(*expr => (*expr)->BoolOp_1));
                    assert(decreases_to!(*expr => values@[i as int]));
                }
                let ghost before = *context;
                let a = collect_free_vars(&values[i], context);
                if a.is_err() {
                    proof {
                        if a->Err_0 is KeywordArguments {
                            lemma_keyword_call_any(values@, i as int, values@.len());
                        }
                        {
                            lemma_name_count_any(values@, (i + 1) as nat, values@.len());
                            assert(name_count_any(values@, (i + 1) as nat) == name_count_any(values@, i as nat) + name_count(
                                values@[i as int],
                            ));
                        }
                    }
                    return a;
                }
                let ghost j: nat = i as nat;
                i = i + 1;
                proof {
                    assert forall|n: Seq<char>| #[trigger] reads_any(values@, n, i as nat) implies context.lookup(
                        n,
                    ) is Some by {
                        assert(i as nat == j + 1);
                        assert(name_count_any(values@, i as nat) == name_count_any(values@, j) + name_count(values@[j as int]));
                        assert(reads_any(values@, n, i as nat) == (reads_any(values@, n, j) || reads_name(
                            values@[j as int],
                            n,
                        )));
                        if reads_any(values@, n, j) {
                            assert(before.lookup(n) is Some);
                        } else {
                            assert(reads_name(values@[j as int], n));
                        }
                    }
                }
            }
            proof {
                assert forall|n: Seq<char>| #[trigger] reads_name(*expr, n) implies context.lookup(n) is Some by {
                    assert(reads_any(values@, n, i as nat));
                }
            }
            Ok(())
        },
        PyExpr::Compare(l, ops, comparators) => {
            let a = collect_free_vars(l, context);
            if a.is_err() {
                return a;
            }
            let mut i: usize = 0;
            while i < comparators.len()
                invariant
                    i <= comparators@.len(),
                    *expr == PyExpr::Compare(*l, *ops, *comparators),
                    forall|n: Seq<char>| #[trigger] old(context).lookup(n) is Some ==> context.lookup(n) == old(
                        context,
                    ).lookup(n),
                    forall|n: Seq<char>| #[trigger] reads_name(**l, n) ==> context.lookup(n) is Some,
                    forall|n: Seq<char>| #[trigger] reads_any(comparators@, n, i as nat) ==> context.lookup(n) is Some,
                    old(context).next_var_spec() <= context.next_var_spec(),
                    context.next_var_spec() <= old(context).next_var_spec() + name_count(**l) + name_count_any(comparators@, i as nat),
                    all_var_entries(old(context).entries_model()) ==> all_var_entries(context.entries_model()),
                decreases comparators@.len() - i,
            {
                proof {
                    assert(decreases_to!(*expr => (*expr)->Compare_2));
                    assert(decreases_to!(*expr => comparators@[i as int]));
                }
                let ghost before = *context;
                let a = collect_free_vars(&comparators[i], context);
                if a.is_err() {
                    proof {
                        if a->Err_0 is KeywordArguments {
                            lemma_keyword_call_any(comparators@, i as int, comparators@.len());
                        }
                        {
                            lemma_name_count_any(comparators@, (i + 1) as nat, comparators@.len());
                            assert(name_count_any(comparators@, (i + 1) as nat) == name_count_any(comparators@, i as nat) + name_count(
                                comparators@[i as int],
                            ));
                        }
                    }
                    return a;
                }
                let ghost j: nat = i as nat;
                i = i + 1;
                proof {
                    assert forall|n: Seq<char>| #[trigger] reads_any(comparators@, n, i as nat) implies context.lookup(
                        n,
                    ) is Some by {
                        assert(i as nat == j + 1);
                        assert(name_count_any(comparators@, i as nat) == name_count_any(comparators@, j) + name_count(comparators@[j as int]));
                        assert(reads_any(comparators@, n, i as nat) == (reads_any(comparators@, n, j) || reads_name(
                            comparators@[j as int],
                            n,
                        )));
                        if reads_any(comparators@, n, j) {
                            assert(before.lookup(n) is Some);
                        } else {
                            assert(reads_name(comparators@[j as int], n));
                        }
                    }
                    assert forall|n: Seq<char>| #[trigger] reads_name(**l, n) implies context.lookup(n) is Some by {
                        assert(before.lookup(n) is Some);
                    }
                }
            }
            proof {
                assert forall|n: Seq<char>| #[trigger] reads_name(*expr, n) implies context.lookup(n) is Some by {
                    if !reads_name(**l, n) {
                        assert(reads_any(comparators@, n, i as nat));
                    }
                }
            }
            Ok(())
        },
        PyExpr::Call { func, args, has_keywords } => {
            if *has_keywords {
                return Err(TypeError::KeywordArguments);
            }
            let mut i: usize = 0;
            while i < args.len()
                invariant
                    i <= args@.len(),
                    *expr == (PyExpr::Call { func: *func, args: *args, has_keywords: *has_keywords }),
                    !*has_keywords,
                    forall|n: Seq<char>| #[trigger] old(context).lookup(n) is Some ==> context.lookup(n) == old(
                        context,
                    ).lookup(n),
                    forall|n: Seq<char>| #[trigger] reads_any(args@, n, i as nat) ==> context.lookup(n) is Some,
                    old(context).next_var_spec() <= context.next_var_spec(),
                    context.next_var_spec() <= old(context).next_var_spec() + name_count_any(args@, i as nat),
                    all_var_entries(old(context).entries_model()) ==> all_var_entries(context.entries_model()),
                decreases args@.len() - i,
            {
                proof {
                    assert(decreases_to!(*expr => (*expr)->Call_args));
                    assert(decreases_to!(*expr => args@[i as int]));
                }
                let ghost before = *context;
                let a = collect_free_vars(&args[i], context);
                if a.is_err() {
                    proof {
                        if a->Err_0 is KeywordArguments {
                            lemma_keyword_call_any(args@, i as int, args@.len());
                        }
                        {
                            lemma_name_count_any(args@, (i + 1) as nat, args@.len());
                            assert(name_count_any(args@, (i + 1) as nat) == name_count_any(args@, i as nat) + name_count(
                                args@[i as int],
                            ));
                        }
                    }
                    return a;
                }
                let ghost j: nat = i as nat;
                i = i + 1;
                proof {
                    assert forall|n: Seq<char>| #[trigger] reads_any(args@, n, i as nat) implies context.lookup(
                        n,
                    ) is Some by {
                        assert(i as nat == j + 1);
                        assert(name_count_any(args@, i as nat) == name_count_any(args@, j) + name_count(args@[j as int]));
                        assert(reads_any(args@, n, i as nat) == (reads_any(args@, n, j) || reads_name(
                            args@[j as int],
                            n,
                        )));
                        if reads_any(args@, n, j) {
                            assert(before.lookup(n) is Some);
                        } else {
                            assert(reads_name(args@[j as int], n));
                        }
                    }
                }
            }
            proof {
                assert forall|n: Seq<char>| #[trigger] reads_name(*expr, n) implies context.lookup(n) is Some by {
                    assert(reads_any(args@, n, i as nat));
                }
            }
            Ok(())
        },
        PyExpr::Other(_) => Ok(()),
    }
}

/// An expression whose type may be `Bool` whatever types its variables
/// are bound to: a variable, a boolean literal, a `not`, a boolean
/// operation, or `+` or `-` of such an expression.
pub open spec fn bool_shaped(e: PyExpr) -> bool
    decreases e,
{
    match e {
        PyExpr::Name(_) => true,
        PyExpr::Constant(Literal::Bool(_)) => true,
        PyExpr::UnaryOp(op, operand) => op is Not || (!(op is Invert) && bool_shaped(*operand)),
        PyExpr::BoolOp(..) => true,
        _ => false,
    }
}

/// An expression that types without consulting a builtin signature once
/// its variables are bound to type variables: variables, boolean and
/// numeric literals, `+`, `-`, and `not` and boolean operations over
/// operands whose type may be `Bool`.
pub open spec fn untyped_plain(e: PyExpr) -> bool
    decreases e, 0nat,
{
    match e {
        PyExpr::Name(_) => true,
        PyExpr::Constant(l) => !(l is Other),
        PyExpr::UnaryOp(op, operand) => !(op is Invert) && untyped_plain(*operand) && (op is Not ==> bool_shaped(
            *operand,
        )),
        PyExpr::BoolOp(_, values) => untyped_plain_bools(values@, values@.len()),
        _ => false,
    }
}

/// The first `k` expressions are plain and may be `Bool`.
pub open spec fn untyped_plain_bools(es: Seq<PyExpr>, k: nat) -> bool
    decreases es, k,
{
    if k == 0 || k > es.len() {
        true
    } else {
        untyped_plain_bools(es, (k - 1) as nat) && untyped_plain(es[k - 1]) && bool_shaped(es[k - 1])
    }
}

proof fn lemma_entries_lookup_some(es: Seq<(Seq<char>, TypeModel)>, n: Seq<char>, k: int)
    requires
        0 <= k < es.len(),
        es[k].0 == n,
    ensures
        entries_lookup(es, n) is Some,
    decreases es.len(),
{
    if es[0].0 != n {
        assert(es.drop_first()[k - 1] == es[k]);
        lemma_entries_lookup_some(es.drop_first(), n, k - 1);
    }
}

/// A plain expression holds no call.
proof fn lemma_untyped_plain_no_call(e: PyExpr)
    requires
        untyped_plain(e),
    ensures
        !has_keyword_call(e),
    decreases e, 0nat,
{
    match e {
        PyExpr::UnaryOp(_, operand) => lemma_untyped_plain_no_call(*operand),
        PyExpr::BoolOp(_, values) => lemma_untyped_plain_bools_no_call(values@, values@.len()),
        _ => {},
    }
}

proof fn lemma_untyped_plain_bools_no_call(es: Seq<PyExpr>, k: nat)
    requires
        untyped_plain_bools(es, k),
        k <= es.len(),
    ensures
        !keyword_call_any(es, k),
    decreases es, k,
{
    if k > 0 {
        lemma_untyped_plain_bools_no_call(es, (k - 1) as nat);
        lemma_untyped_plain_no_call(es[k - 1]);
    }
}

proof fn lemma_entries_lookup_var(es: Seq<(Seq<char>, TypeModel)>, n: Seq<char>)
    requires
        all_var_entries(es),
    ensures
        entries_lookup(es, n) matches Some(t) ==> t is Var,
    decreases es.len(),
{
    if es.len() > 0 && es[0].0 != n {
        assert forall|k: int| 0 <= k < es.drop_first().len() implies #[trigger] es.drop_first()[k].1 is Var by {
            assert(es.drop_first()[k] == es[k + 1]);
        }
        lemma_entries_lookup_var(es.drop_first(), n);
    }
}

/// A plain expression over variables bound to type variables has a plain
/// type, one that may be `Bool` when the expression is shaped so.
proof fn lemma_untyped_plain(e: PyExpr, ctx: Seq<(Seq<char>, TypeModel)>)
    requires
        untyped_plain(e),
        all_var_entries(ctx),
        forall|n: Seq<char>| #[trigger] reads_name(e, n) ==> entries_lookup(ctx, n) is Some,
    ensures
        plain_expr_type(e, ctx) matches Some(t) && (bool_shaped(e) ==> potential_bool(t)),
    decreases e, 0nat,
{
    match e {
        PyExpr::Name(id) => {
            assert(reads_name(e, id@));
            lemma_entries_lookup_var(ctx, id@);
        },
        PyExpr::UnaryOp(op, operand) => {
            assert forall|n: Seq<char>| #[trigger] reads_name(*operand, n) implies entries_lookup(ctx, n) is Some by {
                assert(reads_name(e, n));
            }
            lemma_untyped_plain(*operand, ctx);
        },
        PyExpr::BoolOp(_, values) => {
            assert forall|n: Seq<char>| #[trigger] reads_any(values@, n, values@.len()) implies entries_lookup(
                ctx,
                n,
            ) is Some by {
                assert(reads_name(e, n));
            }
            lemma_untyped_plain_bools(values@, ctx, values@.len());
        },
        _ => {},
    }
}

proof fn lemma_untyped_plain_bools(es: Seq<PyExpr>, ctx: Seq<(Seq<char>, TypeModel)>, k: nat)
    requires
        untyped_plain_bools(es, k),
        k <= es.len(),
        all_var_entries(ctx),
        forall|n: Seq<char>| #[trigger] reads_any(es, n, k) ==> entries_lookup(ctx, n) is Some,
    ensures
        plain_bools(es, ctx, k),
    decreases es, k,
{
    if k > 0 {
        assert forall|n: Seq<char>| #[trigger] reads_any(es, n, (k - 1) as nat) implies entries_lookup(ctx, n) is Some by {
            assert(reads_any(es, n, k));
        }
        lemma_untyped_plain_bools(es, ctx, (k - 1) as nat);
        assert forall|n: Seq<char>| #[trigger] reads_name(es[k - 1], n) implies entries_lookup(ctx, n) is Some by {
            assert(reads_any(es, n, k));
        }
        lemma_untyped_plain(es[k - 1], ctx);
    }
}

/// Infers the type of an expression in a context, numbering fresh type
/// variables after the context's entries.
pub fn infer_expression_in_context(expr: &PyExpr, context: &Context) -> (r: Result<DeductionTree, TypeError>)
    ensures
        r is Ok ==> expr_tree(*expr, context.entries_model(), r->Ok_0),
        !supported_expr(*expr) ==> r is Err,
        plain_expr_type(*expr, context.entries_model()) matches Some(t) ==> (r matches Ok(tree)
            && tree.judgment_view().ty_view() == t),
{
    let n = context.entries().len();
    let mut state = InferenceState::new(n);
    infer_expr(expr, context, &mut state)
}

/// Infers the type of an expression in a context, drawing fresh type
/// variables from `state`.
pub fn infer_expression_in_context_with_state(
    expr: &PyExpr,
    context: &Context,
    state: &mut InferenceState,
) -> (r: Result<DeductionTree, TypeError>)
    ensures
        r is Ok ==> expr_tree(*expr, context.entries_model(), r->Ok_0),
        !supported_expr(*expr) ==> r is Err,
        plain_expr_type(*expr, context.entries_model()) matches Some(t) ==> (r matches Ok(tree)
            && tree.judgment_view().ty_view() == t),
{
    infer_expr(expr, context, state)
}

/// Infers the type of an expression, its variables bound to fresh type
/// variables in order of first use.
pub fn infer_expression(expr: &PyExpr) -> (r: Result<DeductionTree, TypeError>)
    ensures
        r is Ok ==> exists|ctx: Seq<(Seq<char>, TypeModel)>| expr_tree(*expr, ctx, r->Ok_0),
        !supported_expr(*expr) ==> r is Err,
        untyped_plain(*expr) && name_count(*expr) <= usize::MAX ==> r is Ok,
{
    let mut context = Context::new();
    proof {
        assert(all_var_entries(context.entries_model()));
    }
    let ghost plain = untyped_plain(*expr) && name_count(*expr) <= usize::MAX;
    proof {
        if plain {
            lemma_untyped_plain_no_call(*expr);
        }
    }
    let collected = collect_free_vars(expr, &mut context);
    if let Err(e) = collected {
        return Err(e);
    }
    proof {
        if plain {
            let ctx = context.entries_model();
            assert forall|n: Seq<char>| #[trigger] reads_name(*expr, n) implies entries_lookup(ctx, n) is Some by {
                assert(context.lookup(n) is Some);
                let k = choose|k: int| 0 <= k < context.names().len() && context.names()[k] == n;
                lemma_entries_lookup_some(ctx, n, k);
            }
            lemma_untyped_plain(*expr, ctx);
        }
    }
    let n = context.entries().len();
    let mut state = InferenceState::new(n);
    infer_expr(expr, &context, &mut state)
}

/// Infers a predicate in a context, numbering fresh type variables after
/// the context's entries.
pub fn infer_predicate_in_context(expr: &PyExpr, context: &Context) -> (r: Result<DeductionTree, TypeError>)
    ensures
        r is Ok ==> pred_tree(*expr, context.entries_model(), r->Ok_0),
        !supported_pred(*expr) ==> r is Err,
        plain_pred(*expr) ==> r is Ok,
{
    let n = context.entries().len();
    let mut state = InferenceState::new(n);
    infer_predicate_expr(expr, context, &mut state)
}

/// Infers a predicate in a context, drawing fresh type variables from
/// `state`.
pub fn infer_predicate_in_context_with_state(
    expr: &PyExpr,
    context: &Context,
    state: &mut InferenceState,
) -> (r: Result<DeductionTree, TypeError>)
    ensures
        r is Ok ==> pred_tree(*expr, context.entries_model(), r->Ok_0),
        !supported_pred(*expr) ==> r is Err,
        plain_pred(*expr) ==> r is Ok,
{
    infer_predicate_expr(expr, context, state)
}

/// Infers a predicate, its variables bound to fresh type variables in
/// order of first use.
pub fn infer_predicate(expr: &PyExpr) -> (r: Result<DeductionTree, TypeError>)
    ensures
        r is Ok ==> exists|ctx: Seq<(Seq<char>, TypeModel)>| pred_tree(*expr, ctx, r->Ok_0),
        !supported_pred(*expr) ==> r is Err,
        plain_pred(*expr) ==> r is Ok,
{
    let mut context = Context::new();
    proof {
        if plain_pred(*expr) {
            lemma_plain_pred_closed(*expr);
        }
    }
    let collected = collect_free_vars(expr, &mut context);
    if let Err(e) = collected {
        return Err(e);
    }
    let n = context.entries().len();
    let mut state = InferenceState::new(n);
    infer_predicate_expr(expr, &context, &mut state)
}

/// Every child of a deduction tree is smaller than the tree.
pub proof fn lemma_child_decreases(t: DeductionTree, i: int)
    requires
        0 <= i < t.children_view().len(),
    ensures
        decreases_to!(t => t.children_view()[i]),
        decreases_to!(t => t.children_view()),
{
    assert(decreases_to!(t => t.children));
    assert(decreases_to!(t.children => t.children@));
}

/// The children of a deduction tree are smaller than the tree.
pub proof fn lemma_children_decrease(t: DeductionTree)
    ensures
        decreases_to!(t => t.children_view()),
{
    assert(decreases_to!(t => t.children));
    assert(decreases_to!(t.children => t.children@));
}

/// `name: type`.
pub open spec fn entry_text(e: (Seq<char>, TypeModel)) -> Seq<char> {
    e.0 + ": "@ + type_text(e.1)
}

/// The entries, each as `name: type`, separated by `, `.
pub open spec fn entries_text(es: Seq<(Seq<char>, TypeModel)>) -> Seq<char>
    decreases es.len(),
{
    if es.len() == 0 {
        Seq::empty()
    } else if es.len() == 1 {
        entry_text(es[0])
    } else {
        entries_text(es.drop_last()) + ", "@ + entry_text(es.last())
    }
}

/// `Context` when there are no entries, else `Context[` the entries `]`.
pub open spec fn context_text(es: Seq<(Seq<char>, TypeModel)>) -> Seq<char> {
    if es.len() == 0 {
        "Context"@
    } else {
        "Context["@ + entries_text(es) + "]"@
    }
}

/// `context |- expr : type`.
pub open spec fn judgment_text(j: Judgment) -> Seq<char> {
    context_text(j.context_view()) + " |- "@ + j.expr_view() + " : "@ + type_text(j.ty_view())
}

/// Two spaces, `n` times.
pub open spec fn indent_text(n: nat) -> Seq<char>
    decreases n,
{
    if n == 0 {
        Seq::empty()
    } else {
        indent_text((n - 1) as nat) + "  "@
    }
}

/// Two spaces, `n` times.
pub fn indentation(n: usize) -> (r: String)
    ensures
        r@ == indent_text(n as nat),
{
    let mut out = String::new();
    let mut i: usize = 0;
    while i < n
        invariant
            i <= n,
            out@ == indent_text(i as nat),
        decreases n - i,
    {
        out = out.concat("  ");
        i = i + 1;
    }
    out
}

impl ContextSnapshot {
    /// The snapshot as text (see `context_text`).
    pub fn to_text(&self) -> (r: String)
        ensures
            r@ == context_text(self.view_entries()),
    {
        if self.0.len() == 0 {
            return String::from_str("Context");
        }
        let ghost es = entries_view(self.0@);
        let mut out = String::from_str("Context[");
        let mut i: usize = 0;
        while i < self.0.len()
            invariant
                es == entries_view(self.0@),
                i <= self.0@.len(),
                out@ == "Context["@ + entries_text(es.subrange(0, i as int)),
            decreases self.0@.len() - i,
        {
            if i > 0 {
                out = out.concat(", ");
            }
            let ty = type_to_string(&self.0[i].1);
            let ghost before = out@;
            out = out.concat(self.0[i].0.as_str()).concat(": ").concat(ty.as_str());
            proof {
                let sub = es.subrange(0, i + 1);
                assert(sub.drop_last() =~= es.subrange(0, i as int));
                assert(sub.last() == es[i as int]);
                assert(es[i as int] == (self.0@[i as int].0@, type_model(self.0@[i as int].1)));
                if i == 0 {
                    assert(es.subrange(0, 0) =~= Seq::<(Seq<char>, TypeModel)>::empty());
                    assert(out@ =~= "Context["@ + entries_text(sub));
                } else {
                    assert(out@ =~= "Context["@ + entries_text(sub));
                }
            }
            i = i + 1;
        }
        proof {
            assert(es.subrange(0, self.0@.len() as int) =~= es);
        }
        out.concat("]")
    }
}

impl Judgment {
    /// The judgment as text (see `judgment_text`).
    pub fn to_text(&self) -> (r: String)
        ensures
            r@ == judgment_text(*self),
    {
        let ty = type_to_string(&self.ty);
        self.context.to_text().concat(" |- ").concat(self.expr.as_str()).concat(" : ").concat(ty.as_str())
    }
}

impl DeductionTree {
    /// The tree as text, every line starting with `pad`: `[rule] judgment`,
    /// then the children, each with two more spaces of padding.
    pub closed spec fn text(self, pad: Seq<char>) -> Seq<char>
        decreases self, 0nat,
    {
        pad + "["@ + self.rule@ + "] "@ + judgment_text(self.judgment) + "\n"@ + DeductionTree::children_text(
            self.children@,
            self.children@.len(),
            pad + "  "@,
        )
    }

    /// The text of the first `n` trees, one after the other.
    pub closed spec fn children_text(ts: Seq<DeductionTree>, n: nat, pad: Seq<char>) -> Seq<char>
        decreases ts, n,
    {
        if n == 0 || n > ts.len() {
            Seq::empty()
        } else {
            DeductionTree::children_text(ts, (n - 1) as nat, pad) + ts[n - 1].text(pad)
        }
    }

    fn text_with_pad(&self, pad: &String) -> (r: String)
        ensures
            r@ == self.text(pad@),
        decreases self,
    {
        let mut out = pad.clone().concat("[").concat(self.rule).concat("] ").concat(self.judgment.to_text().as_str()).concat(
            "\n",
        );
        let ghost head = out@;
        let child_pad = pad.clone().concat("  ");
        let mut i: usize = 0;
        while i < self.children.len()
            invariant
                i <= self.children@.len(),
                child_pad@ == pad@ + "  "@,
                out@ == head + DeductionTree::children_text(self.children@, i as nat, child_pad@),
            decreases self.children@.len() - i,
        {
            proof {
                assert(decreases_to!(*self => self.children));
                assert(decreases_to!(*self => self.children@[i as int]));
            }
            let t = self.children[i].text_with_pad(&child_pad);
            out = out.concat(t.as_str());
            i = i + 1;
        }
        out
    }

    /// The tree as text, indented by `indent` times two spaces: one line
    /// `[rule] judgment` per node, the children of a node below it with two
    /// more spaces.
    pub fn fmt_with_indent(&self, indent: usize) -> (r: String)
        ensures
            r@ == self.text(indent_text(indent as nat)),
    {
        let pad = indentation(indent);
        self.text_with_pad(&pad)
    }
}

} // verus!
