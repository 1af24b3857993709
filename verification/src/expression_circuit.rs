//! Circuits of typed expressions: every operation of a deduction tree
//! becomes a generator fed by the circuits of its operands.

use vstd::prelude::*;
use vstd::string::*;

use crate::label::{all_equal, duplicate_all, Label};
use crate::tape_language::circuit::{circuit_io, circuit_view, product_all, Circuit};
use crate::tape_language::circuit_laws::{joined, unique_names};
use crate::tape_language::circuit::{
    entry_names, entry_sort_views, first_name, lemma_wire_io_is_circuit_io, prefix_sum, string_views, use_counts,
    uses_in_context, wiring_circuit,
};
use crate::tape_language::{monomial_view, GeneratorShape, GeneratorTypes, Monomial};
use crate::types::{TypeExpr, TypeModel};
use crate::typing::{lemma_children_decrease, DeductionTree, ExprForm, FormModel};
use crate::tape_language::circuit::lemma_view_product_all;
use crate::tape_language::circuit_laws::lemma_joined_singletons;

verus! {

/// The boxes of expression circuits: functions and operators with their
/// argument and result types, and predicates (possibly negated) with their
/// argument types.
#[derive(Debug)]
pub enum ExprGenerator {
    Function { name: String, input_types: Vec<TypeExpr>, output_types: Vec<TypeExpr> },
    Predicate { name: String, input_types: Vec<TypeExpr>, negated: bool },
}

/// The model of a generator.
pub enum ExprGeneratorModel {
    Function { name: Seq<char>, input_types: Seq<TypeModel>, output_types: Seq<TypeModel> },
    Predicate { name: Seq<char>, input_types: Seq<TypeModel>, negated: bool },
}

impl DeepView for ExprGenerator {
    type V = ExprGeneratorModel;

    open spec fn deep_view(&self) -> ExprGeneratorModel {
        match *self {
            ExprGenerator::Function { name, input_types, output_types } => ExprGeneratorModel::Function {
                name: name@,
                input_types: input_types.deep_view(),
                output_types: output_types.deep_view(),
            },
            ExprGenerator::Predicate { name, input_types, negated } => ExprGeneratorModel::Predicate {
                name: name@,
                input_types: input_types.deep_view(),
                negated,
            },
        }
    }
}

impl ExprGenerator {
    pub fn function(name: String, input_types: Vec<TypeExpr>, output_types: Vec<TypeExpr>) -> (r: Self)
        ensures
            r == (ExprGenerator::Function { name, input_types, output_types }),
    {
        ExprGenerator::Function { name, input_types, output_types }
    }

    pub fn predicate(name: String, input_types: Vec<TypeExpr>, negated: bool) -> (r: Self)
        ensures
            r == (ExprGenerator::Predicate { name, input_types, negated }),
    {
        ExprGenerator::Predicate { name, input_types, negated }
    }
}

impl Label for ExprGenerator {
    fn duplicate(&self) -> (r: Self) {
        match self {
            ExprGenerator::Function { name, input_types, output_types } => ExprGenerator::Function {
                name: name.clone(),
                input_types: duplicate_all(input_types),
                output_types: duplicate_all(output_types),
            },
            ExprGenerator::Predicate { name, input_types, negated } => ExprGenerator::Predicate {
                name: name.clone(),
                input_types: duplicate_all(input_types),
                negated: *negated,
            },
        }
    }

    fn equals(&self, other: &Self) -> (b: bool) {
        match self {
            ExprGenerator::Function { name: a, input_types: ai, output_types: ao } => match other {
                ExprGenerator::Function { name: b, input_types: bi, output_types: bo } => {
                    let same_name = *a == *b;
                    same_name && all_equal(ai, bi) && all_equal(ao, bo)
                },
                _ => false,
            },
            ExprGenerator::Predicate { name: a, input_types: ai, negated: an } => match other {
                ExprGenerator::Predicate { name: b, input_types: bi, negated: bn } => {
                    let same_name = *a == *b;
                    same_name && all_equal(ai, bi) && *an == *bn
                },
                _ => false,
            },
        }
    }
}

impl Clone for ExprGenerator {
    fn clone(&self) -> (r: Self)
        ensures
            r.deep_view() == self.deep_view(),
    {
        self.duplicate()
    }
}

impl GeneratorShape for ExprGenerator {
    open spec fn spec_arity(&self) -> nat {
        match *self {
            ExprGenerator::Function { input_types, .. } => input_types@.len(),
            ExprGenerator::Predicate { input_types, .. } => input_types@.len(),
        }
    }

    open spec fn spec_coarity(&self) -> nat {
        match *self {
            ExprGenerator::Function { output_types, .. } => output_types@.len(),
            ExprGenerator::Predicate { .. } => 1,
        }
    }

    fn arity(&self) -> (r: usize) {
        match self {
            ExprGenerator::Function { input_types, .. } => input_types.len(),
            ExprGenerator::Predicate { input_types, .. } => input_types.len(),
        }
    }

    fn coarity(&self) -> (r: usize) {
        match self {
            ExprGenerator::Function { output_types, .. } => output_types.len(),
            ExprGenerator::Predicate { .. } => 1,
        }
    }
}

impl GeneratorTypes<TypeExpr> for ExprGenerator {
    open spec fn spec_input_types(&self) -> Option<Seq<TypeModel>> {
        match *self {
            ExprGenerator::Function { input_types, .. } => Some(input_types.deep_view()),
            ExprGenerator::Predicate { input_types, .. } => Some(input_types.deep_view()),
        }
    }

    open spec fn spec_output_types(&self) -> Option<Seq<TypeModel>> {
        match *self {
            ExprGenerator::Function { output_types, .. } => Some(output_types.deep_view()),
            ExprGenerator::Predicate { .. } => Some(seq![TypeModel::Bool]),
        }
    }

    fn input_types(&self) -> (r: Option<Vec<TypeExpr>>) {
        match self {
            ExprGenerator::Function { input_types, .. } => Some(duplicate_all(input_types)),
            ExprGenerator::Predicate { input_types, .. } => Some(duplicate_all(input_types)),
        }
    }

    fn output_types(&self) -> (r: Option<Vec<TypeExpr>>) {
        match self {
            ExprGenerator::Function { output_types, .. } => Some(duplicate_all(output_types)),
            ExprGenerator::Predicate { .. } => {
                let mut v: Vec<TypeExpr> = Vec::new();
                v.push(TypeExpr::Bool);
                proof {
                    assert(v.deep_view() =~= seq![TypeModel::Bool]);
                }
                Some(v)
            },
        }
    }
}

/// Every type as a monomial of its own.
pub open spec fn atoms_of(ts: Seq<TypeModel>) -> Seq<Monomial<TypeModel>> {
    ts.map_values(|t: TypeModel| Monomial::Atom(t))
}

fn atom_vec(types: &Vec<TypeExpr>) -> (r: Vec<Monomial<TypeExpr>>)
    ensures
        r.deep_view() == atoms_of(types.deep_view()),
{
    let mut out: Vec<Monomial<TypeExpr>> = Vec::new();
    let mut i: usize = 0;
    while i < types.len()
        invariant
            i <= types@.len(),
            out@.len() == i,
            out.deep_view() == atoms_of(types.deep_view().subrange(0, i as int)),
        decreases types@.len() - i,
    {
        let ghost before = out@;
        let t = types[i].copy();
        out.push(Monomial::Atom(t));
        proof {
            assert(out.deep_view()[i as int] == Monomial::Atom(types.deep_view()[i as int]));
            assert forall|k: int| 0 <= k < i implies out.deep_view()[k] == atoms_of(
                types.deep_view().subrange(0, i as int),
            )[k] by {
                assert(out@[k] == before[k]);
            }
            assert(out.deep_view() =~= atoms_of(types.deep_view().subrange(0, i + 1)));
        }
        i = i + 1;
    }
    proof {
        assert(types.deep_view().subrange(0, types@.len() as int) =~= types.deep_view());
    }
    out
}

impl GeneratorTypes<Monomial<TypeExpr>> for ExprGenerator {
    open spec fn spec_input_types(&self) -> Option<Seq<Monomial<TypeModel>>> {
        match *self {
            ExprGenerator::Function { input_types, .. } => Some(atoms_of(input_types.deep_view())),
            ExprGenerator::Predicate { input_types, .. } => Some(atoms_of(input_types.deep_view())),
        }
    }

    open spec fn spec_output_types(&self) -> Option<Seq<Monomial<TypeModel>>> {
        match *self {
            ExprGenerator::Function { output_types, .. } => Some(atoms_of(output_types.deep_view())),
            ExprGenerator::Predicate { .. } => Some(seq![Monomial::Atom(TypeModel::Bool)]),
        }
    }

    fn input_types(&self) -> (r: Option<Vec<Monomial<TypeExpr>>>) {
        match self {
            ExprGenerator::Function { input_types, .. } => Some(atom_vec(input_types)),
            ExprGenerator::Predicate { input_types, .. } => Some(atom_vec(input_types)),
        }
    }

    fn output_types(&self) -> (r: Option<Vec<Monomial<TypeExpr>>>) {
        match self {
            ExprGenerator::Function { output_types, .. } => Some(atom_vec(output_types)),
            ExprGenerator::Predicate { .. } => {
                let mut v: Vec<Monomial<TypeExpr>> = Vec::new();
                v.push(Monomial::Atom(TypeExpr::Bool));
                proof {
                    assert(v.deep_view() =~= seq![Monomial::Atom(TypeModel::Bool)]);
                }
                Some(v)
            },
        }
    }
}

/// The type at the root of a deduction tree.
pub open spec fn tree_type(t: DeductionTree) -> TypeModel {
    t.judgment_view().ty_view()
}

/// The types at the roots of a list of trees.
pub open spec fn tree_types(ts: Seq<DeductionTree>) -> Seq<TypeModel> {
    ts.map_values(|c: DeductionTree| tree_type(c))
}

/// A generator of one result of type `ty`.
pub open spec fn function_box(name: Seq<char>, inputs: Seq<TypeModel>, ty: TypeModel) -> Circuit<
    TypeModel,
    ExprGeneratorModel,
> {
    Circuit::Generator(ExprGeneratorModel::Function { name, input_types: inputs, output_types: seq![ty] })
}

/// The tree has the number of children its operation needs at every node:
/// one for a unary operation, two for a binary operation or a comparison,
/// at least one for a call.
pub open spec fn circuit_ready(t: DeductionTree) -> bool
    decreases t, 0nat,
{
    let ch = t.children_view();
    proof {
        lemma_children_decrease(t);
    }
    match t.form_view() {
        FormModel::Var(_) => true,
        FormModel::Const(_) => true,
        FormModel::UnaryOp(_) => ch.len() == 1 && all_ready(ch, ch.len()),
        FormModel::BinOp(_) => ch.len() == 2 && all_ready(ch, ch.len()),
        FormModel::Compare(_) => ch.len() == 2 && all_ready(ch, ch.len()),
        FormModel::Call(_) => ch.len() >= 1 && all_ready(ch, ch.len()),
        FormModel::BoolOp(_) => all_ready(ch, ch.len()),
    }
}

/// The first `n` trees are ready.
pub open spec fn all_ready(ts: Seq<DeductionTree>, n: nat) -> bool
    decreases ts, n,
{
    if n == 0 || n > ts.len() {
        true
    } else {
        all_ready(ts, (n - 1) as nat) && circuit_ready(ts[n - 1])
    }
}

/// The circuit of an expression: a variable is its wire; a literal is a
/// box with no inputs; an operation or call is its box after the circuits
/// of its operands, side by side.
pub open spec fn expr_circuit(t: DeductionTree) -> Circuit<TypeModel, ExprGeneratorModel>
    decreases t, 0nat,
{
    let ch = t.children_view();
    let ty = tree_type(t);
    proof {
        lemma_children_decrease(t);
    }
    match t.form_view() {
        FormModel::Var(_) => Circuit::Id(ty),
        FormModel::Const(label) => function_box(label, Seq::empty(), ty),
        FormModel::UnaryOp(op) => if ch.len() > 0 {
            Circuit::Sequence(Box::new(expr_circuit(ch[0])), Box::new(function_box(op, seq![tree_type(ch[0])], ty)))
        } else {
            Circuit::IdOne
        },
        FormModel::BinOp(op) => if ch.len() > 1 {
            Circuit::Sequence(
                Box::new(Circuit::Product(Box::new(expr_circuit(ch[0])), Box::new(expr_circuit(ch[1])))),
                Box::new(function_box(op, seq![tree_type(ch[0]), tree_type(ch[1])], ty)),
            )
        } else {
            Circuit::IdOne
        },
        FormModel::Compare(op) => if ch.len() > 1 {
            Circuit::Sequence(
                Box::new(Circuit::Product(Box::new(expr_circuit(ch[0])), Box::new(expr_circuit(ch[1])))),
                Box::new(function_box(op, seq![tree_type(ch[0]), tree_type(ch[1])], ty)),
            )
        } else {
            Circuit::IdOne
        },
        FormModel::Call(name) => Circuit::Sequence(
            Box::new(product_all(circuits_of(ch, ch.len()))),
            Box::new(function_box(name, tree_types(ch), ty)),
        ),
        FormModel::BoolOp(op) => Circuit::Sequence(
            Box::new(product_all(circuits_of(ch, ch.len()))),
            Box::new(function_box(op, tree_types(ch), ty)),
        ),
    }
}

/// The circuits of the first `n` trees.
pub open spec fn circuits_of(ts: Seq<DeductionTree>, n: nat) -> Seq<Circuit<TypeModel, ExprGeneratorModel>>
    decreases ts, n,
{
    if n == 0 || n > ts.len() {
        Seq::empty()
    } else {
        circuits_of(ts, (n - 1) as nat).push(expr_circuit(ts[n - 1]))
    }
}

/// The types of the variables an expression reads, in order of use.
pub open spec fn var_types(t: DeductionTree) -> Seq<TypeModel>
    decreases t, 0nat,
{
    let ch = t.children_view();
    proof {
        lemma_children_decrease(t);
    }
    match t.form_view() {
        FormModel::Var(_) => seq![tree_type(t)],
        FormModel::Const(_) => Seq::empty(),
        FormModel::UnaryOp(_) => if ch.len() > 0 {
            var_types(ch[0])
        } else {
            Seq::empty()
        },
        FormModel::BinOp(_) => if ch.len() > 1 {
            var_types(ch[0]) + var_types(ch[1])
        } else {
            Seq::empty()
        },
        FormModel::Compare(_) => if ch.len() > 1 {
            var_types(ch[0]) + var_types(ch[1])
        } else {
            Seq::empty()
        },
        FormModel::Call(_) => joined(var_types_of(ch, ch.len())),
        FormModel::BoolOp(_) => joined(var_types_of(ch, ch.len())),
    }
}

/// The variable types of the first `n` trees.
pub open spec fn var_types_of(ts: Seq<DeductionTree>, n: nat) -> Seq<Seq<TypeModel>>
    decreases ts, n,
{
    if n == 0 || n > ts.len() {
        Seq::empty()
    } else {
        var_types_of(ts, (n - 1) as nat).push(var_types(ts[n - 1]))
    }
}

proof fn lemma_of_prefix(ts: Seq<DeductionTree>, n: nat)
    requires
        n <= ts.len(),
    ensures
        circuits_of(ts, n).len() == n,
        var_types_of(ts, n).len() == n,
        forall|k: int| 0 <= k < n ==> #[trigger] circuits_of(ts, n)[k] == expr_circuit(ts[k]),
        forall|k: int| 0 <= k < n ==> #[trigger] var_types_of(ts, n)[k] == var_types(ts[k]),
        all_ready(ts, n) <==> forall|k: int| 0 <= k < n ==> #[trigger] circuit_ready(ts[k]),
    decreases n,
{
    if n > 0 {
        lemma_of_prefix(ts, (n - 1) as nat);
        if all_ready(ts, n) {
            assert forall|k: int| 0 <= k < n implies #[trigger] circuit_ready(ts[k]) by {
                if k < n - 1 {
                    assert(circuit_ready(ts[k]));
                }
            }
        }
        if forall|k: int| 0 <= k < n ==> #[trigger] circuit_ready(ts[k]) {
            assert(circuit_ready(ts[n - 1]));
            assert forall|k: int| 0 <= k < n - 1 implies #[trigger] circuit_ready(ts[k]) by {
                assert(circuit_ready(ts[k]));
            }
        }
    }
}

/// A fold of products concatenates the interfaces of its factors.
pub proof fn lemma_circuit_io_product_all<S: DeepView, G: GeneratorTypes<S>>(
    cs: Seq<Circuit<S, G>>,
    ins: Seq<Seq<S::V>>,
    outs: Seq<Seq<S::V>>,
)
    requires
        ins.len() == cs.len(),
        outs.len() == cs.len(),
        forall|k: int| 0 <= k < cs.len() ==> circuit_io(#[trigger] cs[k]) == Some((ins[k], outs[k])),
    ensures
        circuit_io(product_all(cs)) == Some((joined(ins), joined(outs))),
    decreases cs.len(),
{
    if cs.len() == 0 {
    } else if cs.len() == 1 {
        assert(joined(ins.drop_last()) =~= Seq::<S::V>::empty());
        assert(joined(outs.drop_last()) =~= Seq::<S::V>::empty());
        assert(joined(ins) =~= ins[0]);
        assert(joined(outs) =~= outs[0]);
    } else {
        lemma_circuit_io_product_all(cs.drop_last(), ins.drop_last(), outs.drop_last());
        let a = product_all(cs.drop_last());
        let b = cs.last();
        if a is IdOne {
            assert(joined(ins.drop_last()) + ins.last() =~= ins.last());
            assert(joined(outs.drop_last()) + outs.last() =~= outs.last());
        } else if b is IdOne {
            assert(joined(ins.drop_last()) + ins.last() =~= joined(ins.drop_last()));
            assert(joined(outs.drop_last()) + outs.last() =~= joined(outs.drop_last()));
        }
    }
}

/// Decides whether a tree is ready for its circuit.
pub fn circuit_ready_check(tree: &DeductionTree) -> (r: bool)
    ensures
        r == circuit_ready(*tree),
    decreases tree,
{
    let children = tree.children();
    proof {
        lemma_children_decrease(*tree);
        lemma_of_prefix(tree.children_view(), tree.children_view().len());
    }
    let count_ok = match tree.form() {
        ExprForm::Var(_) | ExprForm::Const(_) => {
            return true;
        },
        ExprForm::UnaryOp(_) => children.len() == 1,
        ExprForm::BinOp(_) | ExprForm::Compare(_) => children.len() == 2,
        ExprForm::Call(_) => children.len() >= 1,
        ExprForm::BoolOp(_) => true,
    };
    if !count_ok {
        return false;
    }
    let mut i: usize = 0;
    while i < children.len()
        invariant
            i <= children@.len(),
            children@ == tree.children_view(),
            decreases_to!(*tree => tree.children_view()),
            circuit_ready(*tree) == all_ready(children@, children@.len()),
            forall|k: int| 0 <= k < i ==> #[trigger] circuit_ready(children@[k]),
        decreases children@.len() - i,
    {
        proof {
            assert(decreases_to!(*tree => children@[i as int]));
        }
        if !circuit_ready_check(&children[i]) {
            proof {
                lemma_of_prefix(children@, children@.len());
            }
            return false;
        }
        i = i + 1;
    }
    proof {
        lemma_of_prefix(children@, children@.len());
    }
    true
}

/// A one-element list of types.
fn one_type(t: TypeExpr) -> (r: Vec<TypeExpr>)
    ensures
        r.deep_view() == seq![crate::types::type_model(t)],
{
    let mut v: Vec<TypeExpr> = Vec::new();
    v.push(t);
    proof {
        assert(v.deep_view() =~= seq![crate::types::type_model(t)]);
    }
    v
}

/// A two-element list of types.
fn two_types(a: TypeExpr, b: TypeExpr) -> (r: Vec<TypeExpr>)
    ensures
        r.deep_view() == seq![crate::types::type_model(a), crate::types::type_model(b)],
{
    let mut v: Vec<TypeExpr> = Vec::new();
    v.push(a);
    v.push(b);
    proof {
        assert(v@ =~= seq![a, b]);
        assert(v.deep_view() =~= seq![crate::types::type_model(a), crate::types::type_model(b)]);
    }
    v
}

/// The circuit of an expression's deduction tree. It takes the variables
/// the expression reads, one wire per use in order, and gives the value of
/// the expression.
pub fn circuit_from_expr(tree: &DeductionTree) -> (r: Circuit<TypeExpr, ExprGenerator>)
    requires
        circuit_ready(*tree),
    ensures
        circuit_view(r) == expr_circuit(*tree),
        circuit_io(r) == Some((var_types(*tree), seq![tree_type(*tree)])),
    decreases tree,
{
    let children = tree.children();
    let ty = tree.judgment().ty().copy();
    proof {
        lemma_children_decrease(*tree);
        lemma_of_prefix(tree.children_view(), tree.children_view().len());
    }
    match tree.form() {
        ExprForm::Var(_) => {
            proof {
                assert(tree.form_view() is Var);
                assert(expr_circuit(*tree) == Circuit::<TypeModel, ExprGeneratorModel>::Id(tree_type(*tree)));
            }
            Circuit::Id(ty)
        },
        ExprForm::Const(label) => {
            let none: Vec<TypeExpr> = Vec::new();
            proof {
                assert(none.deep_view() =~= Seq::<TypeModel>::empty());
            }
            let g = ExprGenerator::function(label.clone(), none, one_type(ty));
            let res = Circuit::Generator(g);
            proof {
                assert(circuit_view(res) == expr_circuit(*tree));
                assert(circuit_io(res) == Some((var_types(*tree), seq![tree_type(*tree)])));
            }
            res
        },
        ExprForm::UnaryOp(op) => {
            let child = circuit_from_expr(&children[0]);
            let g = ExprGenerator::function(op.clone(), one_type(children[0].judgment().ty().copy()), one_type(ty));
            let gc = Circuit::Generator(g);
            proof {
                assert(circuit_view(gc) == Circuit::<TypeModel, ExprGeneratorModel>::Generator(g.deep_view()));
                assert(circuit_io(gc) == Some((<ExprGenerator as GeneratorTypes<TypeExpr>>::spec_input_types(&g).unwrap(), <ExprGenerator as GeneratorTypes<TypeExpr>>::spec_output_types(&g).unwrap())));
            }
            let res = Circuit::Sequence(Box::new(child), Box::new(gc));
            proof {
                let c0 = tree.children_view()[0];
                assert(tree.form_view() == FormModel::UnaryOp(op@));
                assert(tree.children_view().len() == 1);
                assert(expr_circuit(*tree) == Circuit::Sequence(
                    Box::new(expr_circuit(c0)),
                    Box::new(function_box(op@, seq![tree_type(c0)], tree_type(*tree))),
                ));
                assert(circuit_view(child) == expr_circuit(c0));
                assert(g.deep_view() == ExprGeneratorModel::Function { name: op@, input_types: seq![tree_type(c0)], output_types: seq![tree_type(*tree)] });
                assert(circuit_view(res) == expr_circuit(*tree));
                assert(circuit_io(res) == Some((var_types(*tree), seq![tree_type(*tree)])));
            }
            res
        },
        ExprForm::BinOp(op) => {
            let left = circuit_from_expr(&children[0]);
            let right = circuit_from_expr(&children[1]);
            let ins = two_types(children[0].judgment().ty().copy(), children[1].judgment().ty().copy());
            let g = ExprGenerator::function(op.clone(), ins, one_type(ty));
            let gc = Circuit::Generator(g);
            let prod = Circuit::Product(Box::new(left), Box::new(right));
            proof {
                assert(circuit_view(gc) == Circuit::<TypeModel, ExprGeneratorModel>::Generator(g.deep_view()));
                assert(circuit_io(gc) == Some((<ExprGenerator as GeneratorTypes<TypeExpr>>::spec_input_types(&g).unwrap(), <ExprGenerator as GeneratorTypes<TypeExpr>>::spec_output_types(&g).unwrap())));
                assert(circuit_view(prod) == Circuit::<TypeModel, ExprGeneratorModel>::Product(
                    Box::new(circuit_view(left)),
                    Box::new(circuit_view(right)),
                ));
                let c0 = tree.children_view()[0];
                let c1 = tree.children_view()[1];
                assert(seq![tree_type(c0)] + seq![tree_type(c1)] =~= seq![tree_type(c0), tree_type(c1)]);
                assert(circuit_io(prod) == Some((var_types(c0) + var_types(c1), seq![tree_type(c0), tree_type(c1)])));
            }
            let res = Circuit::Sequence(Box::new(prod), Box::new(gc));
            proof {
                assert(circuit_view(res) == expr_circuit(*tree));
                assert(circuit_io(res) == Some((var_types(*tree), seq![tree_type(*tree)])));
            }
            res
        },
        ExprForm::Compare(op) => {
            let left = circuit_from_expr(&children[0]);
            let right = circuit_from_expr(&children[1]);
            let ins = two_types(children[0].judgment().ty().copy(), children[1].judgment().ty().copy());
            let g = ExprGenerator::function(op.clone(), ins, one_type(ty));
            let gc = Circuit::Generator(g);
            let prod = Circuit::Product(Box::new(left), Box::new(right));
            proof {
                assert(circuit_view(gc) == Circuit::<TypeModel, ExprGeneratorModel>::Generator(g.deep_view()));
                assert(circuit_io(gc) == Some((<ExprGenerator as GeneratorTypes<TypeExpr>>::spec_input_types(&g).unwrap(), <ExprGenerator as GeneratorTypes<TypeExpr>>::spec_output_types(&g).unwrap())));
                assert(circuit_view(prod) == Circuit::<TypeModel, ExprGeneratorModel>::Product(
                    Box::new(circuit_view(left)),
                    Box::new(circuit_view(right)),
                ));
                let c0 = tree.children_view()[0];
                let c1 = tree.children_view()[1];
                assert(seq![tree_type(c0)] + seq![tree_type(c1)] =~= seq![tree_type(c0), tree_type(c1)]);
                assert(circuit_io(prod) == Some((var_types(c0) + var_types(c1), seq![tree_type(c0), tree_type(c1)])));
            }
            let res = Circuit::Sequence(Box::new(prod), Box::new(gc));
            proof {
                assert(circuit_view(res) == expr_circuit(*tree));
                assert(circuit_io(res) == Some((var_types(*tree), seq![tree_type(*tree)])));
            }
            res
        },
        ExprForm::Call(name) => {
            let (inputs, ins) = operand_circuits(tree);
            let g = ExprGenerator::function(name.clone(), ins, one_type(ty));
            let gc = Circuit::Generator(g);
            proof {
                assert(circuit_view(gc) == Circuit::<TypeModel, ExprGeneratorModel>::Generator(g.deep_view()));
                assert(circuit_io(gc) == Some((<ExprGenerator as GeneratorTypes<TypeExpr>>::spec_input_types(&g).unwrap(), <ExprGenerator as GeneratorTypes<TypeExpr>>::spec_output_types(&g).unwrap())));
            }
            let res = Circuit::Sequence(Box::new(inputs), Box::new(gc));
            proof {
                assert(circuit_view(res) == expr_circuit(*tree));
                assert(circuit_io(res) == Some((var_types(*tree), seq![tree_type(*tree)])));
            }
            res
        },
        ExprForm::BoolOp(op) => {
            let (inputs, ins) = operand_circuits(tree);
            let g = ExprGenerator::function(op.clone(), ins, one_type(ty));
            let gc = Circuit::Generator(g);
            proof {
                assert(circuit_view(gc) == Circuit::<TypeModel, ExprGeneratorModel>::Generator(g.deep_view()));
                assert(circuit_io(gc) == Some((<ExprGenerator as GeneratorTypes<TypeExpr>>::spec_input_types(&g).unwrap(), <ExprGenerator as GeneratorTypes<TypeExpr>>::spec_output_types(&g).unwrap())));
            }
            let res = Circuit::Sequence(Box::new(inputs), Box::new(gc));
            proof {
                assert(circuit_view(res) == expr_circuit(*tree));
                assert(circuit_io(res) == Some((var_types(*tree), seq![tree_type(*tree)])));
            }
            res
        },
    }
}

/// The circuits of the operands of a call or boolean operation side by
/// side, and the types they give.
fn operand_circuits(tree: &DeductionTree) -> (r: (Circuit<TypeExpr, ExprGenerator>, Vec<TypeExpr>))
    requires
        all_ready(tree.children_view(), tree.children_view().len()),
    ensures
        circuit_view(r.0) == product_all(circuits_of(tree.children_view(), tree.children_view().len())),
        circuit_io(r.0) == Some((joined(var_types_of(tree.children_view(), tree.children_view().len())), tree_types(tree.children_view()))),
        r.1.deep_view() == tree_types(tree.children_view()),
    decreases tree, 1nat,
{
    let children = tree.children();
    let ghost ch = tree.children_view();
    proof {
        lemma_children_decrease(*tree);
        lemma_of_prefix(ch, ch.len());
    }
    let mut circuits: Vec<Circuit<TypeExpr, ExprGenerator>> = Vec::new();
    let mut types: Vec<TypeExpr> = Vec::new();
    let mut i: usize = 0;
    while i < children.len()
        invariant
            i <= children@.len(),
            children@ == ch,
            decreases_to!(*tree => ch),
            forall|k: int| 0 <= k < ch.len() ==> #[trigger] circuit_ready(ch[k]),
            circuits@.len() == i,
            types@.len() == i,
            forall|k: int| 0 <= k < i ==> circuit_view(#[trigger] circuits@[k]) == expr_circuit(ch[k]),
            forall|k: int| 0 <= k < i ==> circuit_io(#[trigger] circuits@[k]) == Some((var_types(ch[k]), seq![tree_type(ch[k])])),
            types.deep_view() == tree_types(ch.subrange(0, i as int)),
        decreases children@.len() - i,
    {
        proof {
            assert(decreases_to!(*tree => ch[i as int]));
        }
        let c = circuit_from_expr(&children[i]);
        circuits.push(c);
        let ghost before = types@;
        let ghost before_view = types.deep_view();
        types.push(children[i].judgment().ty().copy());
        proof {
            assert forall|k: int| 0 <= k < i implies types.deep_view()[k] == tree_types(ch.subrange(0, i + 1))[k] by {
                assert(types@[k] == before[k]);
                assert(before_view[k] == before[k].deep_view());
                assert(before_view[k] == tree_types(ch.subrange(0, i as int))[k]);
            }
            assert(types.deep_view() =~= tree_types(ch.subrange(0, i + 1)));
        }
        i = i + 1;
    }
    let ghost cs = circuits@;
    let product = Circuit::product_many(circuits);
    proof {
        assert(ch.subrange(0, ch.len() as int) =~= ch);
        lemma_view_product_all(cs);
        assert(cs.map_values(|c: Circuit<TypeExpr, ExprGenerator>| circuit_view(c)) =~= circuits_of(ch, ch.len()));
        let outs = tree_types(ch).map_values(|t: TypeModel| seq![t]);
        lemma_circuit_io_product_all(cs, var_types_of(ch, ch.len()), outs);
        lemma_joined_singletons(tree_types(ch));
    }
    (product, types)
}

/// The context wires fan out to the uses of the variables the expression
/// reads, in order.
fn wiring_circuit_for_expression(tree: &DeductionTree, context_entries: &[(String, TypeExpr)]) -> (r: Circuit<
    TypeExpr,
    ExprGenerator,
>)
    requires
        uses_in_context(entry_names(context_entries@), tree.input_vars()),
        unique_names(entry_names(context_entries@)),
    ensures
        circuit_view(r) == wiring_circuit::<TypeModel, ExprGeneratorModel>(
            entry_names(context_entries@),
            entry_sort_views(context_entries@),
            tree.input_vars(),
        ),
        circuit_io(r) == Some(
            (
                entry_sort_views(context_entries@),
                tree.input_vars().map_values(
                    |v: Seq<char>| entry_sort_views(context_entries@)[first_name(entry_names(context_entries@), v)],
                ),
            ),
        ),
{
    let input_vars = tree.expr_input_vars();
    proof {
        assert(string_views(input_vars@) =~= tree.input_vars());
        crate::tape_language::circuit::lemma_full_wiring_support(entry_names(context_entries@), tree.input_vars());
    }
    let r = Circuit::wiring_circuit_for_context(context_entries, input_vars.as_slice());
    proof {
        if unique_names(entry_names(context_entries@)) {
            lemma_wire_io_is_circuit_io(r);
        }
    }
    r
}

/// The circuit of an expression fed from the wires of a context: the
/// context wires are fanned out to the uses of the variables, then the
/// expression's circuit computes its value.
pub fn circuit_from_expr_with_context(tree: &DeductionTree, context_entries: &[(String, TypeExpr)]) -> (r: Circuit<
    TypeExpr,
    ExprGenerator,
>)
    requires
        circuit_ready(*tree),
        uses_in_context(entry_names(context_entries@), tree.input_vars()),
        unique_names(entry_names(context_entries@)),
    ensures
        circuit_view(r) == Circuit::Sequence(
            Box::new(
                wiring_circuit::<TypeModel, ExprGeneratorModel>(
                    entry_names(context_entries@),
                    entry_sort_views(context_entries@),
                    tree.input_vars(),
                ),
            ),
            Box::new(expr_circuit(*tree)),
        ),
        var_types(*tree) == tree.input_vars().map_values(
            |v: Seq<char>| entry_sort_views(context_entries@)[first_name(entry_names(context_entries@), v)],
        ) ==> circuit_io(r) == Some((entry_sort_views(context_entries@), seq![tree_type(*tree)])),
{
    let wiring = wiring_circuit_for_expression(tree, context_entries);
    let expr = circuit_from_expr(tree);
    Circuit::Sequence(Box::new(wiring), Box::new(expr))
}

/// The text of a generator: its name, after `not ` for a negated predicate.
pub open spec fn generator_text(g: ExprGeneratorModel) -> Seq<char> {
    match g {
        ExprGeneratorModel::Function { name, .. } => name,
        ExprGeneratorModel::Predicate { name, negated, .. } => if negated {
            "not "@ + name
        } else {
            name
        },
    }
}

/// The text of a generator.
pub fn generator_to_string(g: &ExprGenerator) -> (r: String)
    ensures
        r@ == generator_text(g.deep_view()),
{
    match g {
        ExprGenerator::Function { name, .. } => name.clone(),
        ExprGenerator::Predicate { name, negated, .. } => if *negated {
            proof {
                reveal_strlit("not ");
            }
            String::from_str("not ").concat(name.as_str())
        } else {
            name.clone()
        },
    }
}

} // verus!
