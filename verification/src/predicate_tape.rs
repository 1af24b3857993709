//! Tapes of predicates: a predicate maps its context to the sum of the
//! contexts where it holds; relations become predicate boxes fed from the
//! context, `and` copies the context into both sides of a product, `or`
//! splits it into both summands, and negation is pushed down to the
//! relations and constants.

use vstd::prelude::*;

use crate::expression_circuit::{
    circuit_from_expr_with_context, circuit_ready, circuit_ready_check, expr_circuit, tree_type, tree_types, ExprGenerator,
    ExprGeneratorModel,
};
use crate::label::duplicate_all;
use crate::tape_language::circuit::{
    circuit_view, copy_wires_circuit, entry_names, entry_sort_views, lemma_view_product_all, product_all, string_views,
    uses_in_context, wiring_circuit, Circuit,
};
use crate::tape_language::circuit_laws::unique_names;
use crate::tape_language::tape::{tape_view, Tape};
use crate::tape_language::{entry_sorts, monomial_view, views, Monomial};
use crate::types::{type_model, TypeExpr, TypeModel};
use crate::typing::{entries_view, lemma_children_decrease, str_equal, DeductionTree, ExprForm, FormModel};

verus! {

/// The names of a context, in order.
pub open spec fn names_of(m: Seq<(Seq<char>, TypeModel)>) -> Seq<Seq<char>> {
    m.map_values(|e: (Seq<char>, TypeModel)| e.0)
}

/// The types of a context, in order.
pub open spec fn sorts_of(m: Seq<(Seq<char>, TypeModel)>) -> Seq<TypeModel> {
    m.map_values(|e: (Seq<char>, TypeModel)| e.1)
}

/// The monomial of a context: the product of its types.
pub open spec fn ctx_monomial(m: Seq<(Seq<char>, TypeModel)>) -> Monomial<TypeModel> {
    Monomial::spec_from_sorts(sorts_of(m))
}

/// The context recorded at the first child, or none.
pub open spec fn first_child_context(t: DeductionTree) -> Seq<(Seq<char>, TypeModel)> {
    if t.children_view().len() > 0 {
        t.children_view()[0].judgment_view().context_view()
    } else {
        Seq::empty()
    }
}

/// The names of the context, `n` times over.
pub open spec fn repeated_names(names: Seq<Seq<char>>, n: nat) -> Seq<Seq<char>>
    decreases n,
{
    if n == 0 {
        Seq::empty()
    } else {
        repeated_names(names, (n - 1) as nat) + names
    }
}

/// A relation whose arguments share one context without repeated names,
/// and whose argument trees are ready for circuits reading only variables
/// of that context.
pub open spec fn relation_ready(t: DeductionTree) -> bool {
    let ch = t.children_view();
    let ctx = first_child_context(t);
    &&& unique_names(names_of(ctx))
    &&& forall|k: int|
        0 <= k < ch.len() ==> (#[trigger] ch[k]).judgment_view().context_view() == ctx && circuit_ready(ch[k])
            && uses_in_context(names_of(ctx), ch[k].input_vars())
}

/// A predicate tree the tape construction accepts: constants `True` and
/// `False`, `and` and `or` of two predicates (`and` over a context of at
/// most half the machine's word), `not` of a predicate, and ready relations.
pub open spec fn predicate_ready(t: DeductionTree) -> bool
    decreases t,
{
    let ch = t.children_view();
    proof {
        lemma_children_decrease(t);
    }
    match t.form_view() {
        FormModel::Const(label) => label == "True"@ || label == "False"@,
        FormModel::BoolOp(op) => if ch.len() == 2 {
            (op == "and"@ || op == "or"@) && 2 * t.judgment_view().context_view().len() <= usize::MAX
                && predicate_ready(ch[0]) && predicate_ready(ch[1])
        } else {
            false
        },
        FormModel::UnaryOp(op) => if ch.len() >= 1 {
            op == "not"@ && predicate_ready(ch[0])
        } else {
            false
        },
        FormModel::Call(_) => tree_type(t) == TypeModel::Bool && relation_ready(t),
        FormModel::Compare(_) => relation_ready(t),
        _ => false,
    }
}

/// The circuit of one argument fed from the context.
pub open spec fn argument_circuit(ctx: Seq<(Seq<char>, TypeModel)>, arg: DeductionTree) -> Circuit<
    TypeModel,
    ExprGeneratorModel,
> {
    Circuit::Sequence(
        Box::new(wiring_circuit(names_of(ctx), sorts_of(ctx), arg.input_vars())),
        Box::new(expr_circuit(arg)),
    )
}

/// The name of a relation: the callee or the comparison (the text of the
/// node's form).
pub open spec fn relation_name(t: DeductionTree) -> Seq<char> {
    match t.form_view() {
        FormModel::Call(name) => name,
        FormModel::Compare(op) => op,
        FormModel::Var(n) => n,
        FormModel::Const(n) => n,
        FormModel::UnaryOp(n) => n,
        FormModel::BinOp(n) => n,
        FormModel::BoolOp(n) => n,
    }
}

/// The circuit of a relation: the arguments computed from the context
/// (which is copied once per argument when there are several), then the
/// predicate box.
pub open spec fn relation_circuit(t: DeductionTree, negated: bool) -> Circuit<TypeModel, ExprGeneratorModel> {
    let ch = t.children_view();
    let ctx = first_child_context(t);
    let inputs = if ch.len() == 0 {
        Circuit::IdOne
    } else if ch.len() == 1 {
        argument_circuit(ctx, ch[0])
    } else {
        Circuit::spec_seq(
            wiring_circuit(names_of(ctx), sorts_of(ctx), repeated_names(names_of(ctx), ch.len())),
            product_all(ch.map_values(|c: DeductionTree| argument_circuit(ctx, c))),
        )
    };
    Circuit::spec_seq(
        inputs,
        Circuit::Generator(
            ExprGeneratorModel::Predicate { name: relation_name(t), input_types: tree_types(ch), negated },
        ),
    )
}

/// The tape of a predicate, negated or not.
pub open spec fn pred_tape(t: DeductionTree, negated: bool) -> Tape<TypeModel, ExprGeneratorModel>
    decreases t,
{
    let ch = t.children_view();
    let ctx = t.judgment_view().context_view();
    let mono = ctx_monomial(ctx);
    proof {
        lemma_children_decrease(t);
    }
    match t.form_view() {
        FormModel::Const(label) => if (label == "True"@) != negated {
            Tape::Discard(mono)
        } else {
            Tape::Sequence(Box::new(Tape::Discard(mono)), Box::new(Tape::Create(Monomial::One)))
        },
        FormModel::BoolOp(op) => if ch.len() == 2 {
            if (op == "and"@) != negated {
                Tape::Sequence(
                    Box::new(Tape::EmbedCircuit(Box::new(copy_wires_circuit(sorts_of(ctx))))),
                    Box::new(Tape::Product(Box::new(pred_tape(ch[0], negated)), Box::new(pred_tape(ch[1], negated)))),
                )
            } else {
                Tape::Sequence(
                    Box::new(
                        Tape::Sequence(
                            Box::new(Tape::Split(mono)),
                            Box::new(Tape::Sum(Box::new(pred_tape(ch[0], negated)), Box::new(pred_tape(ch[1], negated)))),
                        ),
                    ),
                    Box::new(Tape::Merge(Monomial::One)),
                )
            }
        } else {
            Tape::IdZero
        },
        FormModel::UnaryOp(_) => if ch.len() >= 1 {
            pred_tape(ch[0], !negated)
        } else {
            Tape::IdZero
        },
        _ => Tape::EmbedCircuit(Box::new(relation_circuit(t, negated))),
    }
}

/// Negation is pushed to the leaves of a predicate: a negated operand is
/// drawn with the flag flipped, so that two negations cancel; a conjunction,
/// or a negated disjunction, copies the context into the product of its
/// operands; a disjunction, or a negated conjunction, splits the context
/// into the sum of its operands and merges the results.
pub proof fn law_predicate_negation(t: DeductionTree, negated: bool)
    ensures
        t.form_view() is UnaryOp && t.children_view().len() >= 1 ==> pred_tape(t, negated) == pred_tape(
            t.children_view()[0],
            !negated,
        ),
        t.form_view() is UnaryOp && t.children_view().len() >= 1 && t.children_view()[0].form_view() is UnaryOp
            && t.children_view()[0].children_view().len() >= 1 ==> pred_tape(t, negated) == pred_tape(
            t.children_view()[0].children_view()[0],
            negated,
        ),
        t.form_view() is BoolOp && t.children_view().len() == 2 && (t.form_view()->BoolOp_0 == "and"@) != negated
            ==> pred_tape(t, negated) == Tape::<TypeModel, ExprGeneratorModel>::Sequence(
            Box::new(Tape::EmbedCircuit(Box::new(copy_wires_circuit(sorts_of(t.judgment_view().context_view()))))),
            Box::new(
                Tape::Product(
                    Box::new(pred_tape(t.children_view()[0], negated)),
                    Box::new(pred_tape(t.children_view()[1], negated)),
                ),
            ),
        ),
        t.form_view() is BoolOp && t.children_view().len() == 2 && (t.form_view()->BoolOp_0 == "and"@) == negated
            ==> pred_tape(t, negated) == Tape::<TypeModel, ExprGeneratorModel>::Sequence(
            Box::new(
                Tape::Sequence(
                    Box::new(Tape::Split(ctx_monomial(t.judgment_view().context_view()))),
                    Box::new(
                        Tape::Sum(
                            Box::new(pred_tape(t.children_view()[0], negated)),
                            Box::new(pred_tape(t.children_view()[1], negated)),
                        ),
                    ),
                ),
            ),
            Box::new(Tape::Merge(Monomial::One)),
        ),
{
    reveal_with_fuel(pred_tape, 3);
}

/// Negating a constant predicate gives the other constant: in one
/// context, `not True` is drawn as `False` and `not False` as `True`;
/// `True` discards the context into its single outcome, and `False` is
/// drawn differently from `True`.
pub proof fn law_negated_constants(t: DeductionTree, f: DeductionTree)
    requires
        t.form_view() == FormModel::Const("True"@),
        f.form_view() == FormModel::Const("False"@),
        t.judgment_view().context_view() == f.judgment_view().context_view(),
    ensures
        pred_tape(t, true) == pred_tape(f, false),
        pred_tape(f, true) == pred_tape(t, false),
        pred_tape(t, false) == Tape::<TypeModel, ExprGeneratorModel>::Discard(
            ctx_monomial(t.judgment_view().context_view()),
        ),
        pred_tape(f, false) != pred_tape(t, false),
{
    reveal_strlit("True");
    reveal_strlit("False");
    assert("True"@ != "False"@) by {
        assert("True"@[0] != "False"@[0]);
    }
}

/// A relation is drawn as one circuit ending in its predicate box, and
/// negating the relation flips the box: the drawing of a negated relation
/// differs from the plain one only in the box's negation flag.
pub proof fn law_negated_relation(t: DeductionTree, negated: bool)
    requires
        t.form_view() is Call || t.form_view() is Compare,
    ensures
        pred_tape(t, negated) == Tape::<TypeModel, ExprGeneratorModel>::EmbedCircuit(
            Box::new(relation_circuit(t, negated)),
        ),
        pred_tape(t, true) != pred_tape(t, false),
{
    let g = |n: bool|
        Circuit::<TypeModel, ExprGeneratorModel>::Generator(
            ExprGeneratorModel::Predicate {
                name: relation_name(t),
                input_types: tree_types(t.children_view()),
                negated: n,
            },
        );
    assert(g(true) != g(false));
    let a = relation_circuit(t, true);
    let b = relation_circuit(t, false);
    if a == b {
        match a {
            Circuit::Sequence(_, x) => {
                assert(*x == g(true));
            },
            _ => {},
        }
    }
}

/// The monomial of a context's entries.
fn context_monomial(entries: &[(String, TypeExpr)]) -> (r: Monomial<TypeExpr>)
    ensures
        monomial_view(r) == ctx_monomial(entries_view(entries@)),
        monomial_view(r).sorts() == sorts_of(entries_view(entries@)),
{
    let m = Monomial::from_context(entries);
    proof {
        assert(views(entry_sorts(entries@)) =~= sorts_of(entries_view(entries@)));
    }
    m
}

/// The names of context entries, `n` times over.
fn repeat_entry_names(entries: &[(String, TypeExpr)], n: usize) -> (r: Vec<String>)
    ensures
        string_views(r@) == repeated_names(entry_names(entries@), n as nat),
{
    let mut out: Vec<String> = Vec::new();
    let mut round: usize = 0;
    proof {
        assert(string_views(out@) =~= repeated_names(entry_names(entries@), 0));
    }
    while round < n
        invariant
            round <= n,
            string_views(out@) == repeated_names(entry_names(entries@), round as nat),
        decreases n - round,
    {
        let ghost start = string_views(out@);
        let mut j: usize = 0;
        while j < entries.len()
            invariant
                j <= entries@.len(),
                string_views(out@) == start + entry_names(entries@).subrange(0, j as int),
            decreases entries@.len() - j,
        {
            let ghost before = out@;
            out.push(entries[j].0.clone());
            proof {
                assert(string_views(out@) =~= string_views(before).push(entries@[j as int].0@));
                assert(string_views(out@) =~= start + entry_names(entries@).subrange(0, j + 1));
            }
            j = j + 1;
        }
        proof {
            assert(entry_names(entries@).subrange(0, entries@.len() as int) =~= entry_names(entries@));
        }
        round = round + 1;
    }
    out
}

/// Every repeated name is a name of the context.
proof fn lemma_repeated_in(names: Seq<Seq<char>>, n: nat)
    ensures
        uses_in_context(names, repeated_names(names, n)),
    decreases n,
{
    if n > 0 {
        lemma_repeated_in(names, (n - 1) as nat);
        let prev = repeated_names(names, (n - 1) as nat);
        assert forall|k: int| 0 <= k < repeated_names(names, n).len() implies names.contains(
            #[trigger] repeated_names(names, n)[k],
        ) by {
            if k < prev.len() {
                assert(repeated_names(names, n)[k] == prev[k]);
            } else {
                assert(repeated_names(names, n)[k] == names[k - prev.len()]);
            }
        }
    }
}

/// The circuit of a relation node.
fn circuit_from_relation(tree: &DeductionTree, negated: bool) -> (r: Circuit<TypeExpr, ExprGenerator>)
    requires
        relation_ready(*tree),
    ensures
        circuit_view(r) == relation_circuit(*tree, negated),
{
    let children = tree.children();
    let ghost ch = tree.children_view();
    let ghost ctx = first_child_context(*tree);
    let name = match tree.form() {
        ExprForm::Call(n) => n.clone(),
        ExprForm::Compare(n) => n.clone(),
        ExprForm::Var(n) => n.clone(),
        ExprForm::Const(n) => n.clone(),
        ExprForm::UnaryOp(n) => n.clone(),
        ExprForm::BinOp(n) => n.clone(),
        ExprForm::BoolOp(n) => n.clone(),
    };
    let mut arg_types: Vec<TypeExpr> = Vec::new();
    let mut k: usize = 0;
    while k < children.len()
        invariant
            k <= children@.len(),
            children@ == ch,
            arg_types@.len() == k,
            arg_types.deep_view() == tree_types(ch.subrange(0, k as int)),
        decreases children@.len() - k,
    {
        let ghost before = arg_types@;
        let ghost before_view = arg_types.deep_view();
        arg_types.push(children[k].judgment().ty().copy());
        proof {
            assert forall|j: int| 0 <= j < k implies arg_types.deep_view()[j] == tree_types(ch.subrange(0, k + 1))[j] by {
                assert(arg_types@[j] == before[j]);
                assert(before_view[j] == tree_types(ch.subrange(0, k as int))[j]);
            }
            assert(arg_types.deep_view() =~= tree_types(ch.subrange(0, k + 1)));
        }
        k = k + 1;
    }
    proof {
        assert(ch.subrange(0, ch.len() as int) =~= ch);
    }
    let inputs: Circuit<TypeExpr, ExprGenerator> = if children.len() == 0 {
        Circuit::IdOne
    } else {
        let entries = children[0].judgment().context().entries();
        proof {
            assert(entries_view(entries@) == ctx);
            assert(entry_names(entries@) =~= names_of(ctx));
            assert(entry_sort_views(entries@) =~= sorts_of(ctx));
            assert(circuit_ready(ch[0]) && uses_in_context(names_of(ctx), ch[0].input_vars()));
        }
        if children.len() == 1 {
            circuit_from_expr_with_context(&children[0], entries)
        } else {
            let input_vars = repeat_entry_names(entries, children.len());
            let _count = input_vars.len();
            proof {
                assert(string_views(input_vars@).len() == input_vars@.len());
                lemma_repeated_in(entry_names(entries@), children@.len() as nat);
                crate::tape_language::circuit::lemma_full_wiring_support(
                    entry_names(entries@),
                    string_views(input_vars@),
                );
            }
            let copy: Circuit<TypeExpr, ExprGenerator> = Circuit::wiring_circuit_for_context(entries, input_vars.as_slice());
            let mut circuits: Vec<Circuit<TypeExpr, ExprGenerator>> = Vec::new();
            let mut i: usize = 0;
            while i < children.len()
                invariant
                    i <= children@.len(),
                    children@ == ch,
                    ch == tree.children_view(),
                    relation_ready(*tree),
                    ctx == first_child_context(*tree),
                    entry_names(entries@) == names_of(ctx),
                    entry_sort_views(entries@) == sorts_of(ctx),
                    circuits@.len() == i,
                    forall|j: int| 0 <= j < i ==> circuit_view(#[trigger] circuits@[j]) == argument_circuit(ctx, ch[j]),
                decreases children@.len() - i,
            {
                proof {
                    assert(tree.children_view()[i as int] == ch[i as int]);
                    assert(circuit_ready(ch[i as int]) && uses_in_context(names_of(ctx), ch[i as int].input_vars()));
                }
                circuits.push(circuit_from_expr_with_context(&children[i], entries));
                i = i + 1;
            }
            let ghost cs = circuits@;
            let args_product = Circuit::product_many(circuits);
            proof {
                lemma_view_product_all(cs);
                assert(cs.map_values(|c: Circuit<TypeExpr, ExprGenerator>| circuit_view(c)) =~= ch.map_values(
                    |c: DeductionTree| argument_circuit(ctx, c),
                ));
                crate::tape_language::circuit::lemma_view_seq_product(copy, args_product);
            }
            Circuit::seq(copy, args_product)
        }
    };
    let op: Circuit<TypeExpr, ExprGenerator> = Circuit::Generator(ExprGenerator::predicate(name, arg_types, negated));
    proof {
        crate::tape_language::circuit::lemma_view_seq_product(inputs, op);
    }
    Circuit::seq(inputs, op)
}

/// The tape of a predicate, negated when `negated` holds: `and` copies the
/// context into a product, `or` splits it into a sum and merges the
/// results, `not` flips the negation, constants discard the context (and
/// create nothing when false), and relations become predicate boxes.
pub fn tape_from_predicate_with_negation(tree: &DeductionTree, negated: bool) -> (r: Tape<TypeExpr, ExprGenerator>)
    requires
        predicate_ready(*tree),
    ensures
        tape_view(r) == pred_tape(*tree, negated),
    decreases tree,
{
    let children = tree.children();
    let entries = tree.judgment().context().entries();
    proof {
        lemma_children_decrease(*tree);
    }
    match tree.form() {
        ExprForm::Const(label) => {
            let is_true = str_equal(label.as_str(), "True");
            let context = context_monomial(entries);
            if is_true != negated {
                Tape::Discard(context)
            } else {
                let d: Tape<TypeExpr, ExprGenerator> = Tape::Discard(context);
                let c: Tape<TypeExpr, ExprGenerator> = Tape::Create(Monomial::One);
                proof {
                    assert(tape_view(d) == Tape::<TypeModel, ExprGeneratorModel>::Discard(monomial_view(context)));
                    assert(tape_view(c) == Tape::<TypeModel, ExprGeneratorModel>::Create(Monomial::One));
                }
                Tape::Sequence(Box::new(d), Box::new(c))
            }
        },
        ExprForm::BoolOp(op) => {
            let is_and = str_equal(op.as_str(), "and");
            let left = tape_from_predicate_with_negation(&children[0], negated);
            let right = tape_from_predicate_with_negation(&children[1], negated);
            let context = context_monomial(entries);
            if is_and != negated {
                proof {
                    crate::tape_language::lemma_view_sorts(context);
                }
                let copy: Tape<TypeExpr, ExprGenerator> = Tape::copy_wires(context);
                let prod: Tape<TypeExpr, ExprGenerator> = Tape::Product(Box::new(left), Box::new(right));
                proof {
                    assert(tape_view(prod) == Tape::<TypeModel, ExprGeneratorModel>::Product(
                        Box::new(tape_view(left)),
                        Box::new(tape_view(right)),
                    ));
                }
                Tape::Sequence(Box::new(copy), Box::new(prod))
            } else {
                let split: Tape<TypeExpr, ExprGenerator> = Tape::Split(context);
                let sum: Tape<TypeExpr, ExprGenerator> = Tape::Sum(Box::new(left), Box::new(right));
                proof {
                    assert(tape_view(split) == Tape::<TypeModel, ExprGeneratorModel>::Split(monomial_view(context)));
                    assert(tape_view(sum) == Tape::<TypeModel, ExprGeneratorModel>::Sum(
                        Box::new(tape_view(left)),
                        Box::new(tape_view(right)),
                    ));
                }
                let merged: Tape<TypeExpr, ExprGenerator> = Tape::Sequence(Box::new(split), Box::new(sum));
                let merge: Tape<TypeExpr, ExprGenerator> = Tape::Merge(Monomial::One);
                proof {
                    assert(tape_view(merged) == Tape::<TypeModel, ExprGeneratorModel>::Sequence(
                        Box::new(tape_view(split)),
                        Box::new(tape_view(sum)),
                    ));
                    assert(tape_view(merge) == Tape::<TypeModel, ExprGeneratorModel>::Merge(Monomial::One));
                }
                Tape::Sequence(Box::new(merged), Box::new(merge))
            }
        },
        ExprForm::UnaryOp(_) => tape_from_predicate_with_negation(&children[0], !negated),
        _ => tape_from_relation(tree, negated),
    }
}

/// The tape of a relation: its circuit, embedded.
fn tape_from_relation(tree: &DeductionTree, negated: bool) -> (r: Tape<TypeExpr, ExprGenerator>)
    requires
        relation_ready(*tree),
    ensures
        tape_view(r) == Tape::<TypeModel, ExprGeneratorModel>::EmbedCircuit(Box::new(relation_circuit(*tree, negated))),
{
    Tape::EmbedCircuit(Box::new(circuit_from_relation(tree, negated)))
}

/// The tape of a predicate.
pub fn tape_from_predicate(tree: &DeductionTree) -> (r: Tape<TypeExpr, ExprGenerator>)
    requires
        predicate_ready(*tree),
    ensures
        tape_view(r) == pred_tape(*tree, false),
{
    tape_from_predicate_with_negation(tree, false)
}

/// Decides whether two lists of context entries have the same models.
pub fn entries_equal(a: &[(String, TypeExpr)], b: &[(String, TypeExpr)]) -> (r: bool)
    ensures
        r == (entries_view(a@) == entries_view(b@)),
{
    if a.len() != b.len() {
        proof {
            assert(entries_view(a@).len() != entries_view(b@).len());
        }
        return false;
    }
    let mut i: usize = 0;
    while i < a.len()
        invariant
            i <= a@.len(),
            a@.len() == b@.len(),
            forall|k: int| 0 <= k < i ==> #[trigger] entries_view(a@)[k] == entries_view(b@)[k],
        decreases a@.len() - i,
    {
        let same_name = a[i].0 == b[i].0;
        if !same_name || !a[i].1.same(&b[i].1) {
            proof {
                assert(entries_view(a@)[i as int] != entries_view(b@)[i as int]);
            }
            return false;
        }
        i = i + 1;
    }
    proof {
        assert(entries_view(a@) =~= entries_view(b@));
    }
    true
}

/// Decides whether no name occurs twice among the entries.
pub fn names_unique(entries: &[(String, TypeExpr)]) -> (r: bool)
    ensures
        r == unique_names(names_of(entries_view(entries@))),
{
    let ghost names = names_of(entries_view(entries@));
    let mut j: usize = 0;
    while j < entries.len()
        invariant
            j <= entries@.len(),
            names == names_of(entries_view(entries@)),
            forall|a: int, b: int| 0 <= a < b < j ==> names[a] != names[b],
        decreases entries@.len() - j,
    {
        let mut i: usize = 0;
        while i < j
            invariant
                i <= j < entries@.len(),
                names == names_of(entries_view(entries@)),
                forall|a: int, b: int| 0 <= a < b < j ==> names[a] != names[b],
                forall|a: int| 0 <= a < i ==> names[a] != names[j as int],
            decreases j - i,
        {
            let same = entries[i].0 == entries[j].0;
            if same {
                proof {
                    assert(names[i as int] == names[j as int]);
                }
                return false;
            }
            i = i + 1;
        }
        j = j + 1;
    }
    true
}

/// Decides whether every use is a name of the entries.
pub(crate) fn uses_check(entries: &[(String, TypeExpr)], vars: &Vec<String>) -> (r: bool)
    ensures
        r == uses_in_context(entry_names(entries@), string_views(vars@)),
{
    let mut k: usize = 0;
    while k < vars.len()
        invariant
            k <= vars@.len(),
            forall|j: int| 0 <= j < k ==> entry_names(entries@).contains(#[trigger] string_views(vars@)[j]),
        decreases vars@.len() - k,
    {
        let mut found = false;
        let mut i: usize = 0;
        while i < entries.len()
            invariant
                i <= entries@.len(),
                k < vars@.len(),
                found ==> entry_names(entries@).contains(string_views(vars@)[k as int]),
                !found ==> forall|a: int| 0 <= a < i ==> entry_names(entries@)[a] != string_views(vars@)[k as int],
            decreases entries@.len() - i,
        {
            let same = entries[i].0 == vars[k];
            if same {
                proof {
                    assert(entry_names(entries@)[i as int] == string_views(vars@)[k as int]);
                }
                found = true;
            }
            i = i + 1;
        }
        if !found {
            proof {
                assert(!entry_names(entries@).contains(string_views(vars@)[k as int]));
            }
            return false;
        }
        k = k + 1;
    }
    true
}

/// Decides whether a relation node is ready for its circuit.
fn relation_ready_check(tree: &DeductionTree) -> (r: bool)
    ensures
        r == relation_ready(*tree),
{
    let children = tree.children();
    let ghost ch = tree.children_view();
    let ghost ctx = first_child_context(*tree);
    if children.len() == 0 {
        let none: Vec<(String, TypeExpr)> = Vec::new();
        proof {
            assert(entries_view(none@) =~= Seq::<(Seq<char>, TypeModel)>::empty());
        }
        return names_unique(none.as_slice());
    }
    let first = children[0].judgment().context().entries();
    if !names_unique(first) {
        return false;
    }
    proof {
        assert(entry_names(first@) =~= names_of(ctx));
    }
    let mut k: usize = 0;
    while k < children.len()
        invariant
            k <= children@.len(),
            children@ == ch,
            ch == tree.children_view(),
            ctx == first_child_context(*tree),
            entries_view(first@) == ctx,
            entry_names(first@) == names_of(ctx),
            unique_names(names_of(ctx)),
            forall|j: int|
                0 <= j < k ==> (#[trigger] ch[j]).judgment_view().context_view() == ctx && circuit_ready(ch[j])
                    && uses_in_context(names_of(ctx), ch[j].input_vars()),
        decreases children@.len() - k,
    {
        let child = &children[k];
        if !entries_equal(child.judgment().context().entries(), first) {
            return false;
        }
        if !circuit_ready_check(child) {
            return false;
        }
        let vars = child.expr_input_vars();
        proof {
            assert(string_views(vars@) =~= ch[k as int].input_vars());
        }
        if !uses_check(first, &vars) {
            return false;
        }
        k = k + 1;
    }
    true
}

/// Decides whether a predicate tree is accepted by the tape construction.
pub fn predicate_ready_check(tree: &DeductionTree) -> (r: bool)
    ensures
        r == predicate_ready(*tree),
    decreases tree,
{
    let children = tree.children();
    proof {
        lemma_children_decrease(*tree);
    }
    match tree.form() {
        ExprForm::Const(label) => str_equal(label.as_str(), "True") || str_equal(label.as_str(), "False"),
        ExprForm::BoolOp(op) => {
            if children.len() != 2 {
                return false;
            }
            if !(str_equal(op.as_str(), "and") || str_equal(op.as_str(), "or")) {
                return false;
            }
            let len = tree.judgment().context().entries().len();
            if len > usize::MAX / 2 {
                return false;
            }
            predicate_ready_check(&children[0]) && predicate_ready_check(&children[1])
        },
        ExprForm::UnaryOp(op) => {
            if children.len() == 0 {
                return false;
            }
            str_equal(op.as_str(), "not") && predicate_ready_check(&children[0])
        },
        ExprForm::Call(_) => {
            let is_bool = match tree.judgment().ty() {
                TypeExpr::Bool => true,
                _ => false,
            };
            is_bool && relation_ready_check(tree)
        },
        ExprForm::Compare(_) => relation_ready_check(tree),
        _ => false,
    }
}

} // verus!
