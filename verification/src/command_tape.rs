//! Tapes of commands: abort discards the context, skip is its identity, an
//! assignment rewires the context through the expression's circuit, a
//! sequence composes, and a conditional copies the context into the two
//! branches gated by the predicate and its negation, then joins them.

use vstd::prelude::*;

use crate::command_typing::{command_form_model, CommandChild, CommandDerivationTree, CommandForm, CommandFormModel};
use crate::expression_circuit::{
    circuit_from_expr_with_context, circuit_ready, circuit_ready_check, expr_circuit, ExprGenerator, ExprGeneratorModel,
};
use crate::predicate_tape::{
    ctx_monomial, names_of, names_unique, pred_tape, predicate_ready, predicate_ready_check, sorts_of, tape_from_predicate,
    tape_from_predicate_with_negation,
};
use crate::tape_language::circuit::{
    circuit_view, copy_wires_circuit, entry_names, entry_sort_views, id_circuit, join_wires_circuit, lemma_view_id,
    lemma_view_seq_product, string_views, uses_in_context, wiring_circuit, Circuit,
};
use crate::tape_language::circuit_laws::unique_names;
use crate::tape_language::tape::{tape_io, tape_view, Tape, TapeValidationError};
use crate::tape_language::{entry_sorts, lemma_from_sorts_sorts, lemma_view_sorts, monomial_view, views, Monomial};
use crate::tape_model::{lemma_product_model, lemma_tape_io_model, product_model, tape_io_model, CircuitModel, TapeModel};
use crate::types::{TypeExpr, TypeModel};
use crate::typing::{entries_view, DeductionTree};

verus! {

/// Why a command derivation has no tape.
#[derive(Debug)]
pub enum CommandTapeError {
    /// Loops have no tape yet.
    WhileNotSupported,
    /// A derivation without the premises its form needs.
    MalformedDerivation,
    /// An assignment to a variable its context does not bind.
    TargetNotInContext(String),
    /// An expression or predicate whose circuit cannot be built.
    NotReady,
    /// A context too large to copy.
    ContextTooLarge,
    /// A gate whose product does not type check.
    Product(TapeValidationError<TypeExpr>),
}

/// The entries of a context with the entry at `index` left out.
pub open spec fn types_before(entries: Seq<(Seq<char>, TypeModel)>, index: int) -> Seq<TypeModel> {
    sorts_of(entries.subrange(0, index))
}

/// The types of the entries after `index`.
pub open spec fn types_after(entries: Seq<(Seq<char>, TypeModel)>, index: int) -> Seq<TypeModel> {
    sorts_of(entries.subrange(index + 1, entries.len() as int))
}

/// The position of the first entry named `name`, or the number of entries.
pub open spec fn position_of_name(entries: Seq<(Seq<char>, TypeModel)>, name: Seq<char>) -> int
    decreases entries.len(),
{
    if entries.len() == 0 {
        0
    } else if entries[0].0 == name {
        0
    } else {
        1 + position_of_name(entries.drop_first(), name)
    }
}

/// The commands among the children of a derivation, in order.
pub open spec fn command_children(cs: Seq<CommandChild>) -> Seq<CommandDerivationTree>
    decreases cs.len(),
{
    if cs.len() == 0 {
        Seq::empty()
    } else {
        command_children(cs.drop_last()) + match cs.last() {
            CommandChild::Command(c) => seq![c],
            _ => Seq::empty(),
        }
    }
}

/// Each command among the children is one of the children.
proof fn lemma_command_children_in(cs: Seq<CommandChild>, k: int) -> (j: int)
    requires
        0 <= k < command_children(cs).len(),
    ensures
        0 <= j < cs.len(),
        cs[j] == CommandChild::Command(command_children(cs)[k]),
    decreases cs.len(),
{
    let init = command_children(cs.drop_last());
    if k < init.len() {
        let j = lemma_command_children_in(cs.drop_last(), k);
        assert(cs.drop_last()[j] == cs[j]);
        j
    } else {
        (cs.len() - 1) as int
    }
}

/// Each command among the children of a derivation is smaller than it.
pub proof fn lemma_command_child_decreases(t: CommandDerivationTree, k: int)
    requires
        0 <= k < command_children(t.children_view()).len(),
    ensures
        decreases_to!(t => command_children(t.children_view())[k]),
{
    crate::command_typing::lemma_command_children_decrease(t);
    let j = lemma_command_children_in(t.children_view(), k);
    let c = command_children(t.children_view())[k];
    assert(decreases_to!(t => t.children_view()[j]));
    let x = t.children_view()[j];
    assert(x == CommandChild::Command(c));
    assert(decreases_to!(x => x->Command_0));
}

/// The circuit of an assignment to `name` (see `assignment_tape`), or
/// `None` when the target is not in the context, the derivation lacks its
/// expression, the expression's circuit cannot be built from the context,
/// or the context is too large to copy.
pub open spec fn assign_model(t: CommandDerivationTree, name: Seq<char>) -> Option<CircuitModel> {
    let ctx = t.judgment_view().context_view();
    let ch = t.children_view();
    let index = position_of_name(ctx, name);
    if index >= ctx.len() || ch.len() == 0 || !(ch[0] is Expression) {
        None
    } else {
        let e = ch[0]->Expression_0;
        if !circuit_ready(e) || !unique_names(names_of(ctx)) || !uses_in_context(names_of(ctx), e.input_vars())
            || ctx.len() > usize::MAX / 2 {
            None
        } else {
            let before = types_before(ctx, index);
            let after = types_after(ctx, index);
            let expr = Circuit::Sequence(
                Box::new(wiring_circuit::<TypeModel, ExprGeneratorModel>(names_of(ctx), sorts_of(ctx), e.input_vars())),
                Box::new(expr_circuit(e)),
            );
            let split = Circuit::spec_product(
                copy_wires_circuit(before),
                Circuit::spec_product(Circuit::Id(ctx[index].1), copy_wires_circuit(after)),
            );
            let updated = Circuit::spec_product(
                id_circuit(before),
                Circuit::spec_product(expr, id_circuit(after)),
            );
            Some(Circuit::spec_seq(split, updated))
        }
    }
}

/// A branch of a conditional over the context monomial `m`: the context
/// copied, the predicate beside one copy, then the command; `None` when the
/// context is too large to copy or the predicate's product with the context
/// does not type check.
#[verifier::opaque]
pub open spec fn gate_model(m: Monomial<TypeModel>, pred: TapeModel, exec: TapeModel) -> Option<TapeModel> {
    if m.sorts().len() > usize::MAX / 2 || tape_io_model(pred) is None {
        None
    } else {
        let gated = product_model(pred, Tape::Id(m));
        if tape_io_model(gated) is None {
            None
        } else {
            Some(
                Tape::spec_seq(
                    Tape::EmbedCircuit(Box::new(copy_wires_circuit(m.sorts()))),
                    Tape::spec_seq(gated, exec),
                ),
            )
        }
    }
}

/// A conditional over the context monomial `m` with predicate `p`, given
/// the tapes of its branches: the context copied, the two branches gated by
/// the predicate and by its negation and summed, the context joined back.
pub open spec fn if_model(
    m: Monomial<TypeModel>,
    p: DeductionTree,
    then_tape: Option<TapeModel>,
    else_tape: Option<TapeModel>,
) -> Option<TapeModel> {
    match (then_tape, else_tape) {
        (Some(v1), Some(v2)) => match (gate_model(m, pred_tape(p, false), v1), gate_model(m, pred_tape(p, true), v2)) {
            (Some(g1), Some(g2)) => if m.sorts().len() > usize::MAX / 2 {
                None
            } else {
                Some(
                    Tape::Sequence(
                        Box::new(Tape::EmbedCircuit(Box::new(copy_wires_circuit(m.sorts())))),
                        Box::new(
                            Tape::Sequence(
                                Box::new(Tape::Sum(Box::new(g1), Box::new(g2))),
                                Box::new(Tape::EmbedCircuit(Box::new(join_wires_circuit(m.sorts())))),
                            ),
                        ),
                    ),
                )
            },
            _ => None,
        },
        _ => None,
    }
}

/// Two tapes in sequence, inside one embedding when both are circuits.
pub open spec fn seq_model(left: TapeModel, right: TapeModel) -> TapeModel {
    if left is EmbedCircuit && right is EmbedCircuit {
        Tape::EmbedCircuit(Box::new(Circuit::spec_seq(*left->EmbedCircuit_0, *right->EmbedCircuit_0)))
    } else {
        Tape::Sequence(Box::new(left), Box::new(right))
    }
}

/// The view of the tape of a command derivation, or `None` when it has none:
/// abort discards the context and skip is its identity; an assignment is
/// its circuit (`assign_model`) embedded; a sequence puts the tapes of its
/// first two commands in sequence (`seq_model`); a conditional copies the
/// context into its two branches, gated by the predicate and by its
/// negation (`gate_model`), sums them and joins the context back. Loops
/// have no tape.
#[verifier::opaque]
pub open spec fn command_tape(t: CommandDerivationTree) -> Option<TapeModel>
    decreases t,
{
    let ctx = t.judgment_view().context_view();
    let ch = t.children_view();
    let m = ctx_monomial(ctx);
    match t.form_view() {
        CommandFormModel::Abort => Some(Tape::Discard(m)),
        CommandFormModel::Skip => Some(Tape::Id(m)),
        CommandFormModel::Assign(name) => match assign_model(t, name) {
            Some(c) => Some(Tape::EmbedCircuit(Box::new(c))),
            None => None,
        },
        CommandFormModel::Sequence => {
            let cmds = command_children(ch);
            if cmds.len() < 2 {
                None
            } else {
                proof {
                    lemma_command_child_decreases(t, 0);
                    lemma_command_child_decreases(t, 1);
                }
                match (command_tape(cmds[0]), command_tape(cmds[1])) {
                    (Some(l), Some(r)) => Some(seq_model(l, r)),
                    _ => None,
                }
            }
        },
        CommandFormModel::If => {
            if ch.len() != 3 || !(ch[0] is Predicate) || !(ch[1] is Command) || !(ch[2] is Command) || !predicate_ready(
                ch[0]->Predicate_0,
            ) {
                None
            } else {
                proof {
                    crate::command_typing::lemma_command_children_decrease(t);
                    assert(decreases_to!(t => ch[1]));
                    assert(decreases_to!(t => ch[2]));
                }
                if_model(m, ch[0]->Predicate_0, command_tape(ch[1]->Command_0), command_tape(ch[2]->Command_0))
            }
        },
        CommandFormModel::While => None,
    }
}

/// The conditional case of `command_tape`: three premises, a ready
/// predicate and two commands, else no tape.
pub open spec fn if_case(t: CommandDerivationTree) -> Option<TapeModel> {
    let ch = t.children_view();
    if ch.len() != 3 || !(ch[0] is Predicate) || !(ch[1] is Command) || !(ch[2] is Command) || !predicate_ready(
        ch[0]->Predicate_0,
    ) {
        None
    } else {
        if_model(
            ctx_monomial(t.judgment_view().context_view()),
            ch[0]->Predicate_0,
            command_tape(ch[1]->Command_0),
            command_tape(ch[2]->Command_0),
        )
    }
}

/// A conditional's tape is given by `if_case`.
proof fn lemma_command_tape_if(t: CommandDerivationTree)
    requires
        t.form_view() is If,
    ensures
        command_tape(t) == if_case(t),
{
    reveal(command_tape);
}

/// A conditional runs its first branch where its predicate holds and its
/// second where the predicate fails: the tape of an `if` copies the
/// context into the sum of the then-branch gated by the tape of the
/// predicate and the else-branch gated by the tape of its negation, and
/// joins the context back.
pub proof fn law_if_then_branch_where_predicate_holds(t: CommandDerivationTree)
    requires
        t.form_view() is If,
        command_tape(t) is Some,
    ensures
        ({
            let ch = t.children_view();
            let m = ctx_monomial(t.judgment_view().context_view());
            &&& ch.len() == 3 && ch[0] is Predicate && ch[1] is Command && ch[2] is Command
            &&& command_tape(ch[1]->Command_0) is Some && command_tape(ch[2]->Command_0) is Some
            &&& gate_model(m, pred_tape(ch[0]->Predicate_0, false), command_tape(ch[1]->Command_0)->0) is Some
            &&& gate_model(m, pred_tape(ch[0]->Predicate_0, true), command_tape(ch[2]->Command_0)->0) is Some
            &&& command_tape(t) == Some(
                Tape::<TypeModel, ExprGeneratorModel>::Sequence(
                    Box::new(Tape::EmbedCircuit(Box::new(copy_wires_circuit(m.sorts())))),
                    Box::new(
                        Tape::Sequence(
                            Box::new(
                                Tape::Sum(
                                    Box::new(
                                        gate_model(
                                            m,
                                            pred_tape(ch[0]->Predicate_0, false),
                                            command_tape(ch[1]->Command_0)->0,
                                        )->0,
                                    ),
                                    Box::new(
                                        gate_model(
                                            m,
                                            pred_tape(ch[0]->Predicate_0, true),
                                            command_tape(ch[2]->Command_0)->0,
                                        )->0,
                                    ),
                                ),
                            ),
                            Box::new(Tape::EmbedCircuit(Box::new(join_wires_circuit(m.sorts())))),
                        ),
                    ),
                ),
            )
        }),
{
    lemma_command_tape_if(t);
}

/// The types of a list of entries, copied.
fn entry_types(entries: &[(String, TypeExpr)], lo: usize, hi: usize) -> (r: Vec<TypeExpr>)
    requires
        lo <= hi <= entries@.len(),
    ensures
        r.deep_view() == sorts_of(entries_view(entries@).subrange(lo as int, hi as int)),
{
    let mut out: Vec<TypeExpr> = Vec::new();
    let mut i: usize = lo;
    while i < hi
        invariant
            lo <= i <= hi <= entries@.len(),
            out@.len() == i - lo,
            out.deep_view() == sorts_of(entries_view(entries@).subrange(lo as int, i as int)),
        decreases hi - i,
    {
        let ghost before = out@;
        let ghost before_view = out.deep_view();
        out.push(entries[i].1.copy());
        proof {
            assert forall|k: int| 0 <= k < i - lo implies out.deep_view()[k] == sorts_of(
                entries_view(entries@).subrange(lo as int, i + 1),
            )[k] by {
                assert(out@[k] == before[k]);
                assert(before_view[k] == sorts_of(entries_view(entries@).subrange(lo as int, i as int))[k]);
            }
            assert(out.deep_view() =~= sorts_of(entries_view(entries@).subrange(lo as int, i + 1)));
        }
        i = i + 1;
    }
    out
}

/// The position of the entry named `name`.
fn find_name(entries: &[(String, TypeExpr)], name: &String) -> (r: Option<usize>)
    ensures
        match r {
            Some(i) => i < entries@.len() && entries@[i as int].0@ == name@ && forall|k: int|
                0 <= k < i ==> #[trigger] entries@[k].0@ != name@,
            None => forall|k: int| 0 <= k < entries@.len() ==> #[trigger] entries@[k].0@ != name@,
        },
{
    let mut i: usize = 0;
    while i < entries.len()
        invariant
            i <= entries@.len(),
            forall|k: int| 0 <= k < i ==> #[trigger] entries@[k].0@ != name@,
        decreases entries@.len() - i,
    {
        let same = entries[i].0 == *name;
        if same {
            return Some(i);
        }
        i = i + 1;
    }
    None
}

/// `find_name`'s answer is the position of the name.
proof fn lemma_position_of_name(entries: Seq<(String, TypeExpr)>, name: Seq<char>, i: int)
    requires
        0 <= i <= entries.len(),
        forall|k: int| 0 <= k < i ==> #[trigger] entries[k].0@ != name,
        i < entries.len() ==> entries[i].0@ == name,
    ensures
        position_of_name(entries_view(entries), name) == i,
    decreases i,
{
    let ev = entries_view(entries);
    if entries.len() > 0 {
        if i > 0 {
            assert(ev.drop_first() =~= entries_view(entries.drop_first()));
            assert forall|k: int| 0 <= k < i - 1 implies #[trigger] entries.drop_first()[k].0@ != name by {
                assert(entries.drop_first()[k] == entries[k + 1]);
            }
            lemma_position_of_name(entries.drop_first(), name, i - 1);
            assert(ev[0].0 == entries[0].0@);
        }
    }
}

/// The tape of an assignment: every other wire of the context is copied
/// and the old value of the target kept, then the expression computes the
/// new value of the target from one copy of the context while the other
/// copies pass.
fn assignment_tape(tree: &CommandDerivationTree, name: &String) -> (r: Result<Tape<TypeExpr, ExprGenerator>, CommandTapeError>)
    ensures
        match r {
            Ok(tape) => assign_model(*tree, name@) matches Some(c) && tape_view(tape) == Tape::<
                TypeModel,
                ExprGeneratorModel,
            >::EmbedCircuit(Box::new(c)),
            Err(_) => assign_model(*tree, name@) is None,
        },
{
    let context_entries = tree.judgment().context().entries();
    let ghost ctx = tree.judgment_view().context_view();
    assert(entries_view(context_entries@) == ctx);
    let index = match find_name(context_entries, name) {
        Some(i) => i,
        None => {
            proof {
                lemma_position_of_name(context_entries@, name@, context_entries@.len() as int);
            }
            return Err(CommandTapeError::TargetNotInContext(name.clone()));
        },
    };
    proof {
        lemma_position_of_name(context_entries@, name@, index as int);
    }
    let children = tree.children();
    if children.len() == 0 {
        return Err(CommandTapeError::MalformedDerivation);
    }
    let expr_tree = match &children[0] {
        CommandChild::Expression(e) => e,
        _ => {
            return Err(CommandTapeError::MalformedDerivation);
        },
    };
    proof {
        assert(entry_names(context_entries@) =~= names_of(ctx));
    }
    if !circuit_ready_check(expr_tree) || !names_unique(context_entries) {
        return Err(CommandTapeError::NotReady);
    }
    let vars = expr_tree.expr_input_vars();
    proof {
        assert(string_views(vars@) =~= expr_tree.input_vars());
    }
    if !crate::predicate_tape::uses_check(context_entries, &vars) {
        return Err(CommandTapeError::NotReady);
    }
    if context_entries.len() > usize::MAX / 2 {
        return Err(CommandTapeError::ContextTooLarge);
    }
    let left_types = entry_types(context_entries, 0, index);
    let right_types = entry_types(context_entries, index + 1, context_entries.len());
    let lhs_ty = context_entries[index].1.copy();
    let expr_circuit = circuit_from_expr_with_context(expr_tree, context_entries);
    let left_dup = crate::label::duplicate_all(&left_types);
    let right_dup = crate::label::duplicate_all(&right_types);
    let ghost left_terms = left_dup@;
    let ghost right_terms = right_dup@;
    let left_id: Circuit<TypeExpr, ExprGenerator> = Circuit::id(left_dup);
    let right_id: Circuit<TypeExpr, ExprGenerator> = Circuit::id(right_dup);
    proof {
        assert(left_types@.len() == left_types.deep_view().len());
        assert(right_types@.len() == right_types.deep_view().len());
    }
    let ghost lv = views(left_types@);
    let ghost rv = views(right_types@);
    let left_copy: Circuit<TypeExpr, ExprGenerator> = Circuit::copy_wires(left_types);
    let right_copy: Circuit<TypeExpr, ExprGenerator> = Circuit::copy_wires(right_types);
    let lhs = Circuit::Id(lhs_ty);
    let split_right = Circuit::product(lhs, right_copy);
    let split = Circuit::product(left_copy, split_right);
    let updated_right = Circuit::product(expr_circuit, right_id);
    let updated = Circuit::product(left_id, updated_right);
    let assign = Circuit::seq(split, updated);
    proof {
        let before = types_before(ctx, index as int);
        let after = types_after(ctx, index as int);
        assert(lv =~= before);
        assert(rv =~= after);
        lemma_view_id::<TypeExpr, ExprGenerator>(left_terms);
        lemma_view_id::<TypeExpr, ExprGenerator>(right_terms);
        assert(views(left_terms) =~= before);
        assert(views(right_terms) =~= after);
        assert(entry_sort_views(context_entries@) =~= sorts_of(ctx));
        lemma_view_seq_product(lhs, right_copy);
        lemma_view_seq_product(left_copy, split_right);
        lemma_view_seq_product(expr_circuit, right_id);
        lemma_view_seq_product(left_id, updated_right);
        lemma_view_seq_product(split, updated);
        assert(ctx[index as int].1 == crate::types::type_model(context_entries@[index as int].1));
    }
    Ok(Tape::EmbedCircuit(Box::new(assign)))
}

/// The monomial of the context at a derivation's root.
fn context_monomial(tree: &CommandDerivationTree) -> (r: Monomial<TypeExpr>)
    ensures
        monomial_view(r) == ctx_monomial(tree.judgment_view().context_view()),
        monomial_view(r).sorts() == sorts_of(tree.judgment_view().context_view()),
{
    let entries = tree.judgment().context().entries();
    let m = Monomial::from_context(entries);
    proof {
        assert(views(entry_sorts(entries@)) =~= sorts_of(entries_view(entries@)));
    }
    m
}

/// A branch of a conditional: the context is copied, one copy goes through
/// the predicate beside the other, and the command runs on what passes.
fn gate_tape(
    context: &Monomial<TypeExpr>,
    pred_tape: Tape<TypeExpr, ExprGenerator>,
    exec_tape: Tape<TypeExpr, ExprGenerator>,
) -> (r: Result<Tape<TypeExpr, ExprGenerator>, CommandTapeError>)
    ensures
        match r {
            Ok(tape) => gate_model(monomial_view(*context), tape_view(pred_tape), tape_view(exec_tape)) == Some(
                tape_view(tape),
            ),
            Err(_) => gate_model(monomial_view(*context), tape_view(pred_tape), tape_view(exec_tape)) is None,
        },
{
    reveal(gate_model);
    let ghost m = monomial_view(*context);
    let id_context: Tape<TypeExpr, ExprGenerator> = Tape::Id(context.duplicate());
    let sorts = context.sorts_vec();
    proof {
        lemma_view_sorts(*context);
        assert(sorts@.len() == sorts.deep_view().len());
    }
    if sorts.len() > usize::MAX / 2 {
        return Err(CommandTapeError::ContextTooLarge);
    }
    let dup = context.duplicate();
    proof {
        lemma_view_sorts(dup);
        assert(dup.sorts().len() == sorts@.len());
    }
    let copy: Tape<TypeExpr, ExprGenerator> = Tape::copy_wires(dup);
    let pred_io = pred_tape.io_types();
    let id_io = id_context.io_types();
    proof {
        lemma_tape_io_model(pred_tape);
        lemma_tape_io_model(id_context);
        assert(tape_view(id_context) == Tape::<TypeModel, ExprGeneratorModel>::Id(m));
    }
    if pred_io.is_none() || id_io.is_none() {
        return Err(CommandTapeError::NotReady);
    }
    let product = Tape::product(&pred_tape, &id_context);
    let gated = match product {
        Ok(t) => t,
        Err(e) => {
            proof {
                let t = choose|t: Tape<TypeExpr, ExprGenerator>|
                    crate::tape_language::whisk::is_product_of(pred_tape, id_context, t) && tape_io(t) is None;
                lemma_product_model(pred_tape, id_context, t);
            }
            return Err(CommandTapeError::Product(e));
        },
    };
    proof {
        lemma_product_model(pred_tape, id_context, gated);
    }
    let inner = Tape::seq(gated, exec_tape);
    let result = Tape::seq(copy, inner);
    proof {
        crate::tape_language::builders::lemma_view_tape_seq(gated, exec_tape);
        crate::tape_language::builders::lemma_view_tape_seq(copy, inner);
    }
    Ok(result)
}

/// The tape of a conditional: the context is copied into the two branches,
/// the first gated by the predicate, the second by its negation, and the
/// results joined.
#[verifier::rlimit(60)]
#[verifier::spinoff_prover]
fn if_tape(tree: &CommandDerivationTree) -> (r: Result<Tape<TypeExpr, ExprGenerator>, CommandTapeError>)
    requires
        tree.form_view() is If,
    ensures
        match r {
            Ok(tape) => command_tape(*tree) == Some(tape_view(tape)),
            Err(_) => command_tape(*tree) is None,
        },
    decreases tree, 0nat,
{
    proof {
        lemma_command_tape_if(*tree);
    }
    let children = tree.children();
    if children.len() != 3 {
        return Err(CommandTapeError::MalformedDerivation);
    }
    let pred = match &children[0] {
        CommandChild::Predicate(p) => p,
        _ => {
            return Err(CommandTapeError::MalformedDerivation);
        },
    };
    let then_branch = match &children[1] {
        CommandChild::Command(c) => c,
        _ => {
            return Err(CommandTapeError::MalformedDerivation);
        },
    };
    let else_branch = match &children[2] {
        CommandChild::Command(c) => c,
        _ => {
            return Err(CommandTapeError::MalformedDerivation);
        },
    };
    if !predicate_ready_check(pred) {
        return Err(CommandTapeError::NotReady);
    }
    proof {
        crate::command_typing::lemma_command_children_decrease(*tree);
        assert(decreases_to!(*tree => children@[1]));
        assert(decreases_to!(*tree => children@[2]));
    }
    let then_tape = match tape_from_command(then_branch) {
        Ok(t) => t,
        Err(e) => {
            return Err(e);
        },
    };
    let else_tape = match tape_from_command(else_branch) {
        Ok(t) => t,
        Err(e) => {
            return Err(e);
        },
    };
    let positive = tape_from_predicate(pred);
    let negative = tape_from_predicate_with_negation(pred, true);
    let context = context_monomial(tree);
    let left = match gate_tape(&context, positive, then_tape) {
        Ok(t) => t,
        Err(e) => {
            return Err(e);
        },
    };
    let right = match gate_tape(&context, negative, else_tape) {
        Ok(t) => t,
        Err(e) => {
            return Err(e);
        },
    };
    let sorts = context.sorts_vec();
    proof {
        lemma_view_sorts(context);
        assert(sorts@.len() == sorts.deep_view().len());
    }
    if sorts.len() > usize::MAX / 2 {
        return Err(CommandTapeError::ContextTooLarge);
    }
    let dup = context.duplicate();
    proof {
        lemma_view_sorts(dup);
    }
    let copy: Tape<TypeExpr, ExprGenerator> = Tape::copy_wires(dup);
    let join: Tape<TypeExpr, ExprGenerator> = Tape::join_wires(context);
    let branches: Tape<TypeExpr, ExprGenerator> = Tape::Sum(Box::new(left), Box::new(right));
    let tail: Tape<TypeExpr, ExprGenerator> = Tape::Sequence(Box::new(branches), Box::new(join));
    let result = Tape::Sequence(Box::new(copy), Box::new(tail));
    proof {
        let ctx = tree.judgment_view().context_view();
        let m = ctx_monomial(ctx);
        let ch = tree.children_view();
        assert(monomial_view(context) == m);
        assert(monomial_view(dup) == m);
        assert(if_case(*tree) == if_model(m, *pred, command_tape(*then_branch), command_tape(*else_branch)));
        assert(gate_model(m, pred_tape(*pred, false), tape_view(then_tape)) == Some(tape_view(left)));
        assert(gate_model(m, pred_tape(*pred, true), tape_view(else_tape)) == Some(tape_view(right)));
        assert(tape_view(copy) == Tape::<TypeModel, ExprGeneratorModel>::EmbedCircuit(
            Box::new(copy_wires_circuit(m.sorts())),
        ));
        assert(tape_view(join) == Tape::<TypeModel, ExprGeneratorModel>::EmbedCircuit(
            Box::new(join_wires_circuit(m.sorts())),
        ));
        assert(tape_view(branches) == Tape::<TypeModel, ExprGeneratorModel>::Sum(
            Box::new(tape_view(left)),
            Box::new(tape_view(right)),
        ));
        assert(tape_view(tail) == Tape::<TypeModel, ExprGeneratorModel>::Sequence(
            Box::new(tape_view(branches)),
            Box::new(tape_view(join)),
        ));
        assert(tape_view(result) == Tape::<TypeModel, ExprGeneratorModel>::Sequence(
            Box::new(tape_view(copy)),
            Box::new(Tape::Sequence(
                Box::new(Tape::Sum(Box::new(tape_view(left)), Box::new(tape_view(right)))),
                Box::new(tape_view(join)),
            )),
        ));
    }
    Ok(result)
}

/// The tape of a command derivation. Abort discards the context and skip
/// is its identity; an assignment is one embedded circuit; a sequence
/// composes the tapes of its two commands (inside one embedding when both
/// are circuits); a conditional is the sum of its gated branches between a
/// copy and a join of the context. Loops have no tape.
pub fn tape_from_command(tree: &CommandDerivationTree) -> (r: Result<Tape<TypeExpr, ExprGenerator>, CommandTapeError>)
    ensures
        match r {
            Ok(tape) => command_tape(*tree) == Some(tape_view(tape)),
            Err(_) => command_tape(*tree) is None,
        },
    decreases tree, 1nat,
{
    reveal(command_tape);
    match tree.form() {
        CommandForm::Abort => Ok(Tape::Discard(context_monomial(tree))),
        CommandForm::Skip => Ok(Tape::Id(context_monomial(tree))),
        CommandForm::Assign(name) => assignment_tape(tree, name),
        CommandForm::Sequence => {
            let children = tree.children();
            proof {
                crate::command_typing::lemma_command_children_decrease(*tree);
                assert(children@.subrange(0, 0) =~= Seq::<CommandChild>::empty());
            }
            let mut commands: Vec<&CommandDerivationTree> = Vec::new();
            let mut i: usize = 0;
            while i < children.len()
                invariant
                    i <= children@.len(),
                    children@ == tree.children_view(),
                    decreases_to!(*tree => tree.children_view()),
                    forall|k: int| 0 <= k < commands@.len() ==> decreases_to!(*tree => *commands@[k]),
                    commands@.len() == command_children(children@.subrange(0, i as int)).len(),
                    forall|k: int|
                        0 <= k < commands@.len() ==> *commands@[k] == command_children(children@.subrange(0, i as int))[k],
                decreases children@.len() - i,
            {
                proof {
                    assert(decreases_to!(*tree => children@[i as int]));
                    assert(children@.subrange(0, i + 1).drop_last() =~= children@.subrange(0, i as int));
                    assert(children@.subrange(0, i + 1).last() == children@[i as int]);
                }
                if let CommandChild::Command(c) = &children[i] {
                    proof {
                        assert(decreases_to!(children@[i as int] => *c));
                    }
                    commands.push(c);
                }
                i = i + 1;
            }
            proof {
                assert(children@.subrange(0, children@.len() as int) =~= children@);
            }
            if commands.len() < 2 {
                return Err(CommandTapeError::MalformedDerivation);
            }
            let left_tape = match tape_from_command(commands[0]) {
                Ok(t) => t,
                Err(e) => {
                    return Err(e);
                },
            };
            let right_tape = match tape_from_command(commands[1]) {
                Ok(t) => t,
                Err(e) => {
                    return Err(e);
                },
            };
            match left_tape {
                Tape::EmbedCircuit(circuit_left) => match right_tape {
                    Tape::EmbedCircuit(circuit_right) => {
                        proof {
                            lemma_view_seq_product(*circuit_left, *circuit_right);
                        }
                        Ok(Tape::EmbedCircuit(Box::new(Circuit::seq(*circuit_left, *circuit_right))))
                    },
                    other => Ok(Tape::Sequence(Box::new(Tape::EmbedCircuit(circuit_left)), Box::new(other))),
                },
                other => Ok(Tape::Sequence(Box::new(other), Box::new(right_tape))),
            }
        },
        CommandForm::If => if_tape(tree),
        CommandForm::While => Err(CommandTapeError::WhileNotSupported),
    }
}

} // verus!
