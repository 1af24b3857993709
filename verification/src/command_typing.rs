//! Typing of commands: skip, abort, assignment, conditionals, loops and
//! sequences of statements, each with a derivation tree whose leaves are
//! the deduction trees of the expressions and predicates involved.

use vstd::prelude::*;
use vstd::string::*;

use crate::context::{entries_lookup, lemma_lookup_first_entry, names_sorted, replaced, Context};
use crate::syntax::{PyExpr, PyStmt};
use crate::types::{lub_model, type_model, ConstraintModel, TypeConstraint, TypeExpr, TypeModel};
use crate::typing::{
    copy_constraint, context_text, indent_text, indentation, entries_view, expr_tree, infer_expression_in_context, infer_predicate_in_context, plain_expr_type, plain_pred, plain_preds, pred_tree, ContextSnapshot,
    DeductionTree, TypeError,
};

verus! {

/// A command judgment `context |- command`.
#[derive(Debug)]
pub struct CommandJudgment {
    context: ContextSnapshot,
    command: String,
}

impl CommandJudgment {
    pub closed spec fn context_view(&self) -> Seq<(Seq<char>, TypeModel)> {
        self.context.view_entries()
    }

    pub closed spec fn command_view(&self) -> Seq<char> {
        self.command@
    }

    pub fn context(&self) -> (r: &ContextSnapshot)
        ensures
            r.view_entries() == self.context_view(),
    {
        &self.context
    }

    pub fn command(&self) -> (r: &str)
        ensures
            r@ == self.command_view(),
    {
        self.command.as_str()
    }
}

/// A premise of a command derivation: a command, a predicate or an
/// expression.
#[derive(Debug)]
pub enum CommandChild {
    Command(CommandDerivationTree),
    Predicate(DeductionTree),
    Expression(DeductionTree),
}

/// The shape of a command.
#[derive(Debug)]
pub enum CommandForm {
    Abort,
    Skip,
    Assign(String),
    Sequence,
    If,
    While,
}

/// The model of a command form.
pub enum CommandFormModel {
    Abort,
    Skip,
    Assign(Seq<char>),
    Sequence,
    If,
    While,
}

pub open spec fn command_form_model(f: CommandForm) -> CommandFormModel {
    match f {
        CommandForm::Abort => CommandFormModel::Abort,
        CommandForm::Skip => CommandFormModel::Skip,
        CommandForm::Assign(name) => CommandFormModel::Assign(name@),
        CommandForm::Sequence => CommandFormModel::Sequence,
        CommandForm::If => CommandFormModel::If,
        CommandForm::While => CommandFormModel::While,
    }
}

/// A derivation of a command judgment.
#[derive(Debug)]
pub struct CommandDerivationTree {
    rule: &'static str,
    judgment: CommandJudgment,
    children: Vec<CommandChild>,
    form: CommandForm,
}

impl CommandDerivationTree {
    pub closed spec fn rule_view(&self) -> Seq<char> {
        self.rule@
    }

    pub closed spec fn judgment_view(&self) -> CommandJudgment {
        self.judgment
    }

    pub closed spec fn children_view(&self) -> Seq<CommandChild> {
        self.children@
    }

    pub closed spec fn form_view(&self) -> CommandFormModel {
        command_form_model(self.form)
    }

    pub fn form(&self) -> (r: &CommandForm)
        ensures
            command_form_model(*r) == self.form_view(),
    {
        &self.form
    }

    pub fn judgment(&self) -> (r: &CommandJudgment)
        ensures
            *r == self.judgment_view(),
    {
        &self.judgment
    }

    pub fn children(&self) -> (r: &[CommandChild])
        ensures
            r@ == self.children_view(),
    {
        self.children.as_slice()
    }
}

/// The children of a command derivation are smaller than it.
pub proof fn lemma_command_children_decrease(t: CommandDerivationTree)
    ensures
        decreases_to!(t => t.children_view()),
{
    assert(decreases_to!(t => t.children));
    assert(decreases_to!(t.children => t.children@));
}

/// The constraints recorded in a derivation: those of the deduction trees
/// of its expressions and predicates and of its sub-derivations, child
/// after child.
pub closed spec fn tree_constraints(t: CommandDerivationTree) -> Seq<ConstraintModel>
    decreases t, 0nat,
{
    child_constraints(t.children@, t.children@.len())
}

/// The constraints of the first `n` children.
pub open spec fn child_constraints(cs: Seq<CommandChild>, n: nat) -> Seq<ConstraintModel>
    decreases cs, n,
{
    if n == 0 || n > cs.len() {
        Seq::empty()
    } else {
        child_constraints(cs, (n - 1) as nat) + match cs[n - 1] {
            CommandChild::Command(c) => tree_constraints(c),
            CommandChild::Predicate(d) => d.constraints_view(),
            CommandChild::Expression(d) => d.constraints_view(),
        }
    }
}

/// Appends the constraints of a derivation to `out`.
pub fn collect_tree_constraints(t: &CommandDerivationTree, out: &mut Vec<TypeConstraint>)
    ensures
        final(out)@.map_values(|c: TypeConstraint| c.deep_view()) == old(out)@.map_values(
            |c: TypeConstraint| c.deep_view(),
        ) + tree_constraints(*t),
    decreases t,
{
    let ghost start = out@.map_values(|c: TypeConstraint| c.deep_view());
    let mut i: usize = 0;
    proof {
        assert(start + child_constraints(t.children@, 0) =~= start);
    }
    while i < t.children.len()
        invariant
            i <= t.children@.len(),
            out@.map_values(|c: TypeConstraint| c.deep_view()) == start + child_constraints(t.children@, i as nat),
        decreases t.children@.len() - i,
    {
        proof {
            lemma_command_children_decrease(*t);
            assert(decreases_to!(*t => t.children@[i as int]));
        }
        let ghost before = out@.map_values(|c: TypeConstraint| c.deep_view());
        match &t.children[i] {
            CommandChild::Command(c) => {
                collect_tree_constraints(c, out);
            },
            CommandChild::Predicate(d) | CommandChild::Expression(d) => {
                let cs = d.constraints().constraints();
                let mut k: usize = 0;
                while k < cs.len()
                    invariant
                        k <= cs@.len(),
                        out@.map_values(|c: TypeConstraint| c.deep_view()) == before + cs@.subrange(0, k as int).map_values(
                            |c: TypeConstraint| c.deep_view(),
                        ),
                    decreases cs@.len() - k,
                {
                    let ghost prev = out@;
                    out.push(copy_constraint(&cs[k]));
                    proof {
                        assert(out@.map_values(|c: TypeConstraint| c.deep_view()) =~= prev.map_values(
                            |c: TypeConstraint| c.deep_view(),
                        ).push(cs@[k as int].deep_view()));
                        assert(cs@.subrange(0, k + 1).map_values(|c: TypeConstraint| c.deep_view()) =~= cs@.subrange(
                            0,
                            k as int,
                        ).map_values(|c: TypeConstraint| c.deep_view()).push(cs@[k as int].deep_view()));
                    }
                    k = k + 1;
                }
                proof {
                    assert(cs@.subrange(0, cs@.len() as int) =~= cs@);
                }
            },
        }
        proof {
            let contribution = match t.children@[i as int] {
                CommandChild::Command(c) => tree_constraints(c),
                CommandChild::Predicate(d) => d.constraints_view(),
                CommandChild::Expression(d) => d.constraints_view(),
            };
            assert(out@.map_values(|c: TypeConstraint| c.deep_view()) == before + contribution);
            assert(child_constraints(t.children@, (i + 1) as nat) == child_constraints(t.children@, i as nat)
                + contribution);
            assert(start + child_constraints(t.children@, (i + 1) as nat) =~= start + child_constraints(
                t.children@,
                i as nat,
            ) + contribution);
        }
        i = i + 1;
    }
}

/// Why a command could not be typed.
#[derive(Debug)]
pub enum CommandError {
    /// An expression statement, which is not a command.
    ExpressionStatement(String),
    /// A statement the language does not have.
    UnsupportedStatement(String),
    /// An assignment to more than one target.
    MultipleTargets,
    /// An assignment to something other than a variable.
    TargetNotName,
    /// An assignment to a variable the context does not bind.
    TargetNotInContext(String),
    /// An expression or predicate that could not be typed.
    Type(TypeError),
    /// A condition that is not typed as a predicate.
    ConditionNotPredicate,
}

/// The node records the context, the rule and the shape.
pub open spec fn command_node_is(
    t: CommandDerivationTree,
    entries: Seq<(Seq<char>, TypeModel)>,
    rule: Seq<char>,
    form: CommandFormModel,
) -> bool {
    &&& t.judgment_view().context_view() == entries
    &&& t.rule_view() == rule
    &&& t.form_view() == form
}

/// The context a derivation's statement was typed in: the context of the
/// expression of an assignment (whose own node records the updated
/// context), the node's context otherwise.
pub open spec fn input_entries(t: CommandDerivationTree) -> Seq<(Seq<char>, TypeModel)> {
    let ch = t.children_view();
    if (t.form_view() is Assign) && ch.len() >= 1 && (ch[0] is Expression) {
        ch[0]->Expression_0.judgment_view().context_view()
    } else {
        t.judgment_view().context_view()
    }
}

/// `t` is a derivation for the statement `s` in the context with the given
/// entries: `pass` is skip and `raise` abort; an assignment to one
/// variable of the context has the expression's deduction tree in that
/// context; a conditional has the deduction tree of its predicate and
/// derivations of both branches; a loop has those of its predicate and
/// body.
pub open spec fn stmt_tree(s: PyStmt, entries: Seq<(Seq<char>, TypeModel)>, t: CommandDerivationTree) -> bool
    decreases s, 0nat, 0nat,
{
    let ch = t.children_view();
    match s {
        PyStmt::Pass => command_node_is(t, entries, "Skip"@, CommandFormModel::Skip) && ch.len() == 0
            && t.judgment_view().command_view() == "skip"@,
        PyStmt::Raise => command_node_is(t, entries, "Abort"@, CommandFormModel::Abort) && ch.len() == 0
            && t.judgment_view().command_view() == "abort"@,
        PyStmt::Assign { targets, value } => targets@.len() == 1 && (targets@[0] is Name) && {
            let name = targets@[0]->Name_0@;
            &&& t.rule_view() == "Assign"@
            &&& t.form_view() == CommandFormModel::Assign(name)
            &&& entries_lookup(entries, name) is Some
            &&& ch.len() == 1
            &&& ch[0] is Expression
            &&& expr_tree(value, entries, ch[0]->Expression_0)
            &&& t.judgment_view().command_view() == name + " := "@ + ch[0]->Expression_0.judgment_view().expr_view()
            &&& replaced(
                entries,
                t.judgment_view().context_view(),
                (name, assigned_type(entries_lookup(entries, name).unwrap(), ch[0]->Expression_0.judgment_view().ty_view())),
            )
        },
        PyStmt::If { test, body, orelse } => command_node_is(t, entries, "If"@, CommandFormModel::If) && ch.len()
            == 3 && (ch[0] is Predicate) && pred_tree(test, entries, ch[0]->Predicate_0) && (ch[1] is Command)
            && block_tree(body@, entries, ch[1]->Command_0) && (ch[2] is Command) && block_tree(
            orelse@,
            entries,
            ch[2]->Command_0,
        ),
        PyStmt::While { test, body } => command_node_is(t, entries, "While"@, CommandFormModel::While) && ch.len()
            == 2 && (ch[0] is Predicate) && pred_tree(test, entries, ch[0]->Predicate_0) && (ch[1] is Command)
            && block_tree(body@, entries, ch[1]->Command_0),
        _ => false,
    }
}

/// `t` is a derivation for the block: skip for an empty block, the
/// statement's derivation for one statement, and sequences nested from the
/// left for more, each statement typed in the context its predecessors
/// leave.
pub open spec fn block_tree(stmts: Seq<PyStmt>, entries: Seq<(Seq<char>, TypeModel)>, t: CommandDerivationTree) -> bool
    decreases stmts, 1nat, 0nat,
{
    if stmts.len() == 0 {
        command_node_is(t, entries, "Skip"@, CommandFormModel::Skip) && t.children_view().len() == 0
            && t.judgment_view().command_view() == "skip"@
    } else {
        prefix_tree(stmts, stmts.len(), entries, t)
    }
}

/// `t` is a derivation for the first `n` statements of the block.
pub open spec fn prefix_tree(
    stmts: Seq<PyStmt>,
    n: nat,
    entries: Seq<(Seq<char>, TypeModel)>,
    t: CommandDerivationTree,
) -> bool
    decreases stmts, 0nat, n,
{
    let ch = t.children_view();
    if n == 0 || n > stmts.len() {
        false
    } else if n == 1 {
        stmt_tree(stmts[0], entries, t)
    } else {
        &&& command_node_is(t, entries, "Seq"@, CommandFormModel::Sequence)
        &&& ch.len() == 2
        &&& ch[0] is Command
        &&& ch[1] is Command
        &&& prefix_tree(stmts, (n - 1) as nat, entries, ch[0]->Command_0)
        &&& stmt_tree(stmts[n - 1], input_entries(ch[1]->Command_0), ch[1]->Command_0)
    }
}

/// The root of an expression's deduction tree records its context.
pub proof fn lemma_expr_tree_context(e: PyExpr, entries: Seq<(Seq<char>, TypeModel)>, t: DeductionTree)
    requires
        expr_tree(e, entries, t),
    ensures
        t.judgment_view().context_view() == entries,
{
}

/// A derivation records the context its statement was typed in.
pub proof fn lemma_input_entries(s: PyStmt, entries: Seq<(Seq<char>, TypeModel)>, t: CommandDerivationTree)
    requires
        stmt_tree(s, entries, t),
    ensures
        input_entries(t) == entries,
{
    if s is Assign {
        lemma_expr_tree_context(s->value, entries, t.children_view()[0]->Expression_0);
    }
}

fn make_leaf(rule: &'static str, context: &Context, command: String, form: CommandForm) -> (r: CommandDerivationTree)
    ensures
        command_node_is(r, context.entries_model(), rule@, command_form_model(form)),
        r.children_view().len() == 0,
        r.judgment_view().command_view() == command@,
{
    let entries = context.entries();
    proof {
        assert(entries_view(entries@) =~= context.entries_model());
    }
    CommandDerivationTree {
        rule,
        judgment: CommandJudgment { context: ContextSnapshot::new(entries), command },
        children: Vec::new(),
        form,
    }
}

fn make_node(
    rule: &'static str,
    context: &Context,
    command: String,
    children: Vec<CommandChild>,
    form: CommandForm,
) -> (r: CommandDerivationTree)
    ensures
        command_node_is(r, context.entries_model(), rule@, command_form_model(form)),
        r.children_view() == children@,
        r.judgment_view().command_view() == command@,
{
    let entries = context.entries();
    proof {
        assert(entries_view(entries@) =~= context.entries_model());
    }
    CommandDerivationTree {
        rule,
        judgment: CommandJudgment { context: ContextSnapshot::new(entries), command },
        children,
        form,
    }
}

/// The type of a variable after an assignment: unchanged when the
/// expression has the variable's type, their least upper bound otherwise.
pub open spec fn assigned_type(target: TypeModel, value: TypeModel) -> TypeModel {
    if value == target {
        target
    } else {
        lub_model(target, value)
    }
}

/// An assignment of one variable the context binds from an expression of
/// plain type (one typed without consulting a builtin signature).
pub open spec fn plain_assign(targets: Seq<PyExpr>, value: PyExpr, context: Context) -> bool {
    &&& targets.len() == 1
    &&& targets[0] matches PyExpr::Name(id) && context.lookup(id@) is Some
    &&& plain_expr_type(value, context.entries_model()) is Some
}

/// Types an assignment: the target must be a variable of the context; its
/// type becomes the least upper bound of its type and the expression's type
/// when the two differ.
fn infer_assign(targets: &Vec<PyExpr>, value: &PyExpr, context: &Context) -> (r: Result<
    (CommandDerivationTree, Context),
    CommandError,
>)
    ensures
        r is Ok ==> stmt_tree(PyStmt::Assign { targets: *targets, value: *value }, context.entries_model(), r->Ok_0.0),
        targets@.len() != 1 ==> r matches Err(CommandError::MultipleTargets),
        targets@.len() == 1 && !(targets@[0] is Name) ==> r matches Err(CommandError::TargetNotName),
        targets@.len() == 1 && targets@[0] is Name && context.lookup(targets@[0]->Name_0@) is None ==> (r matches Err(e)
            && e is TargetNotInContext && e->TargetNotInContext_0@ == targets@[0]->Name_0@),
        r matches Err(CommandError::Type(e)) ==> !(plain_expr_type(*value, context.entries_model()) is Some),
        plain_assign(targets@, *value, *context) ==> r is Ok,
        r matches Ok((_, c)) ==> (forall|n: Seq<char>|
            n != targets@[0]->Name_0@ ==> #[trigger] c.lookup(n) == context.lookup(n)),
        plain_expr_type(*value, context.entries_model()) matches Some(vt) ==> (r matches Ok((_, c)) ==> c.lookup(
            targets@[0]->Name_0@,
        ) == Some(assigned_type(context.lookup(targets@[0]->Name_0@)->0, vt))),
{
    if targets.len() != 1 {
        return Err(CommandError::MultipleTargets);
    }
    let target_name = match &targets[0] {
        PyExpr::Name(id) => id.clone(),
        _ => {
            return Err(CommandError::TargetNotName);
        },
    };
    let target_ty = match context.get(target_name.as_str()) {
        Some(t) => t.copy(),
        None => {
            return Err(CommandError::TargetNotInContext(target_name));
        },
    };
    let expr_tree = match infer_expression_in_context(value, context) {
        Ok(t) => t,
        Err(e) => {
            return Err(CommandError::Type(e));
        },
    };
    let new_target_ty = if expr_tree.judgment().ty().same(&target_ty) {
        target_ty
    } else {
        TypeExpr::lub(target_ty, expr_tree.judgment().ty().copy())
    };
    let mut updated = context.duplicate();
    updated.set_var(target_name.as_str(), new_target_ty);
    let cmd = target_name.clone().concat(" := ").concat(expr_tree.judgment().expr());
    let mut children: Vec<CommandChild> = Vec::new();
    children.push(CommandChild::Expression(expr_tree));
    let tree = make_node("Assign", &updated, cmd, children, CommandForm::Assign(target_name));
    Ok((tree, updated))
}

/// Types a statement in a context, giving its derivation and the context
/// after it.
pub fn infer_command(stmt: &PyStmt, context: &Context) -> (r: Result<(CommandDerivationTree, Context), CommandError>)
    ensures
        r is Ok ==> stmt_tree(*stmt, context.entries_model(), r->Ok_0.0),
        closed_stmt(*stmt) ==> (r matches Ok((_, c)) && c.entries_model() == context.entries_model()),
        *stmt matches PyStmt::Assign { targets, value } && plain_assign(targets@, value, *context) ==> r is Ok,
        stmt is Expr ==> (r matches Err(e) && e is ExpressionStatement),
        stmt is Other ==> (r matches Err(e) && e is UnsupportedStatement),
    decreases stmt,
{
    match stmt {
        PyStmt::Pass => Ok(
            (make_leaf("Skip", context, String::from_str("skip"), CommandForm::Skip), context.duplicate()),
        ),
        PyStmt::Raise => Ok(
            (make_leaf("Abort", context, String::from_str("abort"), CommandForm::Abort), context.duplicate()),
        ),
        PyStmt::Assign { targets, value } => infer_assign(targets, value, context),
        PyStmt::If { test, body, orelse } => {
            let pred_tree = match infer_predicate_in_context(test, context) {
                Ok(t) => t,
                Err(e) => {
                    return Err(CommandError::Type(e));
                },
            };
            match pred_tree.judgment().ty() {
                TypeExpr::Bool => {},
                _ => {
                    return Err(CommandError::ConditionNotPredicate);
                },
            }
            proof {
                assert(decreases_to!(*stmt => (*stmt)->If_body));
                assert(decreases_to!(*stmt => (*stmt)->If_orelse));
            }
            let then_tree = match infer_block(body, context) {
                Ok(t) => t.0,
                Err(e) => {
                    return Err(e);
                },
            };
            let else_tree = match infer_block(orelse, context) {
                Ok(t) => t.0,
                Err(e) => {
                    return Err(e);
                },
            };
            let cmd = String::from_str("if ").concat(pred_tree.judgment().expr()).concat(" then ... else ...");
            let mut children: Vec<CommandChild> = Vec::new();
            children.push(CommandChild::Predicate(pred_tree));
            children.push(CommandChild::Command(then_tree));
            children.push(CommandChild::Command(else_tree));
            Ok((make_node("If", context, cmd, children, CommandForm::If), context.duplicate()))
        },
        PyStmt::While { test, body } => {
            let pred_tree = match infer_predicate_in_context(test, context) {
                Ok(t) => t,
                Err(e) => {
                    return Err(CommandError::Type(e));
                },
            };
            match pred_tree.judgment().ty() {
                TypeExpr::Bool => {},
                _ => {
                    return Err(CommandError::ConditionNotPredicate);
                },
            }
            proof {
                assert(decreases_to!(*stmt => (*stmt)->While_body));
            }
            let body_tree = match infer_block(body, context) {
                Ok(t) => t.0,
                Err(e) => {
                    return Err(e);
                },
            };
            let cmd = String::from_str("while ").concat(pred_tree.judgment().expr()).concat(" do ...");
            let mut children: Vec<CommandChild> = Vec::new();
            children.push(CommandChild::Predicate(pred_tree));
            children.push(CommandChild::Command(body_tree));
            Ok((make_node("While", context, cmd, children, CommandForm::While), context.duplicate()))
        },
        PyStmt::Expr(e) => Err(CommandError::ExpressionStatement(crate::syntax::expr_to_string(e))),
        PyStmt::Other(text) => Err(CommandError::UnsupportedStatement(text.clone())),
    }
}

/// Types a block of statements in sequence, each in the context its
/// predecessors leave; an empty block is skip.
pub fn infer_block(stmts: &Vec<PyStmt>, context: &Context) -> (r: Result<(CommandDerivationTree, Context), CommandError>)
    ensures
        r is Ok ==> block_tree(stmts@, context.entries_model(), r->Ok_0.0),
        closed_stmts(stmts@, stmts@.len()) ==> (r matches Ok((_, c)) && c.entries_model() == context.entries_model()),
    decreases stmts,
{
    if stmts.len() == 0 {
        return Ok((make_leaf("Skip", context, String::from_str("skip"), CommandForm::Skip), context.duplicate()));
    }
    proof {
        assert(decreases_to!(*stmts => stmts@));
        assert(decreases_to!(*stmts => stmts@[0]));
    }
    proof {
        if closed_stmts(stmts@, stmts@.len()) {
            lemma_closed_stmts(stmts@, stmts@.len(), 0);
        }
    }
    let (mut acc_tree, mut acc_context) = match infer_command(&stmts[0], context) {
        Ok(t) => t,
        Err(e) => {
            return Err(e);
        },
    };
    let mut i: usize = 1;
    while i < stmts.len()
        invariant
            1 <= i <= stmts@.len(),
            decreases_to!(*stmts => stmts@),
            prefix_tree(stmts@, i as nat, context.entries_model(), acc_tree),
            closed_stmts(stmts@, stmts@.len()) ==> acc_context.entries_model() == context.entries_model(),
        decreases stmts@.len() - i,
    {
        proof {
            assert(decreases_to!(*stmts => stmts@[i as int]));
            if closed_stmts(stmts@, stmts@.len()) {
                lemma_closed_stmts(stmts@, stmts@.len(), i as int);
            }
        }
        let (next_tree, next_context) = match infer_command(&stmts[i], &acc_context) {
            Ok(t) => t,
            Err(e) => {
                return Err(e);
            },
        };
        let ghost used = acc_context;
        let cmd = acc_tree.judgment.command.clone().concat("; ...");
        let mut children: Vec<CommandChild> = Vec::new();
        children.push(CommandChild::Command(acc_tree));
        children.push(CommandChild::Command(next_tree));
        let ghost prev_tree = acc_tree;
        acc_tree = make_node("Seq", context, cmd, children, CommandForm::Sequence);
        acc_context = next_context;
        proof {
            lemma_input_entries(stmts@[i as int], used.entries_model(), next_tree);
            assert(acc_tree.children_view()[1]->Command_0 == next_tree);
            assert(acc_tree.children_view()[0]->Command_0 == prev_tree);
            assert(stmts@[(i + 1) - 1] == stmts@[i as int]);
        }
        i = i + 1;
    }
    Ok((acc_tree, acc_context))
}

/// A statement that types in every context and leaves it as it is:
/// `pass`, `raise`, and conditionals and loops whose tests are plain
/// predicates (`True` and `False` joined by `and` and `or`) and whose
/// blocks hold only such statements.
pub open spec fn closed_stmt(s: PyStmt) -> bool
    decreases s, 0nat,
{
    match s {
        PyStmt::Pass => true,
        PyStmt::Raise => true,
        PyStmt::If { test, body, orelse } => plain_pred(test) && closed_stmts(body@, body@.len()) && closed_stmts(
            orelse@,
            orelse@.len(),
        ),
        PyStmt::While { test, body } => plain_pred(test) && closed_stmts(body@, body@.len()),
        _ => false,
    }
}

/// The first `k` statements are closed.
pub open spec fn closed_stmts(ss: Seq<PyStmt>, k: nat) -> bool
    decreases ss, k,
{
    if k == 0 || k > ss.len() {
        true
    } else {
        closed_stmts(ss, (k - 1) as nat) && closed_stmt(ss[k - 1])
    }
}

proof fn lemma_closed_stmts(ss: Seq<PyStmt>, k: nat, i: int)
    requires
        closed_stmts(ss, k),
        k <= ss.len(),
        0 <= i < k,
    ensures
        closed_stmt(ss[i]),
    decreases k,
{
    if i < k - 1 {
        lemma_closed_stmts(ss, (k - 1) as nat, i);
    }
}

/// A plain predicate names no variable.
proof fn lemma_plain_pred_unnamed(e: PyExpr)
    requires
        plain_pred(e),
    ensures
        bound_name_count(e) == 0,
    decreases e, 0nat,
{
    if let PyExpr::BoolOp(_, values) = e {
        lemma_plain_preds_unnamed(values@, values@.len());
    }
}

proof fn lemma_plain_preds_unnamed(es: Seq<PyExpr>, k: nat)
    requires
        plain_preds(es, k),
        k <= es.len(),
    ensures
        bound_name_counts(es, k) == 0,
    decreases es, k,
{
    if k > 0 {
        lemma_plain_preds_unnamed(es, (k - 1) as nat);
        lemma_plain_pred_unnamed(es[k - 1]);
    }
}

/// The names an expression reads, in the order the free variables are
/// collected: operands left to right, arguments in order.
pub open spec fn expr_names(e: PyExpr) -> Seq<Seq<char>>
    decreases e, 0nat,
{
    match e {
        PyExpr::Name(id) => seq![id@],
        PyExpr::UnaryOp(_, operand) => expr_names(*operand),
        PyExpr::BinOp(l, _, r) => expr_names(*l) + expr_names(*r),
        PyExpr::BoolOp(_, values) => exprs_names(values@, values@.len()),
        PyExpr::Compare(l, _, comparators) => expr_names(*l) + exprs_names(comparators@, comparators@.len()),
        PyExpr::Call { args, .. } => exprs_names(args@, args@.len()),
        _ => Seq::empty(),
    }
}

/// The names the first `k` expressions read, in order.
pub open spec fn exprs_names(es: Seq<PyExpr>, k: nat) -> Seq<Seq<char>>
    decreases es, k,
{
    if k == 0 || k > es.len() {
        Seq::empty()
    } else {
        exprs_names(es, (k - 1) as nat) + expr_names(es[k - 1])
    }
}

/// The names among the first `k` targets of an assignment, in order.
pub open spec fn target_names(targets: Seq<PyExpr>, k: nat) -> Seq<Seq<char>>
    decreases k,
{
    if k == 0 || k > targets.len() {
        Seq::empty()
    } else {
        target_names(targets, (k - 1) as nat) + match targets[k - 1] {
            PyExpr::Name(id) => seq![id@],
            _ => Seq::<Seq<char>>::empty(),
        }
    }
}

/// The names a statement assigns or reads, in order of occurrence: the
/// targets of an assignment before its value, a test before its branches.
pub open spec fn stmt_names(s: PyStmt) -> Seq<Seq<char>>
    decreases s, 0nat,
{
    match s {
        PyStmt::Assign { targets, value } => target_names(targets@, targets@.len()) + expr_names(value),
        PyStmt::If { test, body, orelse } => expr_names(test) + stmts_names(body@, body@.len()) + stmts_names(
            orelse@,
            orelse@.len(),
        ),
        PyStmt::While { test, body } => expr_names(test) + stmts_names(body@, body@.len()),
        _ => Seq::empty(),
    }
}

/// The names the first `k` statements assign or read, in order.
pub open spec fn stmts_names(ss: Seq<PyStmt>, k: nat) -> Seq<Seq<char>>
    decreases ss, k,
{
    if k == 0 || k > ss.len() {
        Seq::empty()
    } else {
        stmts_names(ss, (k - 1) as nat) + stmt_names(ss[k - 1])
    }
}

/// Bindings and counter after binding `name`: a name already bound keeps
/// its type, a new one gets the next type variable.
pub open spec fn bind_name_model(st: (Map<Seq<char>, TypeModel>, nat), name: Seq<char>) -> (
    Map<Seq<char>, TypeModel>,
    nat,
) {
    if st.0.dom().contains(name) {
        st
    } else {
        (st.0.insert(name, TypeModel::Var(st.1 as usize)), st.1 + 1)
    }
}

/// Bindings and counter after binding the names in order.
pub open spec fn bind_names_model(st: (Map<Seq<char>, TypeModel>, nat), names: Seq<Seq<char>>) -> (
    Map<Seq<char>, TypeModel>,
    nat,
)
    decreases names.len(),
{
    if names.len() == 0 {
        st
    } else {
        bind_name_model(bind_names_model(st, names.drop_last()), names.last())
    }
}

/// Binding two lists of names in turn is binding their concatenation.
pub proof fn lemma_bind_names_append(
    st: (Map<Seq<char>, TypeModel>, nat),
    a: Seq<Seq<char>>,
    b: Seq<Seq<char>>,
)
    ensures
        bind_names_model(st, a + b) == bind_names_model(bind_names_model(st, a), b),
    decreases b.len(),
{
    if b.len() == 0 {
        assert(a + b =~= a);
    } else {
        lemma_bind_names_append(st, a, b.drop_last());
        assert((a + b).drop_last() =~= a + b.drop_last());
        assert((a + b).last() == b.last());
    }
}

/// Binding one name is binding the list of that name alone.
proof fn lemma_bind_single(st: (Map<Seq<char>, TypeModel>, nat), name: Seq<char>)
    ensures
        bind_names_model(st, seq![name]) == bind_name_model(st, name),
{
    assert(seq![name].drop_last() =~= Seq::<Seq<char>>::empty());
    assert(bind_names_model(st, Seq::<Seq<char>>::empty()) == st);
    assert(seq![name].last() == name);
}

/// The free variables of a block of statements, in order of first use,
/// bound to the type variables 0, 1, 2, ... in turn.
pub open spec fn suite_bindings(stmts: Seq<PyStmt>) -> Map<Seq<char>, TypeModel> {
    bind_names_model((Map::empty(), 0), stmts_names(stmts, stmts.len())).0
}

/// The free variables of a statement, in order of first use, bound to the
/// type variables 0, 1, 2, ... in turn.
pub open spec fn stmt_bindings(stmt: PyStmt) -> Map<Seq<char>, TypeModel> {
    bind_names_model((Map::empty(), 0), stmt_names(stmt)).0
}

/// `ctx` lists the bindings of `m` in name order, each name once; such a
/// listing is unique.
pub open spec fn lists_bindings(ctx: Seq<(Seq<char>, TypeModel)>, m: Map<Seq<char>, TypeModel>) -> bool {
    &&& names_sorted(Seq::new(ctx.len(), |i: int| ctx[i].0))
    &&& forall|n: Seq<char>| #[trigger]
        entries_lookup(ctx, n) == (if m.dom().contains(n) {
            Some(m[n])
        } else {
            None
        })
}

/// The entries of a context whose names are in order list its bindings.
proof fn lemma_context_lists_bindings(c: Context, m: Map<Seq<char>, TypeModel>)
    requires
        names_sorted(c.names()),
        c.bindings() == m,
    ensures
        lists_bindings(c.entries_model(), m),
{
    let ctx = c.entries_model();
    assert(Seq::new(ctx.len(), |i: int| ctx[i].0) =~= c.names());
    assert forall|n: Seq<char>| #[trigger]
        entries_lookup(ctx, n) == (if m.dom().contains(n) {
            Some(m[n])
        } else {
            None
        }) by {
        lemma_lookup_first_entry(c, n);
        assert(m.dom().contains(n) == (c.lookup(n) is Some));
    }
}

/// The target `k` of an assignment is the name `n`.
pub open spec fn assigns_name(targets: Seq<PyExpr>, k: int, n: Seq<char>) -> bool {
    &&& 0 <= k < targets.len()
    &&& targets[k] matches PyExpr::Name(id) && id@ == n
}

/// Binds every variable a statement assigns or reads to a fresh type
/// variable, in order of first occurrence.
pub fn collect_free_vars_stmt(stmt: &PyStmt, context: &mut Context) -> (r: Result<(), TypeError>)
    ensures
        forall|n: Seq<char>| #[trigger] old(context).lookup(n) is Some ==> final(context).lookup(n) == old(
            context,
        ).lookup(n),
        r is Err ==> r == Err::<(), TypeError>(TypeError::TypeVariablesExhausted),
        old(context).next_var_spec() <= final(context).next_var_spec(),
        r is Ok && stmt is Assign ==> forall|k: int, n: Seq<char>|
            #[trigger] assigns_name(stmt->Assign_targets@, k, n) ==> final(context).lookup(n) is Some,
        r is Ok && stmt is Assign ==> forall|n: Seq<char>|
            #[trigger] binds_in_expr(stmt->Assign_value, n) ==> final(context).lookup(n) is Some,
        closed_stmt(*stmt) ==> r is Ok && final(context).entries_model() == old(context).entries_model()
            && final(context).next_var_spec() == old(context).next_var_spec(),
        r is Ok ==> final(context).binding_state() == bind_names_model(
            old(context).binding_state(),
            stmt_names(*stmt),
        ),
        names_sorted(old(context).names()) ==> names_sorted(final(context).names()),
    decreases stmt,
{
    match stmt {
        PyStmt::Assign { targets, value } => {
            let mut i: usize = 0;
            while i < targets.len()
                invariant
                    i <= targets@.len(),
                    *stmt == (PyStmt::Assign { targets: *targets, value: *value }),
                    forall|n: Seq<char>| #[trigger] old(context).lookup(n) is Some ==> context.lookup(n) == old(
                        context,
                    ).lookup(n),
                    old(context).next_var_spec() <= context.next_var_spec(),
                    forall|k: int, n: Seq<char>|
                        #![trigger assigns_name(targets@, k, n)]
                        k < i && assigns_name(targets@, k, n) ==> context.lookup(n) is Some,
                    context.binding_state() == bind_names_model(
                        old(context).binding_state(),
                        target_names(targets@, i as nat),
                    ),
                    names_sorted(old(context).names()) ==> names_sorted(context.names()),
                decreases targets@.len() - i,
            {
                let ghost before = *context;
                if let PyExpr::Name(id) = &targets[i] {
                    let r = bind_name(id.as_str(), context);
                    if r.is_err() {
                        return r;
                    }
                    proof {
                        lemma_bind_single(before.binding_state(), id@);
                        lemma_bind_names_append(
                            old(context).binding_state(),
                            target_names(targets@, i as nat),
                            seq![id@],
                        );
                    }
                } else {
                    proof {
                        assert(target_names(targets@, (i + 1) as nat) =~= target_names(targets@, i as nat));
                    }
                }
                proof {
                    assert forall|k: int, n: Seq<char>|
                        #![trigger assigns_name(targets@, k, n)]
                        k < i + 1 && assigns_name(targets@, k, n) implies context.lookup(n) is Some by {
                        if k < i {
                            assert(before.lookup(n) is Some);
                        }
                    }
                }
                i = i + 1;
            }
            let ghost before = *context;
            let r = collect_free_vars_expr(value, context);
            proof {
                lemma_bind_names_append(
                    old(context).binding_state(),
                    target_names(targets@, targets@.len()),
                    expr_names(*value),
                );
                if r is Ok {
                    assert forall|k: int, n: Seq<char>| #[trigger] assigns_name(targets@, k, n) implies context.lookup(
                        n,
                    ) is Some by {
                        assert(before.lookup(n) is Some);
                    }
                }
            }
            r
        },
        PyStmt::If { test, body, orelse } => {
            proof {
                if closed_stmt(*stmt) {
                    lemma_plain_pred_unnamed(*test);
                    context.lemma_next_var_bounded();
                }
            }
            let r = collect_free_vars_expr(test, context);
            if r.is_err() {
                return r;
            }
            proof {
                assert(decreases_to!(*stmt => (*stmt)->If_body));
                assert(decreases_to!(*stmt => (*stmt)->If_orelse));
            }
            let r = collect_free_vars_block(body, context);
            if r.is_err() {
                return r;
            }
            let r = collect_free_vars_block(orelse, context);
            proof {
                let st = old(context).binding_state();
                let t = expr_names(*test);
                let b = stmts_names(body@, body@.len());
                let o = stmts_names(orelse@, orelse@.len());
                lemma_bind_names_append(st, t, b);
                lemma_bind_names_append(st, t + b, o);
            }
            r
        },
        PyStmt::While { test, body } => {
            proof {
                if closed_stmt(*stmt) {
                    lemma_plain_pred_unnamed(*test);
                    context.lemma_next_var_bounded();
                }
            }
            let r = collect_free_vars_expr(test, context);
            if r.is_err() {
                return r;
            }
            proof {
                assert(decreases_to!(*stmt => (*stmt)->While_body));
            }
            let r = collect_free_vars_block(body, context);
            proof {
                lemma_bind_names_append(old(context).binding_state(), expr_names(*test), stmts_names(body@, body@.len()));
            }
            r
        },
        _ => Ok(()),
    }
}

/// Binds the variables of every statement of a block, in order.
fn collect_free_vars_block(stmts: &Vec<PyStmt>, context: &mut Context) -> (r: Result<(), TypeError>)
    ensures
        forall|n: Seq<char>| #[trigger] old(context).lookup(n) is Some ==> final(context).lookup(n) == old(
            context,
        ).lookup(n),
        r is Err ==> r == Err::<(), TypeError>(TypeError::TypeVariablesExhausted),
        old(context).next_var_spec() <= final(context).next_var_spec(),
        r is Ok ==> forall|j: int, k: int, n: Seq<char>|
            #![trigger assigns_name(stmts@[j]->Assign_targets@, k, n)]
            0 <= j < stmts@.len() && stmts@[j] is Assign && assigns_name(stmts@[j]->Assign_targets@, k, n)
                ==> final(context).lookup(n) is Some,
        closed_stmts(stmts@, stmts@.len()) ==> r is Ok && final(context).entries_model() == old(
            context,
        ).entries_model() && final(context).next_var_spec() == old(context).next_var_spec(),
        r is Ok ==> final(context).binding_state() == bind_names_model(
            old(context).binding_state(),
            stmts_names(stmts@, stmts@.len()),
        ),
        names_sorted(old(context).names()) ==> names_sorted(final(context).names()),
    decreases stmts,
{
    let mut i: usize = 0;
    while i < stmts.len()
        invariant
            i <= stmts@.len(),
            decreases_to!(*stmts => stmts@),
            forall|n: Seq<char>| #[trigger] old(context).lookup(n) is Some ==> context.lookup(n) == old(
                context,
            ).lookup(n),
            old(context).next_var_spec() <= context.next_var_spec(),
            forall|j: int, k: int, n: Seq<char>|
                #![trigger assigns_name(stmts@[j]->Assign_targets@, k, n)]
                0 <= j < i && stmts@[j] is Assign && assigns_name(stmts@[j]->Assign_targets@, k, n)
                    ==> context.lookup(n) is Some,
            closed_stmts(stmts@, stmts@.len()) ==> context.entries_model() == old(context).entries_model()
                && context.next_var_spec() == old(context).next_var_spec(),
            context.binding_state() == bind_names_model(old(context).binding_state(), stmts_names(stmts@, i as nat)),
            names_sorted(old(context).names()) ==> names_sorted(context.names()),
        decreases stmts@.len() - i,
    {
        proof {
            assert(decreases_to!(*stmts => stmts@[i as int]));
            if closed_stmts(stmts@, stmts@.len()) {
                lemma_closed_stmts(stmts@, stmts@.len(), i as int);
            }
        }
        let ghost before = *context;
        let r = collect_free_vars_stmt(&stmts[i], context);
        if r.is_err() {
            return r;
        }
        proof {
            assert(stmts_names(stmts@, (i + 1) as nat) == stmts_names(stmts@, i as nat) + stmt_names(stmts@[i as int]));
            lemma_bind_names_append(
                old(context).binding_state(),
                stmts_names(stmts@, i as nat),
                stmt_names(stmts@[i as int]),
            );
        }
        proof {
            assert forall|j: int, k: int, n: Seq<char>|
                #![trigger assigns_name(stmts@[j]->Assign_targets@, k, n)]
                0 <= j < i + 1 && stmts@[j] is Assign && assigns_name(stmts@[j]->Assign_targets@, k, n)
                    implies context.lookup(n) is Some by {
                if j < i {
                    assert(before.lookup(n) is Some);
                }
            }
        }
        i = i + 1;
    }
    Ok(())
}

/// Binds a name to a fresh type variable unless the context binds it.
fn bind_name(name: &str, context: &mut Context) -> (r: Result<(), TypeError>)
    ensures
        forall|n: Seq<char>| #[trigger] old(context).lookup(n) is Some ==> final(context).lookup(n) == old(
            context,
        ).lookup(n),
        r is Ok ==> final(context).lookup(name@) is Some,
        r is Err <==> old(context).lookup(name@) is None && old(context).next_var_spec() == usize::MAX,
        r is Err ==> r == Err::<(), TypeError>(TypeError::TypeVariablesExhausted) && final(context).next_var_spec()
            == old(context).next_var_spec(),
        old(context).next_var_spec() <= final(context).next_var_spec() <= old(context).next_var_spec() + 1,
        old(context).lookup(name@) is Some ==> final(context).entries_model() == old(context).entries_model()
            && final(context).next_var_spec() == old(context).next_var_spec(),
        r is Ok ==> final(context).binding_state() == bind_name_model(old(context).binding_state(), name@),
        names_sorted(old(context).names()) ==> names_sorted(final(context).names()),
{
    if context.get(name).is_none() && context.next_var_value() == usize::MAX {
        return Err(TypeError::TypeVariablesExhausted);
    }
    let ghost before = *context;
    context.get_or_insert_var(name);
    proof {
        if before.lookup(name@) is Some {
            assert(context.bindings() =~= before.bindings());
        } else {
            assert(context.bindings() =~= before.bindings().insert(
                name@,
                TypeModel::Var(before.next_var_spec() as usize),
            ));
        }
    }
    Ok(())
}

/// The command reads or binds the variable `n` through this expression: as
/// a name, or inside an operand, an operation or an argument of a call.
pub open spec fn binds_in_expr(e: PyExpr, n: Seq<char>) -> bool
    decreases e, 0nat,
{
    match e {
        PyExpr::Name(id) => id@ == n,
        PyExpr::UnaryOp(_, operand) => binds_in_expr(*operand, n),
        PyExpr::BinOp(l, _, r) => binds_in_expr(*l, n) || binds_in_expr(*r, n),
        PyExpr::BoolOp(_, values) => binds_in_exprs(values@, n, values@.len()),
        PyExpr::Compare(l, _, comparators) => binds_in_expr(*l, n) || binds_in_exprs(
            comparators@,
            n,
            comparators@.len(),
        ),
        PyExpr::Call { args, .. } => binds_in_exprs(args@, n, args@.len()),
        _ => false,
    }
}

/// One of the first `k` expressions binds `n`.
pub open spec fn binds_in_exprs(es: Seq<PyExpr>, n: Seq<char>, k: nat) -> bool
    decreases es, k,
{
    if k == 0 || k > es.len() {
        false
    } else {
        binds_in_exprs(es, n, (k - 1) as nat) || binds_in_expr(es[k - 1], n)
    }
}

/// The number of places where an expression names a variable to bind.
pub open spec fn bound_name_count(e: PyExpr) -> nat
    decreases e, 0nat,
{
    match e {
        PyExpr::Name(_) => 1,
        PyExpr::UnaryOp(_, operand) => bound_name_count(*operand),
        PyExpr::BinOp(l, _, r) => bound_name_count(*l) + bound_name_count(*r),
        PyExpr::BoolOp(_, values) => bound_name_counts(values@, values@.len()),
        PyExpr::Compare(l, _, comparators) => bound_name_count(*l) + bound_name_counts(
            comparators@,
            comparators@.len(),
        ),
        PyExpr::Call { args, .. } => bound_name_counts(args@, args@.len()),
        _ => 0,
    }
}

/// The number of places where the first `k` expressions name a variable.
pub open spec fn bound_name_counts(es: Seq<PyExpr>, k: nat) -> nat
    decreases es, k,
{
    if k == 0 || k > es.len() {
        0
    } else {
        bound_name_counts(es, (k - 1) as nat) + bound_name_count(es[k - 1])
    }
}

proof fn lemma_bound_name_counts(es: Seq<PyExpr>, i: nat, k: nat)
    requires
        i <= k <= es.len(),
    ensures
        bound_name_counts(es, i) <= bound_name_counts(es, k),
    decreases k,
{
    if i < k {
        lemma_bound_name_counts(es, i, (k - 1) as nat);
    }
}

/// Binds the variables an expression reads: names, and the operands of
/// unary, binary and boolean operations, comparisons and calls.
pub fn collect_free_vars_expr(expr: &PyExpr, context: &mut Context) -> (r: Result<(), TypeError>)
    ensures
        forall|n: Seq<char>| #[trigger] old(context).lookup(n) is Some ==> final(context).lookup(n) == old(
            context,
        ).lookup(n),
        r is Ok ==> forall|n: Seq<char>| #[trigger] binds_in_expr(*expr, n) ==> final(context).lookup(n) is Some,
        r is Err ==> r == Err::<(), TypeError>(TypeError::TypeVariablesExhausted) && old(context).next_var_spec()
            + bound_name_count(*expr) > usize::MAX,
        old(context).next_var_spec() + bound_name_count(*expr) <= usize::MAX ==> r is Ok,
        old(context).next_var_spec() <= final(context).next_var_spec(),
        final(context).next_var_spec() <= old(context).next_var_spec() + bound_name_count(*expr),
        bound_name_count(*expr) == 0 ==> final(context).entries_model() == old(context).entries_model()
            && final(context).next_var_spec() == old(context).next_var_spec(),
        r is Ok ==> final(context).binding_state() == bind_names_model(
            old(context).binding_state(),
            expr_names(*expr),
        ),
        names_sorted(old(context).names()) ==> names_sorted(final(context).names()),
    decreases expr,
{
    match expr {
        PyExpr::Name(id) => {
            let a = bind_name(id.as_str(), context);
            proof {
                lemma_bind_single(old(context).binding_state(), id@);
                if a is Ok {
                    assert forall|n: Seq<char>| #[trigger] binds_in_expr(*expr, n) implies context.lookup(n) is Some by {
                        assert(n == id@);
                    }
                }
            }
            a
        },
        PyExpr::UnaryOp(_, operand) => {
            let a = collect_free_vars_expr(operand, context);
            proof {
                if a is Ok {
                    assert forall|n: Seq<char>| #[trigger] binds_in_expr(*expr, n) implies context.lookup(n) is Some by {
                        assert(binds_in_expr(**operand, n));
                    }
                }
            }
            a
        },
        PyExpr::BinOp(l, _, r) => {
            let a = collect_free_vars_expr(l, context);
            if a.is_err() {
                return a;
            }
            let ghost mid = *context;
            let b = collect_free_vars_expr(r, context);
            proof {
                lemma_bind_names_append(old(context).binding_state(), expr_names(**l), expr_names(**r));
                if b is Ok {
                    assert forall|n: Seq<char>| #[trigger] binds_in_expr(*expr, n) implies context.lookup(n) is Some by {
                        if binds_in_expr(**l, n) {
                            assert(mid.lookup(n) is Some);
                        } else {
                            assert(binds_in_expr(**r, n));
                        }
                    }
                }
            }
            b
        },
        PyExpr::BoolOp(op, values) => {
            let mut i: usize = 0;
            while i < values.len()
                invariant
                    i <= values@.len(),
                    *expr == PyExpr::BoolOp(*op, *values),
                    forall|n: Seq<char>| #[trigger] old(context).lookup(n) is Some ==> context.lookup(n) == old(
                        context,
                    ).lookup(n),
                    forall|n: Seq<char>| #[trigger] binds_in_exprs(values@, n, i as nat) ==> context.lookup(n) is Some,
                    old(context).next_var_spec() <= context.next_var_spec(),
                    context.next_var_spec() <= old(context).next_var_spec() + bound_name_counts(values@, i as nat),
                    bound_name_counts(values@, i as nat) == 0 ==> context.entries_model() == old(context).entries_model()
                        && context.next_var_spec() == old(context).next_var_spec(),
                    context.binding_state() == bind_names_model(
                        old(context).binding_state(),
                        exprs_names(values@, i as nat),
                    ),
                    names_sorted(old(context).names()) ==> names_sorted(context.names()),
                decreases values@.len() - i,
            {
                proof {
                    assert(decreases_to!(*expr => (*expr)->BoolOp_1));
                    assert(decreases_to!(*expr => values@[i as int]));
                }
                let ghost before = *context;
                proof {
                    lemma_bound_name_counts(values@, (i + 1) as nat, values@.len());
                    assert(bound_name_counts(values@, (i + 1) as nat) == bound_name_counts(values@, i as nat) + bound_name_count(
                        values@[i as int],
                    ));
                }
                let a = collect_free_vars_expr(&values[i], context);
                if a.is_err() {
                    return a;
                }
                let ghost j: nat = i as nat;
                i = i + 1;
                proof {
                    assert(i as nat == j + 1);
                    assert(bound_name_counts(values@, i as nat) == bound_name_counts(values@, j) + bound_name_count(values@[j as int]));
                    assert(exprs_names(values@, i as nat) == exprs_names(values@, j) + expr_names(values@[j as int]));
                    lemma_bind_names_append(old(context).binding_state(), exprs_names(values@, j), expr_names(values@[j as int]));
                    assert forall|n: Seq<char>| #[trigger] binds_in_exprs(values@, n, i as nat) implies context.lookup(
                        n,
                    ) is Some by {
                        assert(binds_in_exprs(values@, n, i as nat) == (binds_in_exprs(values@, n, j) || binds_in_expr(
                            values@[j as int],
                            n,
                        )));
                        if binds_in_exprs(values@, n, j) {
                            assert(before.lookup(n) is Some);
                        } else {
                            assert(binds_in_expr(values@[j as int], n));
                        }
                    }
                }
            }
            proof {
                assert forall|n: Seq<char>| #[trigger] binds_in_expr(*expr, n) implies context.lookup(n) is Some by {
                    assert(binds_in_exprs(values@, n, i as nat));
                }
            }
            Ok(())
        },
        PyExpr::Compare(l, ops, comparators) => {
            let a = collect_free_vars_expr(l, context);
            if a.is_err() {
                return a;
            }
            let ghost mid = *context;
            let mut i: usize = 0;
            while i < comparators.len()
                invariant
                    i <= comparators@.len(),
                    *expr == PyExpr::Compare(*l, *ops, *comparators),
                    forall|n: Seq<char>| #[trigger] old(context).lookup(n) is Some ==> mid.lookup(n) == old(
                        context,
                    ).lookup(n),
                    forall|n: Seq<char>| #[trigger] mid.lookup(n) is Some ==> context.lookup(n) == mid.lookup(n),
                    forall|n: Seq<char>| #[trigger] binds_in_expr(**l, n) ==> mid.lookup(n) is Some,
                    forall|n: Seq<char>| #[trigger] binds_in_exprs(comparators@, n, i as nat) ==> context.lookup(n) is Some,
                    old(context).next_var_spec() <= mid.next_var_spec(),
                    mid.next_var_spec() <= old(context).next_var_spec() + bound_name_count(**l),
                    mid.next_var_spec() <= context.next_var_spec(),
                    context.next_var_spec() <= mid.next_var_spec() + bound_name_counts(comparators@, i as nat),
                    bound_name_count(**l) == 0 ==> mid.entries_model() == old(context).entries_model()
                        && mid.next_var_spec() == old(context).next_var_spec(),
                    bound_name_counts(comparators@, i as nat) == 0 ==> context.entries_model() == mid.entries_model()
                        && context.next_var_spec() == mid.next_var_spec(),
                    mid.binding_state() == bind_names_model(old(context).binding_state(), expr_names(**l)),
                    context.binding_state() == bind_names_model(
                        mid.binding_state(),
                        exprs_names(comparators@, i as nat),
                    ),
                    names_sorted(old(context).names()) ==> names_sorted(mid.names()),
                    names_sorted(mid.names()) ==> names_sorted(context.names()),
                decreases comparators@.len() - i,
            {
                proof {
                    assert(decreases_to!(*expr => (*expr)->Compare_2));
                    assert(decreases_to!(*expr => comparators@[i as int]));
                }
                let ghost before = *context;
                proof {
                    lemma_bound_name_counts(comparators@, (i + 1) as nat, comparators@.len());
                    assert(bound_name_counts(comparators@, (i + 1) as nat) == bound_name_counts(comparators@, i as nat)
                        + bound_name_count(comparators@[i as int]));
                }
                let b = collect_free_vars_expr(&comparators[i], context);
                if b.is_err() {
                    proof {
                        lemma_bound_name_counts(comparators@, (i + 1) as nat, comparators@.len());
                    }
                    return b;
                }
                let ghost j: nat = i as nat;
                i = i + 1;
                proof {
                    assert(i as nat == j + 1);
                    assert(bound_name_counts(comparators@, i as nat) == bound_name_counts(comparators@, j)
                        + bound_name_count(comparators@[j as int]));
                    assert(exprs_names(comparators@, i as nat) == exprs_names(comparators@, j) + expr_names(
                        comparators@[j as int],
                    ));
                    lemma_bind_names_append(mid.binding_state(), exprs_names(comparators@, j), expr_names(comparators@[j as int]));
                    assert forall|n: Seq<char>| #[trigger] binds_in_exprs(comparators@, n, i as nat) implies context.lookup(
                        n,
                    ) is Some by {
                        assert(binds_in_exprs(comparators@, n, i as nat) == (binds_in_exprs(comparators@, n, j)
                            || binds_in_expr(comparators@[j as int], n)));
                        if binds_in_exprs(comparators@, n, j) {
                            assert(before.lookup(n) is Some);
                        } else {
                            assert(binds_in_expr(comparators@[j as int], n));
                        }
                    }
                }
            }
            proof {
                lemma_bound_name_counts(comparators@, i as nat, comparators@.len());
                lemma_bind_names_append(
                    old(context).binding_state(),
                    expr_names(**l),
                    exprs_names(comparators@, comparators@.len()),
                );
                assert forall|n: Seq<char>| #[trigger] binds_in_expr(*expr, n) implies context.lookup(n) is Some by {
                    if binds_in_expr(**l, n) {
                        assert(mid.lookup(n) is Some);
                    } else {
                        assert(binds_in_exprs(comparators@, n, i as nat));
                    }
                }
            }
            Ok(())
        },
        PyExpr::Call { func, args, has_keywords } => {
            let mut i: usize = 0;
            while i < args.len()
                invariant
                    i <= args@.len(),
                    *expr == (PyExpr::Call { func: *func, args: *args, has_keywords: *has_keywords }),
                    forall|n: Seq<char>| #[trigger] old(context).lookup(n) is Some ==> context.lookup(n) == old(
                        context,
                    ).lookup(n),
                    forall|n: Seq<char>| #[trigger] binds_in_exprs(args@, n, i as nat) ==> context.lookup(n) is Some,
                    old(context).next_var_spec() <= context.next_var_spec(),
                    context.next_var_spec() <= old(context).next_var_spec() + bound_name_counts(args@, i as nat),
                    bound_name_counts(args@, i as nat) == 0 ==> context.entries_model() == old(context).entries_model()
                        && context.next_var_spec() == old(context).next_var_spec(),
                    context.binding_state() == bind_names_model(
                        old(context).binding_state(),
                        exprs_names(args@, i as nat),
                    ),
                    names_sorted(old(context).names()) ==> names_sorted(context.names()),
                decreases args@.len() - i,
            {
                proof {
                    assert(decreases_to!(*expr => (*expr)->Call_args));
                    assert(decreases_to!(*expr => args@[i as int]));
                }
                let ghost before = *context;
                proof {
                    lemma_bound_name_counts(args@, (i + 1) as nat, args@.len());
                    assert(bound_name_counts(args@, (i + 1) as nat) == bound_name_counts(args@, i as nat) + bound_name_count(
                        args@[i as int],
                    ));
                }
                let a = collect_free_vars_expr(&args[i], context);
                if a.is_err() {
                    return a;
                }
                let ghost j: nat = i as nat;
                i = i + 1;
                proof {
                    assert(i as nat == j + 1);
                    assert(bound_name_counts(args@, i as nat) == bound_name_counts(args@, j) + bound_name_count(args@[j as int]));
                    assert(exprs_names(args@, i as nat) == exprs_names(args@, j) + expr_names(args@[j as int]));
                    lemma_bind_names_append(old(context).binding_state(), exprs_names(args@, j), expr_names(args@[j as int]));
                    assert forall|n: Seq<char>| #[trigger] binds_in_exprs(args@, n, i as nat) implies context.lookup(
                        n,
                    ) is Some by {
                        assert(binds_in_exprs(args@, n, i as nat) == (binds_in_exprs(args@, n, j) || binds_in_expr(
                            args@[j as int],
                            n,
                        )));
                        if binds_in_exprs(args@, n, j) {
                            assert(before.lookup(n) is Some);
                        } else {
                            assert(binds_in_expr(args@[j as int], n));
                        }
                    }
                }
            }
            proof {
                assert forall|n: Seq<char>| #[trigger] binds_in_expr(*expr, n) implies context.lookup(n) is Some by {
                    assert(binds_in_exprs(args@, n, i as nat));
                }
            }
            Ok(())
        },
        _ => Ok(()),
    }
}

/// Types a statement, its variables bound to fresh type variables in order
/// of first occurrence.
pub fn infer_command_from_stmt(stmt: &PyStmt) -> (r: Result<CommandDerivationTree, CommandError>)
    ensures
        r is Ok ==> exists|ctx: Seq<(Seq<char>, TypeModel)>| #[trigger]
            stmt_tree(*stmt, ctx, r->Ok_0) && lists_bindings(ctx, stmt_bindings(*stmt)),
        closed_stmt(*stmt) ==> r is Ok,
{
    let mut context = Context::new();
    proof {
        assert(context.bindings() =~= Map::<Seq<char>, TypeModel>::empty());
        assert(names_sorted(context.names()));
    }
    match collect_free_vars_stmt(stmt, &mut context) {
        Err(e) => {
            return Err(CommandError::Type(e));
        },
        Ok(()) => {},
    }
    match infer_command(stmt, &context) {
        Ok((tree, _)) => {
            proof {
                lemma_context_lists_bindings(context, stmt_bindings(*stmt));
                assert(stmt_tree(*stmt, context.entries_model(), tree));
            }
            let res: Result<CommandDerivationTree, CommandError> = Ok(tree);
            proof {
                assert(res->Ok_0 == tree);
                assert(stmt_tree(*stmt, context.entries_model(), res->Ok_0) && lists_bindings(
                    context.entries_model(),
                    stmt_bindings(*stmt),
                ));
            }
            res
        },
        Err(e) => Err(e),
    }
}

/// Types a block of statements, its variables bound to fresh type
/// variables in order of first occurrence.
pub fn infer_command_from_suite(stmts: &Vec<PyStmt>) -> (r: Result<CommandDerivationTree, CommandError>)
    ensures
        r is Ok ==> exists|ctx: Seq<(Seq<char>, TypeModel)>| #[trigger]
            block_tree(stmts@, ctx, r->Ok_0) && lists_bindings(ctx, suite_bindings(stmts@)),
        closed_stmts(stmts@, stmts@.len()) ==> r is Ok,
{
    let mut context = Context::new();
    proof {
        assert(context.bindings() =~= Map::<Seq<char>, TypeModel>::empty());
        assert(names_sorted(context.names()));
    }
    let mut i: usize = 0;
    while i < stmts.len()
        invariant
            i <= stmts@.len(),
            context.binding_state() == bind_names_model((Map::empty(), 0), stmts_names(stmts@, i as nat)),
            names_sorted(context.names()),
        decreases stmts@.len() - i,
    {
        proof {
            if closed_stmts(stmts@, stmts@.len()) {
                lemma_closed_stmts(stmts@, stmts@.len(), i as int);
            }
        }
        match collect_free_vars_stmt(&stmts[i], &mut context) {
            Err(e) => {
                return Err(CommandError::Type(e));
            },
            Ok(()) => {},
        }
        proof {
            assert(stmts_names(stmts@, (i + 1) as nat) == stmts_names(stmts@, i as nat) + stmt_names(stmts@[i as int]));
            lemma_bind_names_append(
                (Map::empty(), 0),
                stmts_names(stmts@, i as nat),
                stmt_names(stmts@[i as int]),
            );
        }
        i = i + 1;
    }
    match infer_block(stmts, &context) {
        Ok((tree, _)) => {
            proof {
                lemma_context_lists_bindings(context, suite_bindings(stmts@));
                assert(block_tree(stmts@, context.entries_model(), tree));
            }
            let res: Result<CommandDerivationTree, CommandError> = Ok(tree);
            proof {
                assert(res->Ok_0 == tree);
                assert(block_tree(stmts@, context.entries_model(), res->Ok_0) && lists_bindings(
                    context.entries_model(),
                    suite_bindings(stmts@),
                ));
            }
            res
        },
        Err(e) => Err(e),
    }
}

/// Index of the first line feed in `t`, or -1 when there is none.
pub open spec fn first_line_feed(t: Seq<char>) -> int
    decreases t.len(),
{
    if t.len() == 0 {
        -1
    } else if t[0] == '\n' {
        0
    } else {
        let r = first_line_feed(t.drop_first());
        if r < 0 {
            -1
        } else {
            r + 1
        }
    }
}

/// A line as `str::lines` yields it: a carriage return that ends it is
/// dropped.
pub open spec fn line_without_cr(line: Seq<char>) -> Seq<char> {
    if line.len() > 0 && line.last() == '\r' {
        line.drop_last()
    } else {
        line
    }
}

/// Every line of `t`, as `str::lines` splits it, written out as `pad`, the
/// line and a line feed.
pub open spec fn padded_lines(t: Seq<char>, pad: Seq<char>) -> Seq<char>
    decreases t.len(),
{
    if t.len() == 0 {
        Seq::empty()
    } else {
        let i = first_line_feed(t);
        if i < 0 {
            pad + t + "\n"@
        } else {
            proof {
                lemma_first_line_feed_bound(t);
            }
            pad + line_without_cr(t.subrange(0, i)) + "\n"@ + padded_lines(t.subrange(i + 1, t.len() as int), pad)
        }
    }
}

/// The first line feed, when there is one, stands in `t`.
pub proof fn lemma_first_line_feed_bound(t: Seq<char>)
    ensures
        -1 <= first_line_feed(t) < t.len(),
        first_line_feed(t) >= 0 ==> t[first_line_feed(t)] == '\n',
    decreases t.len(),
{
    if t.len() > 0 && t[0] != '\n' {
        lemma_first_line_feed_bound(t.drop_first());
    }
}

/// Where the first line feed of `t` stands, given the positions before it.
proof fn lemma_first_line_feed(t: Seq<char>, k: int)
    requires
        0 <= k <= t.len(),
        forall|j: int| 0 <= j < k ==> t[j] != '\n',
    ensures
        k < t.len() && t[k] == '\n' ==> first_line_feed(t) == k,
        k == t.len() ==> first_line_feed(t) == -1,
    decreases k,
{
    if k > 0 {
        lemma_first_line_feed(t.drop_first(), k - 1);
    } else if t.len() > 0 && t[0] != '\n' && k == t.len() {
    }
}

/// Writes every line of `text` as `pad`, the line and a line feed, the lines
/// split as `str::lines` splits them.
fn write_padded_lines(text: &String, pad: &String) -> (r: String)
    ensures
        r@ == padded_lines(text@, pad@),
{
    let n = text.as_str().unicode_len();
    let ghost t = text@;
    let mut out = String::new();
    let mut line = String::new();
    let mut line_start: usize = 0;
    let mut i: usize = 0;
    proof {
        assert(t.subrange(0, n as int) =~= t);
    }
    while i < n
        invariant
            t == text@,
            n == t.len(),
            line_start <= i <= n,
            line@ == t.subrange(line_start as int, i as int),
            forall|j: int| line_start <= j < i ==> t[j] != '\n',
            out@ + padded_lines(t.subrange(line_start as int, n as int), pad@) == padded_lines(t, pad@),
        decreases n - i,
    {
        let c = text.as_str().get_char(i);
        if c == '\n' {
            let ghost rest = t.subrange(line_start as int, n as int);
            proof {
                lemma_first_line_feed(rest, i - line_start);
                assert(rest.subrange(0, i - line_start) =~= line@);
                assert(rest.subrange(i - line_start + 1, rest.len() as int) =~= t.subrange(i + 1, n as int));
            }
            let l = line.as_str().unicode_len();
            let body = if l > 0 && line.as_str().get_char(l - 1) == '\r' {
                line.as_str().substring_char(0, l - 1).to_string()
            } else {
                line.clone()
            };
            proof {
                assert(body@ == line_without_cr(line@));
            }
            let ghost before = out@;
            out = out.concat(pad.as_str()).concat(body.as_str()).concat("\n");
            proof {
                assert(out@ + padded_lines(t.subrange(i + 1, n as int), pad@) =~= before + padded_lines(rest, pad@));
            }
            line = String::new();
            line_start = i + 1;
        } else {
            line = line.concat(text.as_str().substring_char(i, i + 1));
            proof {
                assert(line@ =~= t.subrange(line_start as int, i + 1));
            }
        }
        i = i + 1;
    }
    if line_start < n {
        let ghost rest = t.subrange(line_start as int, n as int);
        proof {
            lemma_first_line_feed(rest, rest.len() as int);
            assert(rest =~= line@);
        }
        out = out.concat(pad.as_str()).concat(line.as_str()).concat("\n");
    } else {
        proof {
            assert(t.subrange(line_start as int, n as int) =~= Seq::<char>::empty());
        }
    }
    out
}

/// `context |- command`.
pub open spec fn command_judgment_text(j: CommandJudgment) -> Seq<char> {
    context_text(j.context_view()) + " |- "@ + j.command_view()
}

impl CommandJudgment {
    /// The judgment as text (see `command_judgment_text`).
    pub fn to_text(&self) -> (r: String)
        ensures
            r@ == command_judgment_text(*self),
    {
        self.context.to_text().concat(" |- ").concat(self.command.as_str())
    }
}

impl CommandDerivationTree {
    /// The tree as text, every line starting with `pad`: `[rule] judgment`,
    /// then the children with two more spaces of padding; a subcommand as a
    /// tree, an expression or predicate as its deduction tree's text, line
    /// by line.
    pub closed spec fn text(self, pad: Seq<char>) -> Seq<char>
        decreases self, 0nat,
    {
        pad + "["@ + self.rule@ + "] "@ + command_judgment_text(self.judgment) + "\n"@
            + CommandDerivationTree::children_text(self.children@, self.children@.len(), pad + "  "@)
    }

    /// The text of the first `n` children, one after the other.
    pub closed spec fn children_text(cs: Seq<CommandChild>, n: nat, pad: Seq<char>) -> Seq<char>
        decreases cs, n,
    {
        if n == 0 || n > cs.len() {
            Seq::empty()
        } else {
            CommandDerivationTree::children_text(cs, (n - 1) as nat, pad) + match cs[n - 1] {
                CommandChild::Command(c) => c.text(pad),
                CommandChild::Predicate(t) => padded_lines(t.text(Seq::empty()), pad),
                CommandChild::Expression(t) => padded_lines(t.text(Seq::empty()), pad),
            }
        }
    }

    fn text_with_pad(&self, pad: &String) -> (r: String)
        ensures
            r@ == self.text(pad@),
        decreases self,
    {
        let mut out = pad.clone().concat("[").concat(self.rule).concat("] ").concat(self.judgment.to_text().as_str()).concat(
            "\n",
        );
        let ghost head = out@;
        let child_pad = pad.clone().concat("  ");
        let mut i: usize = 0;
        while i < self.children.len()
            invariant
                i <= self.children@.len(),
                child_pad@ == pad@ + "  "@,
                out@ == head + CommandDerivationTree::children_text(self.children@, i as nat, child_pad@),
            decreases self.children@.len() - i,
        {
            proof {
                assert(decreases_to!(*self => self.children));
                assert(decreases_to!(*self => self.children@[i as int]));
            }
            let part = match &self.children[i] {
                CommandChild::Command(cmd) => cmd.text_with_pad(&child_pad),
                CommandChild::Predicate(pred) => write_padded_lines(&pred.fmt_with_indent(0), &child_pad),
                CommandChild::Expression(pred) => write_padded_lines(&pred.fmt_with_indent(0), &child_pad),
            };
            out = out.concat(part.as_str());
            i = i + 1;
        }
        out
    }

    /// The tree as text, indented by `indent` times two spaces (see `text`).
    pub fn fmt_with_indent(&self, indent: usize) -> (r: String)
        ensures
            r@ == self.text(indent_text(indent as nat)),
    {
        let pad = indentation(indent);
        self.text_with_pad(&pad)
    }
}

} // verus!
