//! A finite-domain solver for type equations: every type variable is
//! assigned one of the primitive types or of the named types that occur,
//! by backtracking in variable order, until all constraints hold and every
//! node resolves to a primitive type.

use vstd::prelude::*;

use crate::context::{chars_lt, lemma_chars_lt_total, lemma_chars_lt_transitive, name_less};
use crate::tape_language::lax_graph::{LaxGraph, LaxGraphModel};
use crate::types::{type_model, ConstraintModel, TypeConstraint, TypeExpr, TypeModel, TypeVar};

verus! {

/// The type bound to variable `v` by the first entry for it.
pub open spec fn assoc_lookup(entries: Seq<(usize, TypeModel)>, v: usize) -> Option<TypeModel>
    decreases entries.len(),
{
    if entries.len() == 0 {
        None
    } else if entries[0].0 == v {
        Some(entries[0].1)
    } else {
        assoc_lookup(entries.drop_first(), v)
    }
}

/// The model of a list of variable bindings.
pub open spec fn bindings_view(entries: Seq<(usize, TypeExpr)>) -> Seq<(usize, TypeModel)> {
    entries.map_values(|e: (usize, TypeExpr)| (e.0, type_model(e.1)))
}

/// A type with the bound variables replaced; a union of two equal types
/// collapses to one of them.
pub open spec fn substituted(t: TypeModel, s: Seq<(usize, TypeModel)>) -> TypeModel
    decreases t,
{
    match t {
        TypeModel::Var(v) => match assoc_lookup(s, v) {
            Some(u) => u,
            None => TypeModel::Var(v),
        },
        TypeModel::Union(l, r) => {
            let a = substituted(*l, s);
            let b = substituted(*r, s);
            if a == b {
                a
            } else {
                TypeModel::Union(Box::new(a), Box::new(b))
            }
        },
        _ => t,
    }
}

/// Applying a substitution whose bound types hold no variable and no
/// union twice gives what applying it once gives.
pub proof fn law_substitution_idempotent(t: TypeModel, s: Seq<(usize, TypeModel)>)
    requires
        forall|v: usize| #[trigger] assoc_lookup(s, v) matches Some(u) ==> !(u is Var) && !(u is Union),
    ensures
        substituted(substituted(t, s), s) == substituted(t, s),
    decreases t,
{
    match t {
        TypeModel::Var(v) => {
            assert(assoc_lookup(s, v) matches Some(u) ==> !(u is Var) && !(u is Union));
        },
        TypeModel::Union(l, r) => {
            law_substitution_idempotent(*l, s);
            law_substitution_idempotent(*r, s);
        },
        _ => {},
    }
}

/// A type evaluated under an assignment: unassigned variables count as
/// `Int`, and a union of two equal types collapses to one of them.
pub open spec fn evaluated(t: TypeModel, s: Seq<(usize, TypeModel)>) -> TypeModel
    decreases t,
{
    match t {
        TypeModel::Var(v) => match assoc_lookup(s, v) {
            Some(u) => u,
            None => TypeModel::Int,
        },
        TypeModel::Union(l, r) => {
            let a = evaluated(*l, s);
            let b = evaluated(*r, s);
            if a == b {
                a
            } else {
                TypeModel::Union(Box::new(a), Box::new(b))
            }
        },
        _ => t,
    }
}

/// A constraint holds under an assignment: equal sides evaluate equal, a
/// numeric type evaluates to `Int` or `Float`; the others always hold.
pub open spec fn constraint_holds(c: ConstraintModel, s: Seq<(usize, TypeModel)>) -> bool {
    match c {
        ConstraintModel::Equal(l, r) => evaluated(l, s) == evaluated(r, s),
        ConstraintModel::Numeric(t) => evaluated(t, s) is Int || evaluated(t, s) is Float,
        _ => true,
    }
}

/// Every constraint holds.
pub open spec fn all_hold(cs: Seq<ConstraintModel>, s: Seq<(usize, TypeModel)>) -> bool {
    forall|k: int| 0 <= k < cs.len() ==> constraint_holds(#[trigger] cs[k], s)
}

/// A primitive type: `Bool`, `1`, `Int`, `Float` or a named type.
pub open spec fn primitive(t: TypeModel) -> bool {
    t is Bool || t is Unit || t is Int || t is Float || t is Named
}

/// Every node evaluates to a primitive type.
pub open spec fn all_primitive(nodes: Seq<TypeModel>, s: Seq<(usize, TypeModel)>) -> bool {
    forall|k: int| 0 <= k < nodes.len() ==> primitive(#[trigger] evaluated(nodes[k], s))
}

/// A substitution of types for type variables.
#[derive(Debug)]
pub struct TypeSubstitution {
    mapping: Vec<(usize, TypeExpr)>,
}

impl TypeSubstitution {
    /// The bindings of the substitution, by model.
    pub closed spec fn bindings(&self) -> Seq<(usize, TypeModel)> {
        bindings_view(self.mapping@)
    }

    /// The substitution applied to a type: bound variables replaced, unions
    /// of equal types collapsed.
    pub fn apply(&self, expr: &TypeExpr) -> (r: TypeExpr)
        ensures
            type_model(r) == substituted(type_model(*expr), self.bindings()),
        decreases expr,
    {
        match expr {
            TypeExpr::Var(var) => match lookup_binding(&self.mapping, var.0) {
                Some(t) => t,
                None => TypeExpr::Var(TypeVar(var.0)),
            },
            TypeExpr::Union(left, right) => {
                let lhs = self.apply(left);
                let rhs = self.apply(right);
                if lhs.same(&rhs) {
                    lhs
                } else {
                    TypeExpr::Union(Box::new(lhs), Box::new(rhs))
                }
            },
            _ => expr.copy(),
        }
    }
}

/// Why type equations have no solution.
#[derive(Debug)]
pub enum SolveError {
    NoSolution,
    UnresolvedType(TypeExpr),
}

/// The type bound to a variable by the first binding for it.
fn lookup_binding(entries: &Vec<(usize, TypeExpr)>, v: usize) -> (r: Option<TypeExpr>)
    ensures
        match r {
            Some(t) => assoc_lookup(bindings_view(entries@), v) == Some(type_model(t)),
            None => assoc_lookup(bindings_view(entries@), v) is None,
        },
{
    let ghost b = bindings_view(entries@);
    let mut i: usize = 0;
    proof {
        assert(b.skip(0) =~= b);
    }
    while i < entries.len()
        invariant
            i <= entries@.len(),
            b == bindings_view(entries@),
            assoc_lookup(b, v) == assoc_lookup(b.skip(i as int), v),
        decreases entries@.len() - i,
    {
        proof {
            assert(b.skip(i as int).drop_first() =~= b.skip(i + 1));
            assert(b.skip(i as int)[0] == b[i as int]);
        }
        if entries[i].0 == v {
            return Some(entries[i].1.copy());
        }
        i = i + 1;
    }
    None
}

/// A type evaluated under an assignment.
fn eval_expr(expr: &TypeExpr, assignment: &Vec<(usize, TypeExpr)>) -> (r: TypeExpr)
    ensures
        type_model(r) == evaluated(type_model(*expr), bindings_view(assignment@)),
    decreases expr,
{
    match expr {
        TypeExpr::Var(var) => match lookup_binding(assignment, var.0) {
            Some(t) => t,
            None => TypeExpr::Int,
        },
        TypeExpr::Union(left, right) => {
            let lhs = eval_expr(left, assignment);
            let rhs = eval_expr(right, assignment);
            if lhs.same(&rhs) {
                lhs
            } else {
                TypeExpr::Union(Box::new(lhs), Box::new(rhs))
            }
        },
        _ => expr.copy(),
    }
}

/// Decides whether every constraint holds under the assignment.
fn constraints_satisfied(constraints: &[TypeConstraint], assignment: &Vec<(usize, TypeExpr)>) -> (r: bool)
    ensures
        r == all_hold(constraints@.map_values(|c: TypeConstraint| c.deep_view()), bindings_view(assignment@)),
{
    let ghost cs = constraints@.map_values(|c: TypeConstraint| c.deep_view());
    let mut i: usize = 0;
    while i < constraints.len()
        invariant
            i <= constraints@.len(),
            cs == constraints@.map_values(|c: TypeConstraint| c.deep_view()),
            forall|k: int| 0 <= k < i ==> constraint_holds(#[trigger] cs[k], bindings_view(assignment@)),
        decreases constraints@.len() - i,
    {
        let ok = match &constraints[i] {
            TypeConstraint::Equal(lhs, rhs) => eval_expr(lhs, assignment).same(&eval_expr(rhs, assignment)),
            TypeConstraint::Numeric(t) => match eval_expr(t, assignment) {
                TypeExpr::Int | TypeExpr::Float => true,
                _ => false,
            },
            _ => true,
        };
        if !ok {
            proof {
                assert(!constraint_holds(cs[i as int], bindings_view(assignment@)));
            }
            return false;
        }
        i = i + 1;
    }
    true
}

/// Decides whether every node evaluates to a primitive type.
fn primitives_ok(nodes: &[TypeExpr], assignment: &Vec<(usize, TypeExpr)>) -> (r: bool)
    ensures
        r == all_primitive(nodes@.map_values(|t: TypeExpr| type_model(t)), bindings_view(assignment@)),
{
    let ghost ns = nodes@.map_values(|t: TypeExpr| type_model(t));
    let mut i: usize = 0;
    while i < nodes.len()
        invariant
            i <= nodes@.len(),
            ns == nodes@.map_values(|t: TypeExpr| type_model(t)),
            forall|k: int| 0 <= k < i ==> primitive(#[trigger] evaluated(ns[k], bindings_view(assignment@))),
        decreases nodes@.len() - i,
    {
        let resolved = eval_expr(&nodes[i], assignment);
        let ok = match resolved {
            TypeExpr::Bool | TypeExpr::Unit | TypeExpr::Int | TypeExpr::Float | TypeExpr::Named(_) => true,
            _ => false,
        };
        if !ok {
            proof {
                assert(!primitive(evaluated(ns[i as int], bindings_view(assignment@))));
            }
            return false;
        }
        i = i + 1;
    }
    true
}

/// The type variables of a type.
pub open spec fn vars_of(t: TypeModel) -> Set<usize>
    decreases t,
{
    match t {
        TypeModel::Var(v) => set![v],
        TypeModel::Union(l, r) => vars_of(*l) + vars_of(*r),
        _ => Set::empty(),
    }
}

/// The names of the named types in a type.
pub open spec fn names_in(t: TypeModel) -> Set<Seq<char>>
    decreases t,
{
    match t {
        TypeModel::Named(n) => set![n],
        TypeModel::Union(l, r) => names_in(*l) + names_in(*r),
        _ => Set::empty(),
    }
}

/// Strictly increasing numbers.
pub open spec fn increasing(s: Seq<usize>) -> bool {
    forall|i: int, j: int| 0 <= i < j < s.len() ==> s[i] < s[j]
}

/// Names in strictly increasing order.
pub open spec fn increasing_names(s: Seq<Seq<char>>) -> bool {
    forall|i: int, j: int| 0 <= i < j < s.len() ==> chars_lt(#[trigger] s[i], #[trigger] s[j])
}

/// Inserts a number into a strictly increasing list unless it is there.
fn insert_var(vars: &mut Vec<usize>, v: usize)
    requires
        increasing(old(vars)@),
    ensures
        increasing(final(vars)@),
        final(vars)@.to_set() == old(vars)@.to_set().insert(v),
{
    let mut i: usize = 0;
    while i < vars.len() && vars[i] < v
        invariant
            i <= vars@.len(),
            increasing(vars@),
            vars@ == old(vars)@,
            forall|k: int| 0 <= k < i ==> vars@[k] < v,
        decreases vars@.len() - i,
    {
        i = i + 1;
    }
    if i < vars.len() && vars[i] == v {
        proof {
            assert(old(vars)@.to_set().insert(v) =~= old(vars)@.to_set());
        }
        return;
    }
    let ghost before = vars@;
    vars.insert(i, v);
    proof {
        assert forall|a: int, b: int| 0 <= a < b < vars@.len() implies vars@[a] < vars@[b] by {
            if b < i {
            } else if a < i && b == i {
            } else if a < i && b > i {
                assert(vars@[b] == before[b - 1]);
                assert(before[b - 1] > v) by {
                    if i < before.len() {
                        assert(before[i as int] >= v);
                        assert(before[i as int] != v);
                        if b - 1 > i {
                            assert(before[i as int] < before[b - 1]);
                        }
                    }
                }
            } else if a == i {
                assert(vars@[b] == before[b - 1]);
                assert(before[i as int] > v);
                if b - 1 > i {
                    assert(before[i as int] < before[b - 1]);
                }
            } else {
                assert(vars@[a] == before[a - 1]);
                assert(vars@[b] == before[b - 1]);
            }
        }
        assert(vars@.to_set() =~= before.to_set().insert(v)) by {
            assert forall|x: usize| vars@.to_set().contains(x) implies before.to_set().insert(v).contains(x) by {
                let k = choose|k: int| 0 <= k < vars@.len() && vars@[k] == x;
                if k < i {
                    assert(before[k] == x);
                } else if k > i {
                    assert(before[k - 1] == x);
                }
            }
            assert forall|x: usize| before.to_set().insert(v).contains(x) implies vars@.to_set().contains(x) by {
                if x == v {
                    assert(vars@[i as int] == v);
                } else {
                    let k = choose|k: int| 0 <= k < before.len() && before[k] == x;
                    if k < i {
                        assert(vars@[k] == x);
                    } else {
                        assert(vars@[k + 1] == x);
                    }
                }
            }
        }
    }
}

/// Adds the variables of a type to a strictly increasing list.
fn collect_vars_expr(expr: &TypeExpr, vars: &mut Vec<usize>)
    requires
        increasing(old(vars)@),
    ensures
        increasing(final(vars)@),
        final(vars)@.to_set() == old(vars)@.to_set() + vars_of(type_model(*expr)),
    decreases expr,
{
    match expr {
        TypeExpr::Var(v) => {
            insert_var(vars, v.0);
            proof {
                assert(old(vars)@.to_set().insert(v.0) =~= old(vars)@.to_set() + set![v.0]);
            }
        },
        TypeExpr::Union(left, right) => {
            collect_vars_expr(left, vars);
            collect_vars_expr(right, vars);
            proof {
                assert(vars@.to_set() =~= old(vars)@.to_set() + vars_of(type_model(*expr)));
            }
        },
        _ => {
            proof {
                assert(old(vars)@.to_set() + Set::<usize>::empty() =~= old(vars)@.to_set());
            }
        },
    }
}

/// Inserts a name into a strictly increasing list of names unless it is
/// there.
fn insert_name(names: &mut Vec<String>, name: &String)
    requires
        increasing_names(old(names)@.map_values(|s: String| s@)),
    ensures
        increasing_names(final(names)@.map_values(|s: String| s@)),
        final(names)@.map_values(|s: String| s@).to_set() == old(names)@.map_values(|s: String| s@).to_set().insert(
            name@,
        ),
{
    let ghost before = names@.map_values(|s: String| s@);
    let mut i: usize = 0;
    while i < names.len() && name_less(names[i].as_str(), name.as_str())
        invariant
            i <= names@.len(),
            names@ == old(names)@,
            before == names@.map_values(|s: String| s@),
            increasing_names(before),
            forall|k: int| 0 <= k < i ==> chars_lt(#[trigger] before[k], name@),
        decreases names@.len() - i,
    {
        i = i + 1;
    }
    if i < names.len() && names[i] == *name {
        proof {
            assert(before[i as int] == name@);
            assert(before.to_set().insert(name@) =~= before.to_set());
        }
        return;
    }
    proof {
        if i < before.len() {
            lemma_chars_lt_total(before[i as int], name@);
        }
    }
    names.insert(i, name.clone());
    proof {
        let after = names@.map_values(|s: String| s@);
        assert(after =~= before.insert(i as int, name@));
        assert forall|a: int, b: int| 0 <= a < b < after.len() implies chars_lt(
            #[trigger] after[a],
            #[trigger] after[b],
        ) by {
            if b < i {
                assert(after[a] == before[a] && after[b] == before[b]);
            } else if a < i && b == i {
                assert(after[a] == before[a]);
            } else if a < i && b > i {
                assert(after[a] == before[a] && after[b] == before[b - 1]);
                assert(chars_lt(name@, before[i as int]));
                if b - 1 > i {
                    lemma_chars_lt_transitive(name@, before[i as int], before[b - 1]);
                }
                lemma_chars_lt_transitive(before[a], name@, before[b - 1]);
            } else if a == i {
                assert(after[b] == before[b - 1]);
                assert(chars_lt(name@, before[i as int]));
                if b - 1 > i {
                    lemma_chars_lt_transitive(name@, before[i as int], before[b - 1]);
                }
            } else {
                assert(after[a] == before[a - 1] && after[b] == before[b - 1]);
            }
        }
        assert(after.to_set() =~= before.to_set().insert(name@)) by {
            assert forall|x: Seq<char>| after.to_set().contains(x) implies before.to_set().insert(name@).contains(x) by {
                let k = choose|k: int| 0 <= k < after.len() && after[k] == x;
                if k < i {
                    assert(before[k] == x);
                } else if k > i {
                    assert(before[k - 1] == x);
                }
            }
            assert forall|x: Seq<char>| before.to_set().insert(name@).contains(x) implies after.to_set().contains(x) by {
                if x == name@ {
                    assert(after[i as int] == x);
                } else {
                    let k = choose|k: int| 0 <= k < before.len() && before[k] == x;
                    if k < i {
                        assert(after[k] == x);
                    } else {
                        assert(after[k + 1] == x);
                    }
                }
            }
        }
    }
}

/// Adds the names of the named types in a type to a strictly increasing
/// list of names.
fn collect_named_expr(expr: &TypeExpr, names: &mut Vec<String>)
    requires
        increasing_names(old(names)@.map_values(|s: String| s@)),
    ensures
        increasing_names(final(names)@.map_values(|s: String| s@)),
        final(names)@.map_values(|s: String| s@).to_set() == old(names)@.map_values(|s: String| s@).to_set()
            + names_in(type_model(*expr)),
    decreases expr,
{
    match expr {
        TypeExpr::Named(name) => {
            insert_name(names, name);
            proof {
                assert(old(names)@.map_values(|s: String| s@).to_set().insert(name@) =~= old(names)@.map_values(
                    |s: String| s@,
                ).to_set() + set![name@]);
            }
        },
        TypeExpr::Union(left, right) => {
            collect_named_expr(left, names);
            collect_named_expr(right, names);
            proof {
                assert(names@.map_values(|s: String| s@).to_set() =~= old(names)@.map_values(|s: String| s@).to_set()
                    + names_in(type_model(*expr)));
            }
        },
        _ => {
            proof {
                assert(old(names)@.map_values(|s: String| s@).to_set() + Set::<Seq<char>>::empty() =~= old(
                    names,
                )@.map_values(|s: String| s@).to_set());
            }
        },
    }
}

/// The types a variable may be assigned: `Bool`, `1`, `Int`, `Float`,
/// then the named types in name order.
pub open spec fn choices_for(names: Seq<Seq<char>>) -> Seq<TypeModel> {
    seq![TypeModel::Bool, TypeModel::Unit, TypeModel::Int, TypeModel::Float] + names.map_values(
        |n: Seq<char>| TypeModel::Named(n),
    )
}

/// Some choice of types for the variables from `idx` on, each among
/// `choices`, extends `base` to bindings under which the constraints hold
/// and every node is primitive.
pub open spec fn completable(
    vars: Seq<usize>,
    idx: int,
    base: Seq<(usize, TypeModel)>,
    choices: Seq<TypeModel>,
    cs: Seq<ConstraintModel>,
    nodes: Seq<TypeModel>,
) -> bool
    decreases vars.len() - idx, choices.len() + 1,
{
    if idx >= vars.len() {
        all_hold(cs, base) && all_primitive(nodes, base)
    } else {
        completable_with(vars, idx, base, choices, cs, nodes, choices.len())
    }
}

/// Binding the variable `idx` to one of the first `k` choices leads to a
/// completion.
pub open spec fn completable_with(
    vars: Seq<usize>,
    idx: int,
    base: Seq<(usize, TypeModel)>,
    choices: Seq<TypeModel>,
    cs: Seq<ConstraintModel>,
    nodes: Seq<TypeModel>,
    k: nat,
) -> bool
    decreases vars.len() - idx, k,
{
    if idx < 0 || idx >= vars.len() || k == 0 || k > choices.len() {
        false
    } else {
        completable_with(vars, idx, base, choices, cs, nodes, (k - 1) as nat) || completable(
            vars,
            idx + 1,
            base.push((vars[idx], choices[k - 1])),
            choices,
            cs,
            nodes,
        )
    }
}

/// The bindings that the search ends with from `base`: each variable from
/// `idx` on bound, in order, to the first choice from which the rest can
/// be completed.
pub open spec fn first_completion(
    vars: Seq<usize>,
    idx: int,
    base: Seq<(usize, TypeModel)>,
    choices: Seq<TypeModel>,
    cs: Seq<ConstraintModel>,
    nodes: Seq<TypeModel>,
) -> Seq<(usize, TypeModel)>
    decreases vars.len() - idx, choices.len() + 1,
{
    if idx >= vars.len() || idx < 0 {
        base
    } else {
        first_completion_from(vars, idx, base, choices, cs, nodes, 0)
    }
}

/// The bindings the search ends with when it tries the variable `idx` from
/// the choice `k` on.
pub open spec fn first_completion_from(
    vars: Seq<usize>,
    idx: int,
    base: Seq<(usize, TypeModel)>,
    choices: Seq<TypeModel>,
    cs: Seq<ConstraintModel>,
    nodes: Seq<TypeModel>,
    k: nat,
) -> Seq<(usize, TypeModel)>
    decreases vars.len() - idx, choices.len() - k,
{
    if idx < 0 || idx >= vars.len() || k >= choices.len() {
        base
    } else if completable(vars, idx + 1, base.push((vars[idx], choices[k as int])), choices, cs, nodes) {
        first_completion(vars, idx + 1, base.push((vars[idx], choices[k as int])), choices, cs, nodes)
    } else {
        first_completion_from(vars, idx, base, choices, cs, nodes, k + 1)
    }
}

proof fn lemma_completable_with_grows(
    vars: Seq<usize>,
    idx: int,
    base: Seq<(usize, TypeModel)>,
    choices: Seq<TypeModel>,
    cs: Seq<ConstraintModel>,
    nodes: Seq<TypeModel>,
    i: nat,
    k: nat,
)
    requires
        i <= k <= choices.len(),
        completable_with(vars, idx, base, choices, cs, nodes, i),
    ensures
        completable_with(vars, idx, base, choices, cs, nodes, k),
    decreases k,
{
    if i < k {
        lemma_completable_with_grows(vars, idx, base, choices, cs, nodes, i, (k - 1) as nat);
    }
}

/// Tries every choice for the variables from `idx` on, in order, keeping
/// the first full assignment under which the constraints hold and every
/// node is primitive.
fn backtrack_solve(
    vars: &Vec<usize>,
    idx: usize,
    assignment: &mut Vec<(usize, TypeExpr)>,
    constraints: &[TypeConstraint],
    nodes: &[TypeExpr],
    choices: &Vec<TypeExpr>,
) -> (r: bool)
    requires
        idx <= vars@.len(),
    ensures
        r ==> all_hold(constraints@.map_values(|c: TypeConstraint| c.deep_view()), bindings_view(final(assignment)@)),
        r ==> all_primitive(nodes@.map_values(|t: TypeExpr| type_model(t)), bindings_view(final(assignment)@)),
        !r ==> final(assignment)@ == old(assignment)@,
        r ==> bindings_view(final(assignment)@) == first_completion(
            vars@,
            idx as int,
            bindings_view(old(assignment)@),
            choices@.map_values(|t: TypeExpr| type_model(t)),
            constraints@.map_values(|c: TypeConstraint| c.deep_view()),
            nodes@.map_values(|t: TypeExpr| type_model(t)),
        ),
        r <==> completable(
            vars@,
            idx as int,
            bindings_view(old(assignment)@),
            choices@.map_values(|t: TypeExpr| type_model(t)),
            constraints@.map_values(|c: TypeConstraint| c.deep_view()),
            nodes@.map_values(|t: TypeExpr| type_model(t)),
        ),
    decreases vars@.len() - idx,
{
    let ghost ms = choices@.map_values(|t: TypeExpr| type_model(t));
    let ghost cs = constraints@.map_values(|c: TypeConstraint| c.deep_view());
    let ghost ns = nodes@.map_values(|t: TypeExpr| type_model(t));
    let ghost base = bindings_view(old(assignment)@);
    if idx == vars.len() {
        if !constraints_satisfied(constraints, assignment) {
            return false;
        }
        return primitives_ok(nodes, assignment);
    }
    let var = vars[idx];
    let _count = vars.len();
    let mut k: usize = 0;
    while k < choices.len()
        invariant
            k <= choices@.len(),
            idx < vars@.len(),
            vars@.len() <= usize::MAX,
            assignment@ == old(assignment)@,
            var == vars@[idx as int],
            base == bindings_view(old(assignment)@),
            ms == choices@.map_values(|t: TypeExpr| type_model(t)),
            cs == constraints@.map_values(|c: TypeConstraint| c.deep_view()),
            ns == nodes@.map_values(|t: TypeExpr| type_model(t)),
            !completable_with(vars@, idx as int, base, ms, cs, ns, k as nat),
            first_completion(vars@, idx as int, base, ms, cs, ns) == first_completion_from(
                vars@,
                idx as int,
                base,
                ms,
                cs,
                ns,
                k as nat,
            ),
            ms.len() == choices@.len(),
        decreases choices@.len() - k,
    {
        let c = choices[k].copy();
        proof {
            assert(bindings_view(assignment@.push((var, c))) =~= base.push((var, ms[k as int])));
        }
        assignment.push((var, c));
        let ghost mid = assignment@;
        let found = backtrack_solve(vars, idx + 1, assignment, constraints, nodes, choices);
        proof {
            assert(bindings_view(mid) == base.push((var, ms[k as int])));
            assert(found == completable(vars@, (idx + 1) as int, bindings_view(mid), ms, cs, ns));
        }
        if found {
            proof {
                assert(completable(vars@, idx + 1, base.push((vars@[idx as int], ms[k as int])), ms, cs, ns));
                assert(completable_with(vars@, idx as int, base, ms, cs, ns, (k + 1) as nat));
                lemma_completable_with_grows(vars@, idx as int, base, ms, cs, ns, (k + 1) as nat, ms.len());
                assert(first_completion_from(vars@, idx as int, base, ms, cs, ns, k as nat) == first_completion(
                    vars@,
                    idx + 1,
                    base.push((vars@[idx as int], ms[k as int])),
                    ms,
                    cs,
                    ns,
                ));
            }
            return true;
        }
        assignment.pop();
        proof {
            assert(assignment@ =~= old(assignment)@);
            assert(!completable_with(vars@, idx as int, base, ms, cs, ns, (k + 1) as nat));
            assert(first_completion_from(vars@, idx as int, base, ms, cs, ns, k as nat) == first_completion_from(
                vars@,
                idx as int,
                base,
                ms,
                cs,
                ns,
                (k + 1) as nat,
            ));
        }
        k = k + 1;
    }
    false
}

/// The type variables of a constraint.
pub open spec fn constraint_vars(c: ConstraintModel) -> Set<usize> {
    match c {
        ConstraintModel::Equal(l, r) => vars_of(l) + vars_of(r),
        ConstraintModel::Numeric(t) => vars_of(t),
        ConstraintModel::Iterable(t) => vars_of(t),
        ConstraintModel::Sequence(t) => vars_of(t),
        ConstraintModel::Mapping(k, v) => vars_of(k) + vars_of(v),
    }
}

/// The names of the named types of a constraint.
pub open spec fn constraint_names(c: ConstraintModel) -> Set<Seq<char>> {
    match c {
        ConstraintModel::Equal(l, r) => names_in(l) + names_in(r),
        ConstraintModel::Numeric(t) => names_in(t),
        ConstraintModel::Iterable(t) => names_in(t),
        ConstraintModel::Sequence(t) => names_in(t),
        ConstraintModel::Mapping(k, v) => names_in(k) + names_in(v),
    }
}

/// The type variables of the first `k` types.
pub open spec fn types_vars(ts: Seq<TypeModel>, k: nat) -> Set<usize>
    decreases k,
{
    if k == 0 || k > ts.len() {
        Set::empty()
    } else {
        types_vars(ts, (k - 1) as nat) + vars_of(ts[k - 1])
    }
}

/// The names of the named types of the first `k` types.
pub open spec fn types_names(ts: Seq<TypeModel>, k: nat) -> Set<Seq<char>>
    decreases k,
{
    if k == 0 || k > ts.len() {
        Set::empty()
    } else {
        types_names(ts, (k - 1) as nat) + names_in(ts[k - 1])
    }
}

/// The type variables of the first `k` constraints.
pub open spec fn constraints_vars(cs: Seq<ConstraintModel>, k: nat) -> Set<usize>
    decreases k,
{
    if k == 0 || k > cs.len() {
        Set::empty()
    } else {
        constraints_vars(cs, (k - 1) as nat) + constraint_vars(cs[k - 1])
    }
}

/// The names of the named types of the first `k` constraints.
pub open spec fn constraints_names(cs: Seq<ConstraintModel>, k: nat) -> Set<Seq<char>>
    decreases k,
{
    if k == 0 || k > cs.len() {
        Set::empty()
    } else {
        constraints_names(cs, (k - 1) as nat) + constraint_names(cs[k - 1])
    }
}

/// A strictly increasing list of numbers is the only one with its set.
proof fn lemma_increasing_unique(a: Seq<usize>, b: Seq<usize>)
    requires
        increasing(a),
        increasing(b),
        a.to_set() == b.to_set(),
    ensures
        a == b,
    decreases a.len(),
{
    if a.len() == 0 {
        if b.len() > 0 {
            assert(a.to_set().contains(b[0]));
        }
        assert(a =~= b);
    } else {
        assert(b.to_set().contains(a[0]));
        assert(b.len() > 0);
        assert(a.to_set().contains(b[0]));
        let k = choose|k: int| 0 <= k < b.len() && b[k] == a[0];
        let m = choose|m: int| 0 <= m < a.len() && a[m] == b[0];
        assert(a[0] == b[0]) by {
            if k > 0 {
                assert(b[0] < b[k]);
                if m > 0 {
                    assert(a[0] < a[m]);
                }
            }
        }
        assert(a.drop_first().to_set() =~= b.drop_first().to_set()) by {
            assert forall|x: usize| a.drop_first().to_set().contains(x) implies b.drop_first().to_set().contains(x) by {
                let i = choose|i: int| 0 <= i < a.drop_first().len() && a.drop_first()[i] == x;
                assert(a[i + 1] == x && a[0] < x);
                assert(b.to_set().contains(x));
                let j = choose|j: int| 0 <= j < b.len() && b[j] == x;
                assert(j != 0);
                assert(b.drop_first()[j - 1] == x);
            }
            assert forall|x: usize| b.drop_first().to_set().contains(x) implies a.drop_first().to_set().contains(x) by {
                let i = choose|i: int| 0 <= i < b.drop_first().len() && b.drop_first()[i] == x;
                assert(b[i + 1] == x && b[0] < x);
                assert(a.to_set().contains(x));
                let j = choose|j: int| 0 <= j < a.len() && a[j] == x;
                assert(j != 0);
                assert(a.drop_first()[j - 1] == x);
            }
        }
        lemma_increasing_unique(a.drop_first(), b.drop_first());
        assert(a =~= seq![a[0]] + a.drop_first());
        assert(b =~= seq![b[0]] + b.drop_first());
    }
}

/// A list of names in strictly increasing order is the only one with its
/// set.
proof fn lemma_increasing_names_unique(a: Seq<Seq<char>>, b: Seq<Seq<char>>)
    requires
        increasing_names(a),
        increasing_names(b),
        a.to_set() == b.to_set(),
    ensures
        a == b,
    decreases a.len(),
{
    if a.len() == 0 {
        if b.len() > 0 {
            assert(a.to_set().contains(b[0]));
        }
        assert(a =~= b);
    } else {
        assert(b.to_set().contains(a[0]));
        assert(a.to_set().contains(b[0]));
        let k = choose|k: int| 0 <= k < b.len() && b[k] == a[0];
        let m = choose|m: int| 0 <= m < a.len() && a[m] == b[0];
        assert(a[0] == b[0]) by {
            if k > 0 && m > 0 {
                assert(chars_lt(b[0], b[k]));
                assert(chars_lt(a[0], a[m]));
                lemma_chars_lt_total(a[0], b[0]);
            } else if k > 0 {
                assert(chars_lt(b[0], b[k]));
            } else if m > 0 {
                assert(chars_lt(a[0], a[m]));
            }
        }
        assert(a.drop_first().to_set() =~= b.drop_first().to_set()) by {
            assert forall|x: Seq<char>| a.drop_first().to_set().contains(x) implies b.drop_first().to_set().contains(x) by {
                let i = choose|i: int| 0 <= i < a.drop_first().len() && a.drop_first()[i] == x;
                assert(a[i + 1] == x && chars_lt(a[0], a[i + 1]));
                lemma_chars_lt_total(x, x);
                assert(b.to_set().contains(x));
                let j = choose|j: int| 0 <= j < b.len() && b[j] == x;
                assert(j != 0);
                assert(b.drop_first()[j - 1] == x);
            }
            assert forall|x: Seq<char>| b.drop_first().to_set().contains(x) implies a.drop_first().to_set().contains(x) by {
                let i = choose|i: int| 0 <= i < b.drop_first().len() && b.drop_first()[i] == x;
                assert(b[i + 1] == x && chars_lt(b[0], b[i + 1]));
                lemma_chars_lt_total(x, x);
                assert(a.to_set().contains(x));
                let j = choose|j: int| 0 <= j < a.len() && a[j] == x;
                assert(j != 0);
                assert(a.drop_first()[j - 1] == x);
            }
        }
        assert(increasing_names(a.drop_first())) by {
            assert forall|i: int, j: int| 0 <= i < j < a.drop_first().len() implies chars_lt(
                #[trigger] a.drop_first()[i],
                #[trigger] a.drop_first()[j],
            ) by {
                assert(chars_lt(a[i + 1], a[j + 1]));
            }
        }
        assert(increasing_names(b.drop_first())) by {
            assert forall|i: int, j: int| 0 <= i < j < b.drop_first().len() implies chars_lt(
                #[trigger] b.drop_first()[i],
                #[trigger] b.drop_first()[j],
            ) by {
                assert(chars_lt(b[i + 1], b[j + 1]));
            }
        }
        lemma_increasing_names_unique(a.drop_first(), b.drop_first());
        assert(a =~= seq![a[0]] + a.drop_first());
        assert(b =~= seq![b[0]] + b.drop_first());
    }
}

/// Some binding of the type variables of the nodes and constraints, in
/// increasing order, each to `Bool`, `1`, `Int`, `Float` or one of the
/// named types that occur (`choices_for` over the names in increasing
/// order), makes every constraint hold and every node primitive.
pub open spec fn solvable(nodes: Seq<TypeModel>, cs: Seq<ConstraintModel>) -> bool {
    exists|vs: Seq<usize>, ns: Seq<Seq<char>>|
        {
            &&& increasing(vs)
            &&& vs.to_set() == types_vars(nodes, nodes.len()) + constraints_vars(cs, cs.len())
            &&& increasing_names(ns)
            &&& ns.to_set() == types_names(nodes, nodes.len()) + constraints_names(cs, cs.len())
            &&& completable(vs, 0, Seq::empty(), choices_for(ns), cs, nodes)
        }
}

/// `b` is the first solution: with the variables of the nodes and
/// constraints in increasing order and the candidate types in the order of
/// `choices_for` their names, each variable in turn takes the first type
/// from which the rest can still be completed.
pub open spec fn first_solution(nodes: Seq<TypeModel>, cs: Seq<ConstraintModel>, b: Seq<(usize, TypeModel)>) -> bool {
    exists|vs: Seq<usize>, ns: Seq<Seq<char>>|
        #![trigger first_completion(vs, 0, Seq::<(usize, TypeModel)>::empty(), choices_for(ns), cs, nodes)]
        {
            &&& increasing(vs)
            &&& vs.to_set() == types_vars(nodes, nodes.len()) + constraints_vars(cs, cs.len())
            &&& increasing_names(ns)
            &&& ns.to_set() == types_names(nodes, nodes.len()) + constraints_names(cs, cs.len())
            &&& b == first_completion(vs, 0, Seq::<(usize, TypeModel)>::empty(), choices_for(ns), cs, nodes)
        }
}

/// Finds types for the type variables of the nodes and constraints, drawn
/// from the primitive types and the named types that occur, under which
/// every constraint holds and every node is primitive; variables are tried
/// in increasing order and types in the order of `choices_for`.
pub fn solve_type_equations(nodes: &[TypeExpr], constraints: &[TypeConstraint]) -> (r: Result<
    TypeSubstitution,
    SolveError,
>)
    ensures
        match r {
            Ok(s) => all_hold(constraints@.map_values(|c: TypeConstraint| c.deep_view()), s.bindings())
                && all_primitive(nodes@.map_values(|t: TypeExpr| type_model(t)), s.bindings()),
            Err(e) => e is NoSolution,
        },
        r is Ok <==> solvable(
            nodes@.map_values(|t: TypeExpr| type_model(t)),
            constraints@.map_values(|c: TypeConstraint| c.deep_view()),
        ),
        r matches Ok(s) ==> first_solution(
            nodes@.map_values(|t: TypeExpr| type_model(t)),
            constraints@.map_values(|c: TypeConstraint| c.deep_view()),
            s.bindings(),
        ),
{
    let ghost ns = nodes@.map_values(|t: TypeExpr| type_model(t));
    let ghost cs = constraints@.map_values(|c: TypeConstraint| c.deep_view());
    let mut vars: Vec<usize> = Vec::new();
    let mut named: Vec<String> = Vec::new();
    let mut i: usize = 0;
    proof {
        assert(vars@.to_set() =~= Set::<usize>::empty());
        assert(named@.map_values(|s: String| s@).to_set() =~= Set::<Seq<char>>::empty());
    }
    while i < nodes.len()
        invariant
            i <= nodes@.len(),
            ns == nodes@.map_values(|t: TypeExpr| type_model(t)),
            increasing(vars@),
            increasing_names(named@.map_values(|s: String| s@)),
            vars@.to_set() == types_vars(ns, i as nat),
            named@.map_values(|s: String| s@).to_set() == types_names(ns, i as nat),
        decreases nodes@.len() - i,
    {
        collect_vars_expr(&nodes[i], &mut vars);
        collect_named_expr(&nodes[i], &mut named);
        proof {
            assert(ns[i as int] == type_model(nodes@[i as int]));
        }
        i = i + 1;
    }
    let mut j: usize = 0;
    while j < constraints.len()
        invariant
            j <= constraints@.len(),
            i == nodes@.len(),
            ns == nodes@.map_values(|t: TypeExpr| type_model(t)),
            cs == constraints@.map_values(|c: TypeConstraint| c.deep_view()),
            increasing(vars@),
            increasing_names(named@.map_values(|s: String| s@)),
            vars@.to_set() == types_vars(ns, ns.len()) + constraints_vars(cs, j as nat),
            named@.map_values(|s: String| s@).to_set() == types_names(ns, ns.len()) + constraints_names(cs, j as nat),
        decreases constraints@.len() - j,
    {
        let ghost vb = vars@.to_set();
        let ghost nb = named@.map_values(|s: String| s@).to_set();
        match &constraints[j] {
            TypeConstraint::Equal(lhs, rhs) => {
                collect_vars_expr(lhs, &mut vars);
                collect_vars_expr(rhs, &mut vars);
                collect_named_expr(lhs, &mut named);
                collect_named_expr(rhs, &mut named);
            },
            TypeConstraint::Numeric(t) | TypeConstraint::Iterable(t) | TypeConstraint::Sequence(t) => {
                collect_vars_expr(t, &mut vars);
                collect_named_expr(t, &mut named);
            },
            TypeConstraint::Mapping(key, value) => {
                collect_vars_expr(key, &mut vars);
                collect_vars_expr(value, &mut vars);
                collect_named_expr(key, &mut named);
                collect_named_expr(value, &mut named);
            },
        }
        proof {
            assert(cs[j as int] == constraints@[j as int].deep_view());
            assert(vars@.to_set() =~= vb + constraint_vars(cs[j as int]));
            assert(named@.map_values(|s: String| s@).to_set() =~= nb + constraint_names(cs[j as int]));
            assert(types_vars(ns, ns.len()) + constraints_vars(cs, (j + 1) as nat) =~= types_vars(ns, ns.len())
                + constraints_vars(cs, j as nat) + constraint_vars(cs[j as int]));
            assert(types_names(ns, ns.len()) + constraints_names(cs, (j + 1) as nat) =~= types_names(ns, ns.len())
                + constraints_names(cs, j as nat) + constraint_names(cs[j as int]));
        }
        j = j + 1;
    }
    let mut choices: Vec<TypeExpr> = Vec::new();
    choices.push(TypeExpr::Bool);
    choices.push(TypeExpr::Unit);
    choices.push(TypeExpr::Int);
    choices.push(TypeExpr::Float);
    let mut n: usize = 0;
    let ghost nv = named@.map_values(|s: String| s@);
    proof {
        assert(choices@.map_values(|t: TypeExpr| type_model(t)) =~= choices_for(nv.subrange(0, 0)));
    }
    while n < named.len()
        invariant
            n <= named@.len(),
            nv == named@.map_values(|s: String| s@),
            choices@.map_values(|t: TypeExpr| type_model(t)) == choices_for(nv.subrange(0, n as int)),
        decreases named@.len() - n,
    {
        let ghost before = choices@;
        let name = named[n].clone();
        choices.push(TypeExpr::Named(name));
        proof {
            assert(choices@.map_values(|t: TypeExpr| type_model(t)) =~= before.map_values(|t: TypeExpr| type_model(t)).push(
                TypeModel::Named(nv[n as int]),
            ));
            assert(choices_for(nv.subrange(0, n + 1)) =~= choices_for(nv.subrange(0, n as int)).push(
                TypeModel::Named(nv[n as int]),
            ));
        }
        n = n + 1;
    }
    proof {
        assert(nv.subrange(0, nv.len() as int) =~= nv);
    }
    let mut assignment: Vec<(usize, TypeExpr)> = Vec::new();
    proof {
        assert(bindings_view(assignment@) =~= Seq::<(usize, TypeModel)>::empty());
    }
    if backtrack_solve(&vars, 0, &mut assignment, constraints, nodes, &choices) {
        let r = TypeSubstitution { mapping: assignment };
        proof {
            assert(completable(vars@, 0, Seq::empty(), choices_for(nv), cs, ns));
            assert(r.bindings() == first_completion(
                vars@,
                0,
                Seq::<(usize, TypeModel)>::empty(),
                choices_for(nv),
                cs,
                ns,
            ));
        }
        Ok(r)
    } else {
        proof {
            assert forall|vs: Seq<usize>, names: Seq<Seq<char>>|
                increasing(vs) && vs.to_set() == types_vars(ns, ns.len()) + constraints_vars(cs, cs.len())
                    && increasing_names(names) && names.to_set() == types_names(ns, ns.len()) + constraints_names(
                    cs,
                    cs.len(),
                ) implies !completable(vs, 0, Seq::empty(), choices_for(names), cs, ns) by {
                lemma_increasing_unique(vs, vars@);
                lemma_increasing_names_unique(names, nv);
            }
        }
        Err(SolveError::NoSolution)
    }
}

/// The types of a drawing's nodes.
pub open spec fn node_types<A>(g: LaxGraphModel<TypeExpr, A>) -> Seq<TypeModel> {
    g.nodes.map_values(|t: TypeExpr| type_model(t))
}

/// One equation per identified pair of nodes: their types are equal.
pub open spec fn quotient_equations<A>(g: LaxGraphModel<TypeExpr, A>) -> Seq<ConstraintModel> {
    g.quotient.map_values(
        |p: (usize, usize)| ConstraintModel::Equal(type_model(g.nodes[p.0 as int]), type_model(g.nodes[p.1 as int])),
    )
}

/// Types for the type variables of a drawing over types, drawn from the
/// primitive types and the named types of its nodes, under which every
/// pair of identified nodes gets equal types and every node a primitive
/// one; the first such types, as `solve_type_equations` finds them.
pub fn solve_hypergraph_types<A>(graph: &LaxGraph<TypeExpr, A>) -> (r: Result<TypeSubstitution, SolveError>)
    requires
        graph@.wf(),
    ensures
        r is Ok <==> solvable(node_types(graph@), quotient_equations(graph@)),
        r matches Ok(s) ==> {
            &&& all_hold(quotient_equations(graph@), s.bindings())
            &&& all_primitive(node_types(graph@), s.bindings())
            &&& first_solution(node_types(graph@), quotient_equations(graph@), s.bindings())
        },
        r matches Err(e) ==> e is NoSolution,
{
    let mut equations: Vec<TypeConstraint> = Vec::new();
    let mut k: usize = 0;
    while k < graph.quotient.len()
        invariant
            k <= graph.quotient@.len(),
            graph@.wf(),
            equations@.map_values(|c: TypeConstraint| c.deep_view()) =~= quotient_equations(graph@).take(k as int),
        decreases graph.quotient@.len() - k,
    {
        let (a, b) = graph.quotient[k];
        proof {
            assert(graph@.quotient[k as int].0 < graph@.nodes.len());
        }
        let ghost before = equations@.map_values(|c: TypeConstraint| c.deep_view());
        equations.push(TypeConstraint::Equal(graph.nodes[a].copy(), graph.nodes[b].copy()));
        proof {
            assert(equations@.map_values(|c: TypeConstraint| c.deep_view()) =~= before.push(
                quotient_equations(graph@)[k as int],
            ));
            assert(quotient_equations(graph@).take(k + 1) =~= quotient_equations(graph@).take(k as int).push(
                quotient_equations(graph@)[k as int],
            ));
        }
        k = k + 1;
    }
    proof {
        assert(quotient_equations(graph@).take(graph.quotient@.len() as int) =~= quotient_equations(graph@));
        assert(graph.nodes@.map_values(|t: TypeExpr| type_model(t)) == node_types(graph@));
    }
    solve_type_equations(graph.nodes.as_slice(), equations.as_slice())
}

/// The drawing with the substitution applied to the type of every node.
pub fn apply_substitution<A>(graph: LaxGraph<TypeExpr, A>, subst: &TypeSubstitution) -> (r: LaxGraph<TypeExpr, A>)
    ensures
        r@.nodes.len() == graph@.nodes.len(),
        forall|i: int|
            0 <= i < r@.nodes.len() ==> type_model(#[trigger] r@.nodes[i]) == substituted(
                type_model(graph@.nodes[i]),
                subst.bindings(),
            ),
        r@.edges == graph@.edges,
        r@.adjacency == graph@.adjacency,
        r@.quotient == graph@.quotient,
        r@.sources == graph@.sources,
        r@.targets == graph@.targets,
{
    let LaxGraph { nodes, edges, adjacency, quotient, sources, targets } = graph;
    let mut new_nodes: Vec<TypeExpr> = Vec::new();
    let mut i: usize = 0;
    while i < nodes.len()
        invariant
            i <= nodes@.len(),
            new_nodes@.len() == i,
            forall|j: int|
                0 <= j < i ==> type_model(#[trigger] new_nodes@[j]) == substituted(type_model(nodes@[j]), subst.bindings()),
        decreases nodes@.len() - i,
    {
        new_nodes.push(subst.apply(&nodes[i]));
        i = i + 1;
    }
    LaxGraph { nodes: new_nodes, edges, adjacency, quotient, sources, targets }
}

} // verus!
