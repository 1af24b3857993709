//! Rewrite rules on hypergraphs of monomial tapes: a change of tensor
//! followed by its inverse, and an additive split followed by a merge, are
//! each the identity on a monomial context.

use vstd::prelude::*;

use super::strict_graph::{
    compose_graphs, finite_function, identity_graph, labels_at, node_labels, nodes_match, singleton_graph,
    source_labels, spider_graph, target_labels, tensor_graphs, MonomialGraph,
};
use crate::label::Label;
use crate::tape_language::builders::monomial_atoms;
use crate::tape_language::monomial_tape::{node_eq, MonomialHyperNode, MonomialTapeEdge, TensorKind};
use crate::tape_language::{monomial_equals, monomial_view, monomial_views, Monomial};

verus! {

/// A rewrite rule of the Frobenius kind: a left and a right side with the
/// same boundary labels.
#[verifier::reject_recursive_types(S)]
#[verifier::reject_recursive_types(G)]
pub struct MonomialFrobeniusRewriteRule<S, G> {
    pub lhs: MonomialGraph<S, G>,
    pub rhs: MonomialGraph<S, G>,
}

/// The nodes of the atoms of `context`, left to right, each in the tensor
/// `kind`.
pub fn object_labels<S: Label>(context: &Monomial<S>, kind: TensorKind) -> (r: Vec<MonomialHyperNode<S>>)
    ensures
        r@.len() == monomial_view(*context).sorts().len(),
        forall|i: int|
            0 <= i < r@.len() ==> (#[trigger] r@[i]).tensor_kind == kind && monomial_view(r@[i].context)
                == Monomial::Atom(monomial_view(*context).sorts()[i]),
{
    let atoms = monomial_atoms(context);
    let ghost vs = monomial_view(*context).sorts();
    proof {
        assert(monomial_views(atoms@).len() == atoms@.len());
        assert(vs.map_values(|s: S::V| Monomial::Atom(s)).len() == vs.len());
    }
    let mut out: Vec<MonomialHyperNode<S>> = Vec::new();
    let mut i: usize = 0;
    while i < atoms.len()
        invariant
            i <= atoms@.len(),
            monomial_views(atoms@) == vs.map_values(|s: S::V| Monomial::Atom(s)),
            atoms@.len() == vs.len(),
            out@.len() == i,
            forall|k: int|
                0 <= k < i ==> (#[trigger] out@[k]).tensor_kind == kind && monomial_view(out@[k].context)
                    == Monomial::Atom(vs[k]),
        decreases atoms@.len() - i,
    {
        let atom = atoms[i].duplicate();
        proof {
            assert(monomial_views(atoms@)[i as int] == monomial_view(atoms@[i as int]));
            assert(vs.map_values(|s: S::V| Monomial::Atom(s))[i as int] == Monomial::Atom(vs[i as int]));
        }
        out.push(MonomialHyperNode::new(kind, atom));
        i = i + 1;
    }
    out
}

/// The points `0, 1, .., width - 1`.
fn identity_table(width: usize) -> (r: Vec<usize>)
    ensures
        r@.len() == width,
        forall|i: int| 0 <= i < width ==> r@[i] == i,
{
    let mut out: Vec<usize> = Vec::new();
    let mut i: usize = 0;
    while i < width
        invariant
            i <= width,
            out@.len() == i,
            forall|k: int| 0 <= k < i ==> out@[k] == k,
        decreases width - i,
    {
        out.push(i);
        i = i + 1;
    }
    out
}

/// Each of the points `0, .., width - 1` twice in a row: `0, 0, 1, 1, ..`.
fn doubled_table(width: usize) -> (r: Vec<usize>)
    ensures
        r@.len() == 2 * width,
        forall|i: int| 0 <= i < 2 * width ==> #[trigger] r@[i] == i / 2,
{
    let mut out: Vec<usize> = Vec::new();
    let mut i: usize = 0;
    while i < width
        invariant
            i <= width,
            out@.len() == 2 * i,
            forall|k: int| 0 <= k < 2 * i ==> #[trigger] out@[k] == k / 2,
        decreases width - i,
    {
        out.push(i);
        out.push(i);
        i = i + 1;
    }
    out
}

/// The nodes are, one by one, the atoms of `ctx` in the tensor `kind`
/// (compared by their sorts).
pub open spec fn atom_nodes<S: DeepView>(nodes: Seq<MonomialHyperNode<S>>, kind: TensorKind, ctx: Monomial<S::V>) -> bool {
    &&& nodes.len() == ctx.sorts().len()
    &&& forall|i: int|
        0 <= i < nodes.len() ==> (#[trigger] nodes[i]).tensor_kind == kind && monomial_view(nodes[i].context).sorts()
            == seq![ctx.sorts()[i]]
}

/// The nodes are the atoms of `ctx` in the tensor `kind`, each twice in a
/// row.
pub open spec fn doubled_atom_nodes<S: DeepView>(
    nodes: Seq<MonomialHyperNode<S>>,
    kind: TensorKind,
    ctx: Monomial<S::V>,
) -> bool {
    &&& nodes.len() == 2 * ctx.sorts().len()
    &&& forall|i: int|
        0 <= i < nodes.len() ==> (#[trigger] nodes[i]).tensor_kind == kind && monomial_view(nodes[i].context).sorts()
            == seq![ctx.sorts()[i / 2]]
}

/// Nodes equal one by one to atom nodes are atom nodes.
proof fn lemma_match_atom_nodes<S: DeepView>(
    a: Seq<MonomialHyperNode<S>>,
    b: Seq<MonomialHyperNode<S>>,
    kind: TensorKind,
    ctx: Monomial<S::V>,
)
    requires
        nodes_match(a, b),
        atom_nodes(b, kind, ctx),
    ensures
        atom_nodes(a, kind, ctx),
{
    assert forall|i: int| 0 <= i < a.len() implies (#[trigger] a[i]).tensor_kind == kind && monomial_view(
        a[i].context,
    ).sorts() == seq![ctx.sorts()[i]] by {
        assert(node_eq(a[i], b[i]));
    }
}

/// Two lists of atom nodes of the same context and tensor match.
proof fn lemma_atom_nodes_match<S: DeepView>(
    a: Seq<MonomialHyperNode<S>>,
    b: Seq<MonomialHyperNode<S>>,
    kind: TensorKind,
    ctx: Monomial<S::V>,
)
    requires
        atom_nodes(a, kind, ctx),
        atom_nodes(b, kind, ctx),
    ensures
        nodes_match(a, b),
{
    assert forall|i: int| 0 <= i < a.len() implies node_eq(#[trigger] a[i], b[i]) by {
        assert(a[i].tensor_kind == kind && b[i].tensor_kind == kind);
    }
}

/// The rule's two sides both have, as sources and as targets, the atoms of
/// `ctx` in the tensor `kind`: a rule that rewrites a graph on that
/// boundary into the identity on it.
pub open spec fn identity_rule_on<S: DeepView, G>(
    rule: MonomialFrobeniusRewriteRule<S, G>,
    kind: TensorKind,
    ctx: Monomial<S::V>,
) -> bool {
    &&& atom_nodes(rule.lhs.source_view(), kind, ctx)
    &&& atom_nodes(rule.lhs.target_view(), kind, ctx)
    &&& atom_nodes(rule.rhs.source_view(), kind, ctx)
    &&& atom_nodes(rule.rhs.target_view(), kind, ctx)
}

/// Side by side, one graph for each atom of `context`: an edge that changes
/// the atom's node from the tensor `from` to the tensor `to`.
fn conversion_graph<S: Label, G: Label>(context: &Monomial<S>, from: TensorKind, to: TensorKind) -> (r:
    MonomialGraph<S, G>)
    ensures
        atom_nodes(r.source_view(), from, monomial_view(*context)),
        atom_nodes(r.target_view(), to, monomial_view(*context)),
{
    let atoms = monomial_atoms(context);
    let ghost vs = monomial_view(*context).sorts();
    proof {
        assert(monomial_views(atoms@).len() == atoms@.len());
        assert(vs.map_values(|s: S::V| Monomial::Atom(s)).len() == vs.len());
    }
    let mut graph: MonomialGraph<S, G> = identity_graph(Vec::new());
    let mut i: usize = 0;
    while i < atoms.len()
        invariant
            i <= atoms@.len(),
            atoms@.len() == vs.len(),
            vs == monomial_view(*context).sorts(),
            monomial_views(atoms@) == vs.map_values(|s: S::V| Monomial::Atom(s)),
            graph.source_view().len() == i,
            graph.target_view().len() == i,
            forall|k: int|
                0 <= k < i ==> (#[trigger] graph.source_view()[k]).tensor_kind == from && monomial_view(
                    graph.source_view()[k].context,
                ).sorts() == seq![vs[k]],
            forall|k: int|
                0 <= k < i ==> (#[trigger] graph.target_view()[k]).tensor_kind == to && monomial_view(
                    graph.target_view()[k].context,
                ).sorts() == seq![vs[k]],
        decreases atoms@.len() - i,
    {
        proof {
            assert(monomial_views(atoms@)[i as int] == monomial_view(atoms@[i as int]));
            assert(vs.map_values(|s: S::V| Monomial::Atom(s))[i as int] == Monomial::Atom(vs[i as int]));
        }
        let edge = match from {
            TensorKind::Additive => MonomialTapeEdge::FromAddToMul(atoms[i].duplicate()),
            TensorKind::Multiplicative => MonomialTapeEdge::FromMulToAdd(atoms[i].duplicate()),
        };
        let single = singleton_graph(
            edge,
            vec![MonomialHyperNode::new(from, atoms[i].duplicate())],
            vec![MonomialHyperNode::new(to, atoms[i].duplicate())],
        );
        let ghost before = graph;
        graph = if i == 0 {
            single
        } else {
            tensor_graphs(&graph, &single)
        };
        proof {
            assert forall|k: int| 0 <= k < i + 1 implies (#[trigger] graph.source_view()[k]).tensor_kind == from
                && monomial_view(graph.source_view()[k].context).sorts() == seq![vs[k]] by {
                if k < i {
                    assert(graph.source_view()[k] == before.source_view()[k]);
                } else {
                    assert(graph.source_view()[k] == single.source_view()[0]);
                }
            }
            assert forall|k: int| 0 <= k < i + 1 implies (#[trigger] graph.target_view()[k]).tensor_kind == to
                && monomial_view(graph.target_view()[k].context).sorts() == seq![vs[k]] by {
                if k < i {
                    assert(graph.target_view()[k] == before.target_view()[k]);
                } else {
                    assert(graph.target_view()[k] == single.target_view()[0]);
                }
            }
        }
        i = i + 1;
    }
    graph
}

/// The additive split (`copy == true`) or merge of the atoms of `context`:
/// an edgeless graph whose one leg meets each node once and whose other leg
/// meets each node twice in a row.
fn additive_spider<S: Label, G: Label>(context: &Monomial<S>, copy: bool) -> (r: Option<MonomialGraph<S, G>>)
    ensures
        r matches Some(g) && (copy ==> atom_nodes(g.source_view(), TensorKind::Additive, monomial_view(*context))
            && doubled_atom_nodes(g.target_view(), TensorKind::Additive, monomial_view(*context))) && (!copy
            ==> doubled_atom_nodes(g.source_view(), TensorKind::Additive, monomial_view(*context)) && atom_nodes(
            g.target_view(),
            TensorKind::Additive,
            monomial_view(*context),
        )),
{
    let object = object_labels(context, TensorKind::Additive);
    let width = object.len();
    let ids = identity_table(width);
    let doubled = doubled_table(width);
    let ghost (ot, dt, ov) = (ids@, doubled@, object@);
    proof {
        assert forall|i: int| 0 <= i < doubled@.len() implies doubled@[i] < width by {
            assert(doubled@[i] == i / 2);
        }
    }
    let once = finite_function(ids, width);
    let twice = finite_function(doubled, width);
    let ghost ctx = monomial_view(*context);
    proof {
        assert(labels_at(ot, ov) =~= ov);
        assert forall|i: int| 0 <= i < labels_at(dt, ov).len() implies (#[trigger] labels_at(dt, ov)[i]).tensor_kind
            == TensorKind::Additive && monomial_view(labels_at(dt, ov)[i].context).sorts() == seq![ctx.sorts()[i / 2]] by {
            assert(dt[i] == i / 2);
            assert(labels_at(dt, ov)[i] == ov[i / 2]);
        }
        assert forall|i: int| 0 <= i < ov.len() implies (#[trigger] ov[i]).tensor_kind == TensorKind::Additive
            && monomial_view(ov[i].context).sorts() == seq![ctx.sorts()[i]] by {
            assert(monomial_view(ov[i].context) == Monomial::Atom(ctx.sorts()[i]));
        }
    }
    match (once, twice) {
        (Some(once), Some(twice)) => if copy {
            spider_graph(once, twice, object)
        } else {
            spider_graph(twice, once, object)
        },
        _ => {
            proof {
                assert(false);
            }
            None
        },
    }
}

/// Whether two lists of nodes are equal, node by node.
pub fn nodes_equal<S: Label>(a: &Vec<MonomialHyperNode<S>>, b: &Vec<MonomialHyperNode<S>>) -> (r: bool)
    ensures
        r <==> (a@.len() == b@.len() && forall|i: int| 0 <= i < a@.len() ==> node_eq(#[trigger] a@[i], b@[i])),
{
    if a.len() != b.len() {
        return false;
    }
    let mut i: usize = 0;
    while i < a.len()
        invariant
            i <= a@.len(),
            a@.len() == b@.len(),
            forall|k: int| 0 <= k < i ==> node_eq(#[trigger] a@[k], b@[k]),
        decreases a@.len() - i,
    {
        if !(a[i] == b[i]) {
            return false;
        }
        i = i + 1;
    }
    true
}

/// Copies of two lists of labels are equal one by one exactly when the
/// lists are.
proof fn lemma_equal_labels<S: DeepView>(
    a: Seq<MonomialHyperNode<S>>,
    b: Seq<MonomialHyperNode<S>>,
    x: Seq<MonomialHyperNode<S>>,
    y: Seq<MonomialHyperNode<S>>,
)
    requires
        nodes_match(a, x),
        nodes_match(b, y),
    ensures
        (a.len() == b.len() && forall|i: int| 0 <= i < a.len() ==> node_eq(#[trigger] a[i], b[i])) <==> nodes_match(x, y),
{
    if a.len() == b.len() && forall|i: int| 0 <= i < a.len() ==> node_eq(#[trigger] a[i], b[i]) {
        assert forall|i: int| 0 <= i < x.len() implies node_eq(#[trigger] x[i], y[i]) by {
            assert(node_eq(a[i], x[i]));
            assert(node_eq(b[i], y[i]));
            assert(node_eq(a[i], b[i]));
        }
    }
    if nodes_match(x, y) {
        assert forall|i: int| 0 <= i < a.len() implies node_eq(#[trigger] a[i], b[i]) by {
            assert(node_eq(a[i], x[i]));
            assert(node_eq(b[i], y[i]));
            assert(node_eq(x[i], y[i]));
        }
    }
}

/// A rule from two sides whose source labels and target labels are equal,
/// `None` otherwise.
fn rule_from_sides<S: Label, G: Label>(lhs: MonomialGraph<S, G>, rhs: MonomialGraph<S, G>) -> (r: Option<
    MonomialFrobeniusRewriteRule<S, G>,
>)
    ensures
        r matches Some(rule) ==> rule.lhs == lhs && rule.rhs == rhs,
        r is Some <==> nodes_match(lhs.source_view(), rhs.source_view()) && nodes_match(
            lhs.target_view(),
            rhs.target_view(),
        ),
{
    let ghost (ls, rs, lt, rt) = (lhs.source_view(), rhs.source_view(), lhs.target_view(), rhs.target_view());
    let a = source_labels(&lhs);
    let b = source_labels(&rhs);
    let same_sources = nodes_equal(&a, &b);
    proof {
        lemma_equal_labels(a@, b@, ls, rs);
    }
    let c = target_labels(&lhs);
    let d = target_labels(&rhs);
    let same_targets = nodes_equal(&c, &d);
    proof {
        lemma_equal_labels(c@, d@, lt, rt);
    }
    if same_sources && same_targets {
        Some(MonomialFrobeniusRewriteRule { lhs, rhs })
    } else {
        None
    }
}

/// The rule `there` then `back`, both conversions of the atoms of
/// `context`, rewritten into the identity on the atoms in the tensor
/// `kind`.
fn conversion_round_trip<S: Label, G: Label>(context: &Monomial<S>, kind: TensorKind, other: TensorKind) -> (r: Option<
    MonomialFrobeniusRewriteRule<S, G>,
>)
    ensures
        r matches Some(rule) && identity_rule_on(rule, kind, monomial_view(*context)),
{
    let ghost ctx = monomial_view(*context);
    let there = conversion_graph(context, kind, other);
    let back = conversion_graph(context, other, kind);
    proof {
        lemma_atom_nodes_match(there.target_view(), back.source_view(), other, ctx);
    }
    match compose_graphs(&there, &back) {
        Some(lhs) => {
            let object = object_labels(context, kind);
            proof {
                lemma_match_atom_nodes(lhs.source_view(), there.source_view(), kind, ctx);
                lemma_match_atom_nodes(lhs.target_view(), back.target_view(), kind, ctx);
                assert forall|i: int| 0 <= i < object@.len() implies (#[trigger] object@[i]).tensor_kind == kind
                    && monomial_view(object@[i].context).sorts() == seq![ctx.sorts()[i]] by {
                    assert(monomial_view(object@[i].context) == Monomial::Atom(ctx.sorts()[i]));
                }
            }
            let rhs = identity_graph(object);
            proof {
                lemma_atom_nodes_match(lhs.source_view(), rhs.source_view(), kind, ctx);
                lemma_atom_nodes_match(lhs.target_view(), rhs.target_view(), kind, ctx);
            }
            rule_from_sides(lhs, rhs)
        },
        None => None,
    }
}

/// Changing every atom of `context` from the additive to the multiplicative
/// tensor and back is the additive identity on `context`.
pub fn from_add_to_mul_then_from_mul_to_add_rule<S: Label, G: Label>(context: &Monomial<S>) -> (r: Option<
    MonomialFrobeniusRewriteRule<S, G>,
>)
    ensures
        r matches Some(rule) && identity_rule_on(rule, TensorKind::Additive, monomial_view(*context)),
{
    conversion_round_trip(context, TensorKind::Additive, TensorKind::Multiplicative)
}

/// Changing every atom of `context` from the multiplicative to the additive
/// tensor and back is the multiplicative identity on `context`.
pub fn from_mul_to_add_then_from_add_to_mul_rule<S: Label, G: Label>(context: &Monomial<S>) -> (r: Option<
    MonomialFrobeniusRewriteRule<S, G>,
>)
    ensures
        r matches Some(rule) && identity_rule_on(rule, TensorKind::Multiplicative, monomial_view(*context)),
{
    conversion_round_trip(context, TensorKind::Multiplicative, TensorKind::Additive)
}

/// An additive split of `context` followed by a merge is the additive
/// identity on `context`.
pub fn additive_split_then_merge_rule<S: Label, G: Label>(context: &Monomial<S>) -> (r: Option<
    MonomialFrobeniusRewriteRule<S, G>,
>)
    ensures
        r matches Some(rule) && identity_rule_on(rule, TensorKind::Additive, monomial_view(*context)),
{
    let ghost ctx = monomial_view(*context);
    let split = additive_spider(context, true);
    let merge = additive_spider(context, false);
    match (split, merge) {
        (Some(split), Some(merge)) => {
            proof {
                assert forall|i: int| 0 <= i < split.target_view().len() implies node_eq(
                    #[trigger] split.target_view()[i],
                    merge.source_view()[i],
                ) by {
                    assert(split.target_view()[i].tensor_kind == TensorKind::Additive);
                    assert(merge.source_view()[i].tensor_kind == TensorKind::Additive);
                }
            }
            match compose_graphs(&split, &merge) {
                Some(lhs) => {
                    let object = object_labels(context, TensorKind::Additive);
                    proof {
                        lemma_match_atom_nodes(lhs.source_view(), split.source_view(), TensorKind::Additive, ctx);
                        lemma_match_atom_nodes(lhs.target_view(), merge.target_view(), TensorKind::Additive, ctx);
                        assert forall|i: int| 0 <= i < object@.len() implies (#[trigger] object@[i]).tensor_kind
                            == TensorKind::Additive && monomial_view(object@[i].context).sorts() == seq![ctx.sorts()[i]] by {
                            assert(monomial_view(object@[i].context) == Monomial::Atom(ctx.sorts()[i]));
                        }
                    }
                    let rhs = identity_graph(object);
                    proof {
                        lemma_atom_nodes_match(lhs.source_view(), rhs.source_view(), TensorKind::Additive, ctx);
                        lemma_atom_nodes_match(lhs.target_view(), rhs.target_view(), TensorKind::Additive, ctx);
                    }
                    rule_from_sides(lhs, rhs)
                },
                None => None,
            }
        },
        _ => None,
    }
}

/// The sort sequences of a list of contexts with repeats dropped, each kept
/// where it first occurs.
pub open spec fn distinct_sorts<V>(s: Seq<Seq<V>>) -> Seq<Seq<V>>
    decreases s.len(),
{
    if s.len() == 0 {
        Seq::empty()
    } else {
        let d = distinct_sorts(s.drop_last());
        if d.contains(s.last()) {
            d
        } else {
            d.push(s.last())
        }
    }
}

/// The sort sequences of the contexts of a list of nodes.
pub open spec fn node_context_sorts<S: DeepView>(nodes: Seq<MonomialHyperNode<S>>) -> Seq<Seq<S::V>> {
    nodes.map_values(|n: MonomialHyperNode<S>| monomial_view(n.context).sorts())
}

/// The contexts of `nodes`, each once, in the order in which they first
/// occur; contexts with the same sorts count as one.
pub fn distinct_contexts<S: Label>(nodes: &Vec<MonomialHyperNode<S>>) -> (r: Vec<Monomial<S>>)
    ensures
        monomial_views(r@).map_values(|m: Monomial<S::V>| m.sorts()) == distinct_sorts(node_context_sorts(nodes@)),
{
    let mut out: Vec<Monomial<S>> = Vec::new();
    let mut i: usize = 0;
    while i < nodes.len()
        invariant
            i <= nodes@.len(),
            monomial_views(out@).map_values(|m: Monomial<S::V>| m.sorts()) == distinct_sorts(
                node_context_sorts(nodes@).subrange(0, i as int),
            ),
        decreases nodes@.len() - i,
    {
        let ghost seen = monomial_views(out@).map_values(|m: Monomial<S::V>| m.sorts());
        let ghost next = monomial_view(nodes@[i as int].context).sorts();
        let mut found = false;
        let mut j: usize = 0;
        while j < out.len()
            invariant
                i < nodes@.len(),
                j <= out@.len(),
                seen == monomial_views(out@).map_values(|m: Monomial<S::V>| m.sorts()),
                next == monomial_view(nodes@[i as int].context).sorts(),
                found <==> exists|k: int| 0 <= k < j && seen[k] == next,
            decreases out@.len() - j,
        {
            proof {
                assert(seen[j as int] == monomial_view(out@[j as int]).sorts());
            }
            if monomial_equals(&out[j], &nodes[i].context) {
                found = true;
            }
            j = j + 1;
        }
        proof {
            let prefix = node_context_sorts(nodes@).subrange(0, i + 1);
            assert(prefix.drop_last() =~= node_context_sorts(nodes@).subrange(0, i as int));
            assert(prefix.last() == next);
            assert(found <==> seen.contains(next)) by {
                if seen.contains(next) {
                    let k = choose|k: int| 0 <= k < seen.len() && seen[k] == next;
                    assert(0 <= k < j && seen[k] == next);
                }
            }
        }
        if !found {
            let c = nodes[i].context.duplicate();
            let ghost before = out@;
            out.push(c);
            proof {
                assert(monomial_views(out@).map_values(|m: Monomial<S::V>| m.sorts()) =~= seen.push(next));
            }
        }
        i = i + 1;
    }
    proof {
        assert(node_context_sorts(nodes@).subrange(0, nodes@.len() as int) =~= node_context_sorts(nodes@));
    }
    out
}

/// The rules of the three kinds above for every context, in the order of
/// the contexts: for each, the additive round trip through the
/// multiplicative tensor, the multiplicative round trip through the
/// additive tensor, and the additive split then merge.
pub fn frobenius_rules_for_contexts<S: Label, G: Label>(contexts: &Vec<Monomial<S>>) -> (r: Vec<
    MonomialFrobeniusRewriteRule<S, G>,
>)
    ensures
        r@.len() == 3 * contexts@.len(),
        forall|i: int|
            0 <= i < contexts@.len() ==> {
                &&& identity_rule_on(r@[3 * i], TensorKind::Additive, monomial_view(#[trigger] contexts@[i]))
                &&& identity_rule_on(r@[3 * i + 1], TensorKind::Multiplicative, monomial_view(contexts@[i]))
                &&& identity_rule_on(r@[3 * i + 2], TensorKind::Additive, monomial_view(contexts@[i]))
            },
{
    let mut rules: Vec<MonomialFrobeniusRewriteRule<S, G>> = Vec::new();
    let mut i: usize = 0;
    while i < contexts.len()
        invariant
            i <= contexts@.len(),
            rules@.len() == 3 * i,
            forall|k: int|
                0 <= k < i ==> {
                    &&& identity_rule_on(rules@[3 * k], TensorKind::Additive, monomial_view(#[trigger] contexts@[k]))
                    &&& identity_rule_on(rules@[3 * k + 1], TensorKind::Multiplicative, monomial_view(contexts@[k]))
                    &&& identity_rule_on(rules@[3 * k + 2], TensorKind::Additive, monomial_view(contexts@[k]))
                },
        decreases contexts@.len() - i,
    {
        let ghost before = rules@;
        match from_add_to_mul_then_from_mul_to_add_rule(&contexts[i]) {
            Some(rule) => rules.push(rule),
            None => {},
        }
        match from_mul_to_add_then_from_add_to_mul_rule(&contexts[i]) {
            Some(rule) => rules.push(rule),
            None => {},
        }
        match additive_split_then_merge_rule(&contexts[i]) {
            Some(rule) => rules.push(rule),
            None => {},
        }
        proof {
            assert forall|k: int| 0 <= k < i implies {
                &&& identity_rule_on(rules@[3 * k], TensorKind::Additive, monomial_view(#[trigger] contexts@[k]))
                &&& identity_rule_on(rules@[3 * k + 1], TensorKind::Multiplicative, monomial_view(contexts@[k]))
                &&& identity_rule_on(rules@[3 * k + 2], TensorKind::Additive, monomial_view(contexts@[k]))
            } by {
                assert(rules@[3 * k] == before[3 * k]);
                assert(rules@[3 * k + 1] == before[3 * k + 1]);
                assert(rules@[3 * k + 2] == before[3 * k + 2]);
            }
        }
        i = i + 1;
    }
    rules
}

/// The rules of the three kinds above for every distinct context of the
/// nodes of `graph`, in the order in which the contexts first occur. The
/// node labels come from the crate's graph, which no contract states; what
/// is built from them is `frobenius_rules_for_contexts`.
pub fn frobenius_rules_for_graph<S: Label, G: Label>(graph: &MonomialGraph<S, G>) -> (r: Vec<
    MonomialFrobeniusRewriteRule<S, G>,
>)
    ensures
        exists|nodes: Seq<MonomialHyperNode<S>>, contexts: Seq<Monomial<S>>|
            {
                &&& monomial_views(contexts).map_values(|m: Monomial<S::V>| m.sorts()) == distinct_sorts(
                    node_context_sorts(nodes),
                )
                &&& r@.len() == 3 * contexts.len()
                &&& forall|i: int|
                    0 <= i < contexts.len() ==> {
                        &&& identity_rule_on(r@[3 * i], TensorKind::Additive, monomial_view(#[trigger] contexts[i]))
                        &&& identity_rule_on(r@[3 * i + 1], TensorKind::Multiplicative, monomial_view(contexts[i]))
                        &&& identity_rule_on(r@[3 * i + 2], TensorKind::Additive, monomial_view(contexts[i]))
                    }
            },
{
    let nodes = node_labels(graph);
    let contexts = distinct_contexts(&nodes);
    let r = frobenius_rules_for_contexts(&contexts);
    proof {
        assert(monomial_views(contexts@).map_values(|m: Monomial<S::V>| m.sorts()) == distinct_sorts(
            node_context_sorts(nodes@),
        ));
    }
    r
}

} // verus!
