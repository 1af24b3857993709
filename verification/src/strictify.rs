//! Carrying out the pending identifications of a drawing: every class of
//! identified nodes becomes one node, numbered as `open_hypergraphs`
//! numbers the classes of a coequalizer.

use vstd::prelude::*;

use open_hypergraphs::array::vec::{VecArray, VecKind};
use open_hypergraphs::finite_function::FiniteFunction;

use crate::expression_circuit::ExprGenerator;
use crate::hypergraph_utils::linked;
use crate::tape_language::lax_graph::{below, edge_views, HyperEdge, LaxGraph, LaxGraphModel};
use crate::tape_language::monomial_tape::{node_eq, MonomialDrawing, MonomialHyperNode};
use crate::tape_language::monomial_view;
use crate::types::TypeExpr;

verus! {

/// `q` numbers the classes of the equivalence that the pairs
/// `(left[k], right[k])` generate on `0..n`: it maps `0..n` onto
/// `0..count`, the two ends of a pair fall in one class, two nodes fall in
/// one class only when the pairs link them, and classes are numbered in
/// the order of their first nodes (a node that opens a class gets a number
/// above those of all nodes before it).
pub open spec fn is_quotient_table(left: Seq<usize>, right: Seq<usize>, n: usize, q: Seq<usize>, count: usize) -> bool {
    &&& q.len() == n
    &&& below(q, count as int)
    &&& forall|c: int| 0 <= c < count ==> #[trigger] has_member(q, c)
    &&& forall|k: int| 0 <= k < left.len() ==> q[#[trigger] left[k] as int] == q[right[k] as int]
    &&& forall|i: int, j: int|
        #![trigger q[i], q[j]]
        0 <= i < n && 0 <= j < n && q[i] == q[j] ==> linked(pair_up(left, right), i as usize, j as usize)
    &&& forall|i: int, j: int|
        #![trigger q[i], q[j]]
        0 <= j < i < n && (forall|k: int| 0 <= k < i ==> q[k] != q[i]) ==> q[j] < q[i]
}

/// The table of the quotient of `0..n` by the pairs and the number of
/// classes; there is exactly one table with the properties of
/// `is_quotient_table`.
pub open spec fn coequalizer_table(left: Seq<usize>, right: Seq<usize>, n: usize) -> (Seq<usize>, usize) {
    choose|r: (Seq<usize>, usize)| is_quotient_table(left, right, n, r.0, r.1)
}

/// `FiniteFunction::coequalizer` of `left` and `right`, both into `n`. Its
/// source numbers the classes of the equivalence that the pairs generate
/// on `0..n` (see `is_quotient_table`), and it is that one table.
#[verifier::external_body]
fn coequalizer(left: Vec<usize>, right: Vec<usize>, n: usize) -> (r: (Vec<usize>, usize))
    requires
        left@.len() == right@.len(),
        below(left@, n as int),
        below(right@, n as int),
    ensures
        (r.0@, r.1) == coequalizer_table(left@, right@, n),
        is_quotient_table(left@, right@, n, r.0@, r.1),
{
    let s = FiniteFunction::<VecKind>::new(VecArray(left), n).unwrap();
    let t = FiniteFunction::<VecKind>::new(VecArray(right), n).unwrap();
    let q = s.coequalizer(&t).unwrap();
    (q.table.0, q.target)
}

/// Some node falls in class `c`.
pub open spec fn has_member(q: Seq<usize>, c: int) -> bool {
    exists|i: int| 0 <= i < q.len() && q[i] == c
}

/// Class `d` is labelled as a copy of its last node.
pub open spec fn labelled_by_last(
    q: Seq<usize>,
    labels: Seq<MonomialHyperNode<TypeExpr>>,
    nodes: Seq<MonomialHyperNode<TypeExpr>>,
    d: int,
) -> bool {
    exists|j: int| 0 <= j < nodes.len() && q[j] == d && last_in_class(q, j) && node_copy(labels[d], nodes[j])
}

/// The pairs `(left[k], right[k])`.
pub open spec fn pair_up(left: Seq<usize>, right: Seq<usize>) -> Seq<(usize, usize)> {
    Seq::new(left.len(), |k: int| (left[k], right[k]))
}

/// The first nodes of the identified pairs.
pub open spec fn pair_firsts(q: Seq<(usize, usize)>) -> Seq<usize> {
    q.map_values(|p: (usize, usize)| p.0)
}

/// The second nodes of the identified pairs.
pub open spec fn pair_seconds(q: Seq<(usize, usize)>) -> Seq<usize> {
    q.map_values(|p: (usize, usize)| p.1)
}

/// The classes of the graph's identified nodes, as the coequalizer of its
/// pairs numbers them, and their number.
pub open spec fn node_classes<O, A>(g: LaxGraphModel<O, A>) -> (Seq<usize>, usize) {
    coequalizer_table(pair_firsts(g.quotient), pair_seconds(g.quotient), g.nodes.len() as usize)
}

/// Every node number of `s` sent to its class.
pub open spec fn remapped(s: Seq<usize>, q: Seq<usize>) -> Seq<usize> {
    s.map_values(|x: usize| q[x as int])
}

/// Every hyperedge with its nodes sent to their classes.
pub open spec fn remapped_edges(a: Seq<(Seq<usize>, Seq<usize>)>, q: Seq<usize>) -> Seq<(Seq<usize>, Seq<usize>)> {
    a.map_values(|e: (Seq<usize>, Seq<usize>)| (remapped(e.0, q), remapped(e.1, q)))
}

/// Node `i` is the last of its class.
pub open spec fn last_in_class(q: Seq<usize>, i: int) -> bool {
    forall|j: int| i < j < q.len() ==> q[j] != q[i]
}

/// The nodes of each class carry equal labels.
pub open spec fn classes_agree(nodes: Seq<MonomialHyperNode<TypeExpr>>, q: Seq<usize>) -> bool {
    forall|i: int, j: int|
        #![trigger q[i], q[j]]
        0 <= i < q.len() && 0 <= j < q.len() && q[i] == q[j] ==> node_eq(nodes[i], nodes[j])
}

/// `b` is a copy of `a`.
pub open spec fn node_copy(b: MonomialHyperNode<TypeExpr>, a: MonomialHyperNode<TypeExpr>) -> bool {
    b.tensor_kind == a.tensor_kind && monomial_view(b.context) == monomial_view(a.context)
}

/// `h` is `graph` with its identifications carried out: a node per class,
/// labelled as a copy of the class's last node; the same edges, with their
/// nodes and the boundaries sent to the classes; nothing left to identify.
pub open spec fn strictified(
    graph: MonomialDrawing<TypeExpr, ExprGenerator>,
    h: MonomialDrawing<TypeExpr, ExprGenerator>,
) -> bool {
    &&& h@.wf()
    &&& h@.nodes.len() == node_classes(graph@).1
    &&& forall|i: int|
        0 <= i < graph.nodes@.len() && last_in_class(node_classes(graph@).0, i) ==> node_copy(
            #[trigger] h.nodes@[node_classes(graph@).0[i] as int],
            graph.nodes@[i],
        )
    &&& h@.edges == graph@.edges
    &&& h@.adjacency == remapped_edges(graph@.adjacency, node_classes(graph@).0)
    &&& h@.quotient == Seq::<(usize, usize)>::empty()
    &&& h@.sources == remapped(graph@.sources, node_classes(graph@).0)
    &&& h@.targets == remapped(graph@.targets, node_classes(graph@).0)
}

proof fn lemma_last_unique(q: Seq<usize>, i: int, j: int)
    requires
        0 <= i < q.len(),
        0 <= j < q.len(),
        q[i] == q[j],
        last_in_class(q, i),
        last_in_class(q, j),
    ensures
        i == j,
{
    if i < j {
        assert(q[j] != q[i]);
    } else if j < i {
        assert(q[i] != q[j]);
    }
}

/// The drawing with its identifications carried out: the nodes of a class
/// become one node, labelled as the class's last node; hyperedges and
/// boundaries go to the classes of their nodes, and nothing is left to
/// identify. `None` when two identified nodes carry different labels.
pub fn strictify_drawing(graph: MonomialDrawing<TypeExpr, ExprGenerator>) -> (r: Option<
    MonomialDrawing<TypeExpr, ExprGenerator>,
>)
    requires
        graph@.wf(),
    ensures
        r is Some <==> classes_agree(graph.nodes@, node_classes(graph@).0),
        r matches Some(h) ==> strictified(graph, h),
{
    let ghost gm = graph@;
    let ghost old_nodes = graph.nodes@;
    let LaxGraph { nodes, edges, adjacency, quotient, sources, targets } = graph;
    let n = nodes.len();
    let mut lefts: Vec<usize> = Vec::new();
    let mut rights: Vec<usize> = Vec::new();
    let mut k: usize = 0;
    while k < quotient.len()
        invariant
            k <= quotient@.len(),
            quotient@ == gm.quotient,
            n == gm.nodes.len(),
            gm.wf(),
            lefts@ == pair_firsts(quotient@.subrange(0, k as int)),
            rights@ == pair_seconds(quotient@.subrange(0, k as int)),
        decreases quotient@.len() - k,
    {
        let (a, b) = quotient[k];
        lefts.push(a);
        rights.push(b);
        proof {
            assert(quotient@.subrange(0, k + 1) =~= quotient@.subrange(0, k as int).push(quotient@[k as int]));
            assert(lefts@ =~= pair_firsts(quotient@.subrange(0, k + 1)));
            assert(rights@ =~= pair_seconds(quotient@.subrange(0, k + 1)));
        }
        k = k + 1;
    }
    proof {
        assert(quotient@.subrange(0, quotient@.len() as int) =~= quotient@);
        assert forall|i: int| 0 <= i < lefts@.len() implies #[trigger] lefts@[i] < n by {
            assert(gm.quotient[i].0 < n);
        }
        assert forall|i: int| 0 <= i < rights@.len() implies #[trigger] rights@[i] < n by {
            assert(gm.quotient[i].1 < n);
        }
    }
    let (q, m) = coequalizer(lefts, rights, n);
    proof {
        assert((q@, m) == node_classes(gm));
    }
    let mut slots: Vec<Option<MonomialHyperNode<TypeExpr>>> = Vec::new();
    let mut c: usize = 0;
    while c < m
        invariant
            c <= m,
            slots@.len() == c,
            forall|d: int| 0 <= d < c ==> #[trigger] slots@[d] is None,
        decreases m - c,
    {
        slots.push(None);
        c = c + 1;
    }
    let mut i: usize = 0;
    while i < n
        invariant
            i <= n,
            n == nodes@.len(),
            nodes@ == old_nodes,
            q@.len() == n,
            below(q@, m as int),
            slots@.len() == m,
            forall|d: int|
                0 <= d < m ==> (#[trigger] slots@[d] is None <==> forall|j: int| 0 <= j < i ==> q@[j] != d),
            forall|d: int|
                0 <= d < m && (#[trigger] slots@[d] is Some) ==> exists|j: int|
                    0 <= j < i && q@[j] == d && (forall|t: int| j < t < i ==> q@[t] != d) && node_copy(
                        slots@[d]->Some_0,
                        #[trigger] nodes@[j],
                    ),
        decreases n - i,
    {
        let d = q[i];
        let copy = nodes[i].duplicate();
        slots.set(d, Some(copy));
        proof {
            assert(node_copy(slots@[d as int]->Some_0, nodes@[i as int]));
            assert forall|e: int| 0 <= e < m && (#[trigger] slots@[e] is Some) implies exists|j: int|
                0 <= j < i + 1 && q@[j] == e && (forall|t: int| j < t < i + 1 ==> q@[t] != e) && node_copy(
                    slots@[e]->Some_0,
                    #[trigger] nodes@[j],
                ) by {
                if e == d as int {
                    assert(q@[i as int] == e);
                    assert(node_copy(slots@[e]->Some_0, nodes@[i as int]));
                } else {
                    assert(q@[i as int] != e);
                }
            }
        }
        i = i + 1;
    }
    let mut new_nodes: Vec<MonomialHyperNode<TypeExpr>> = Vec::new();
    let mut c2: usize = 0;
    while c2 < m
        invariant
            c2 <= m,
            n == nodes@.len(),
            nodes@ == old_nodes,
            q@.len() == n,
            below(q@, m as int),
            slots@.len() == m,
            (q@, m) == node_classes(gm),
            forall|d: int| 0 <= d < m ==> #[trigger] has_member(q@, d),
            forall|d: int|
                0 <= d < m ==> (#[trigger] slots@[d] is None <==> forall|j: int| 0 <= j < n ==> q@[j] != d),
            forall|d: int|
                0 <= d < m && (#[trigger] slots@[d] is Some) ==> exists|j: int|
                    0 <= j < n && q@[j] == d && (forall|t: int| j < t < n ==> q@[t] != d) && node_copy(
                        slots@[d]->Some_0,
                        #[trigger] nodes@[j],
                    ),
            new_nodes@.len() == c2,
            forall|d: int| 0 <= d < c2 ==> node_copy(#[trigger] new_nodes@[d], slots@[d]->Some_0),
        decreases m - c2,
    {
        proof {
            assert(has_member(q@, c2 as int));
            let j = choose|j: int| 0 <= j < n && q@[j] == c2 as int;
            assert(!(forall|j: int| 0 <= j < n ==> q@[j] != c2 as int));
            assert(slots@[c2 as int] is Some);
        }
        let ghost before = new_nodes@;
        match &slots[c2] {
            Some(x) => {
                let node = x.duplicate();
                proof {
                    assert(*x == slots@[c2 as int]->Some_0);
                    assert(node_copy(node, slots@[c2 as int]->Some_0));
                }
                new_nodes.push(node);
            },
            None => {
                proof {
                    assert(false);
                }
                return None;
            },
        }
        proof {
            assert forall|d: int| 0 <= d < c2 + 1 implies node_copy(
                #[trigger] new_nodes@[d],
                slots@[d]->Some_0,
            ) by {
                if d < c2 {
                    assert(new_nodes@[d] == before[d]);
                }
            }
        }
        c2 = c2 + 1;
    }
    proof {
        assert forall|d: int| 0 <= d < m implies #[trigger] labelled_by_last(q@, new_nodes@, nodes@, d) by {
            assert(node_copy(new_nodes@[d], slots@[d]->Some_0));
            assert(has_member(q@, d));
            let w = choose|w: int| 0 <= w < q@.len() && q@[w] == d;
            assert(!(forall|j: int| 0 <= j < n ==> q@[j] != d));
            assert(slots@[d] is Some);
            let j = choose|j: int|
                0 <= j < n && q@[j] == d && (forall|t: int| j < t < n ==> q@[t] != d) && node_copy(
                    slots@[d]->Some_0,
                    #[trigger] nodes@[j],
                );
            assert(last_in_class(q@, j));
            assert(node_copy(new_nodes@[d], nodes@[j]));
            assert(labelled_by_last(q@, new_nodes@, nodes@, d));
        }
    }
    // Every node must agree with the label its class ends up with.
    let mut i2: usize = 0;
    while i2 < n
        invariant
            i2 <= n,
            n == nodes@.len(),
            nodes@ == old_nodes,
            q@.len() == n,
            below(q@, m as int),
            new_nodes@.len() == m,
            (q@, m) == node_classes(gm),
            forall|d: int| 0 <= d < m ==> #[trigger] labelled_by_last(q@, new_nodes@, nodes@, d),
            gm.nodes == nodes@,
            gm == graph@,
            forall|j: int| 0 <= j < i2 ==> node_eq(#[trigger] nodes@[j], new_nodes@[q@[j] as int]),
        decreases n - i2,
    {
        let d = q[i2];
        if !(nodes[i2] == new_nodes[d]) {
            proof {
                assert(labelled_by_last(q@, new_nodes@, nodes@, d as int));
                let j = choose|j: int|
                    0 <= j < n && q@[j] == d && last_in_class(q@, j) && node_copy(new_nodes@[d as int], nodes@[j]);
                assert(!node_eq(nodes@[i2 as int], new_nodes@[d as int]));
                assert(q@[j] == q@[i2 as int]);
                assert(!node_eq(nodes@[i2 as int], nodes@[j]));
                assert(gm.nodes == nodes@);
                assert(classes_agree(gm.nodes, q@) ==> node_eq(gm.nodes[i2 as int], gm.nodes[j]));
                assert(!classes_agree(gm.nodes, q@));
            }
            return None;
        }
        i2 = i2 + 1;
    }
    proof {
        assert forall|a: int, b: int|
            #![trigger q@[a], q@[b]]
            0 <= a < q@.len() && 0 <= b < q@.len() && q@[a] == q@[b] implies node_eq(gm.nodes[a], gm.nodes[b]) by {
            assert(node_eq(nodes@[a], new_nodes@[q@[a] as int]));
            assert(node_eq(nodes@[b], new_nodes@[q@[b] as int]));
        }
    }
    let mut new_adjacency: Vec<HyperEdge> = Vec::new();
    let mut e: usize = 0;
    while e < adjacency.len()
        invariant
            e <= adjacency@.len(),
            edge_views(adjacency@) == gm.adjacency,
            gm.wf(),
            n == gm.nodes.len(),
            q@.len() == n,
            below(q@, m as int),
            edge_views(new_adjacency@) == remapped_edges(gm.adjacency.subrange(0, e as int), q@),
            forall|f: int| 0 <= f < e ==> below((#[trigger] edge_views(new_adjacency@)[f]).0, m as int) && below(
                edge_views(new_adjacency@)[f].1,
                m as int,
            ),
        decreases adjacency@.len() - e,
    {
        proof {
            assert(gm.adjacency[e as int] == (adjacency@[e as int].sources@, adjacency@[e as int].targets@));
            assert(below(gm.adjacency[e as int].0, n as int));
            assert(below(gm.adjacency[e as int].1, n as int));
        }
        let s2 = remap_nodes(&adjacency[e].sources, &q, m);
        let t2 = remap_nodes(&adjacency[e].targets, &q, m);
        let ghost before = new_adjacency@;
        new_adjacency.push(HyperEdge { sources: s2, targets: t2 });
        proof {
            assert(gm.adjacency.subrange(0, e + 1) =~= gm.adjacency.subrange(0, e as int).push(gm.adjacency[e as int]));
            assert(edge_views(new_adjacency@) =~= edge_views(before).push((s2@, t2@)));
            assert(edge_views(new_adjacency@) =~= remapped_edges(gm.adjacency.subrange(0, e + 1), q@));
            assert forall|f: int| 0 <= f < e + 1 implies below((#[trigger] edge_views(new_adjacency@)[f]).0, m as int)
                && below(edge_views(new_adjacency@)[f].1, m as int) by {
                if f < e {
                    assert(edge_views(new_adjacency@)[f] == edge_views(before)[f]);
                }
            }
        }
        e = e + 1;
    }
    proof {
        assert(gm.adjacency.subrange(0, adjacency@.len() as int) =~= gm.adjacency);
    }
    let new_sources = remap_nodes(&sources, &q, m);
    let new_targets = remap_nodes(&targets, &q, m);
    let r = LaxGraph {
        nodes: new_nodes,
        edges,
        adjacency: new_adjacency,
        quotient: Vec::new(),
        sources: new_sources,
        targets: new_targets,
    };
    proof {
        assert forall|i: int|
            0 <= i < old_nodes.len() && last_in_class(q@, i) implies node_copy(
            #[trigger] r.nodes@[q@[i] as int],
            old_nodes[i],
        ) by {
            let d = q@[i] as int;
            assert(labelled_by_last(q@, new_nodes@, nodes@, d));
            let j = choose|j: int|
                0 <= j < n && q@[j] == d && last_in_class(q@, j) && node_copy(new_nodes@[d], nodes@[j]);
            lemma_last_unique(q@, i, j);
        }
        assert(r@.adjacency.len() == r@.edges.len());
    }
    Some(r)
}

/// Every node number of `s` sent to its class.
fn remap_nodes(s: &Vec<usize>, q: &Vec<usize>, m: usize) -> (r: Vec<usize>)
    requires
        below(s@, q@.len() as int),
        below(q@, m as int),
    ensures
        r@ == remapped(s@, q@),
        below(r@, m as int),
{
    let mut out: Vec<usize> = Vec::new();
    let mut i: usize = 0;
    while i < s.len()
        invariant
            i <= s@.len(),
            below(s@, q@.len() as int),
            below(q@, m as int),
            out@ == remapped(s@.subrange(0, i as int), q@),
            below(out@, m as int),
        decreases s@.len() - i,
    {
        let ghost before = out@;
        proof {
            assert(s@[i as int] < q@.len());
        }
        out.push(q[s[i]]);
        proof {
            assert(s@.subrange(0, i + 1) =~= s@.subrange(0, i as int).push(s@[i as int]));
            assert(out@ =~= remapped(s@.subrange(0, i + 1), q@));
            assert forall|k: int| 0 <= k < out@.len() implies #[trigger] out@[k] < m by {
                if k < i {
                    assert(out@[k] == before[k]);
                }
            }
        }
        i = i + 1;
    }
    proof {
        assert(s@.subrange(0, s@.len() as int) =~= s@);
    }
    out
}

} // verus!
