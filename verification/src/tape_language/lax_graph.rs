//! Lax open hypergraphs: labelled nodes and hyperedges, a list of node
//! pairs still to be identified (the quotient), and the source and target
//! interfaces as lists of nodes. Diagrams are drawn into this form before
//! their wires are identified.

use vstd::prelude::*;

verus! {

/// The nodes on the two sides of a hyperedge.
#[derive(Debug)]
pub struct HyperEdge {
    pub sources: Vec<usize>,
    pub targets: Vec<usize>,
}

/// An open hypergraph whose node identifications are still pending.
#[derive(Debug)]
pub struct LaxGraph<O, A> {
    pub nodes: Vec<O>,
    pub edges: Vec<A>,
    pub adjacency: Vec<HyperEdge>,
    pub quotient: Vec<(usize, usize)>,
    pub sources: Vec<usize>,
    pub targets: Vec<usize>,
}

/// The mathematical model of a lax graph.
pub struct LaxGraphModel<O, A> {
    pub nodes: Seq<O>,
    pub edges: Seq<A>,
    pub adjacency: Seq<(Seq<usize>, Seq<usize>)>,
    pub quotient: Seq<(usize, usize)>,
    pub sources: Seq<usize>,
    pub targets: Seq<usize>,
}

/// Every node number in `s` is below `n`.
pub open spec fn below(s: Seq<usize>, n: int) -> bool {
    forall|i: int| 0 <= i < s.len() ==> #[trigger] s[i] < n
}

/// Every node number of `s` moved up by `n`.
pub open spec fn shifted(s: Seq<usize>, n: int) -> Seq<usize> {
    s.map_values(|x: usize| (x + n) as usize)
}

/// The numbers `lo, lo + 1, .., hi - 1`.
pub open spec fn span(lo: int, hi: int) -> Seq<usize> {
    Seq::new((hi - lo) as nat, |i: int| (lo + i) as usize)
}

pub open spec fn edge_views(a: Seq<HyperEdge>) -> Seq<(Seq<usize>, Seq<usize>)> {
    a.map_values(|e: HyperEdge| (e.sources@, e.targets@))
}

impl<O, A> View for LaxGraph<O, A> {
    type V = LaxGraphModel<O, A>;

    open spec fn view(&self) -> LaxGraphModel<O, A> {
        LaxGraphModel {
            nodes: self.nodes@,
            edges: self.edges@,
            adjacency: edge_views(self.adjacency@),
            quotient: self.quotient@,
            sources: self.sources@,
            targets: self.targets@,
        }
    }
}

impl<O, A> LaxGraphModel<O, A> {
    /// Every node number that occurs names a node, and every hyperedge has
    /// its nodes.
    pub open spec fn wf(self) -> bool {
        let n = self.nodes.len() as int;
        &&& self.adjacency.len() == self.edges.len()
        &&& forall|e: int|
            0 <= e < self.adjacency.len() ==> below(#[trigger] self.adjacency[e].0, n) && below(
                self.adjacency[e].1,
                n,
            )
        &&& forall|q: int|
            0 <= q < self.quotient.len() ==> (#[trigger] self.quotient[q]).0 < n && self.quotient[q].1 < n
        &&& below(self.sources, n)
        &&& below(self.targets, n)
    }

    /// The graph without nodes.
    pub open spec fn spec_empty() -> Self {
        LaxGraphModel {
            nodes: Seq::empty(),
            edges: Seq::empty(),
            adjacency: Seq::empty(),
            quotient: Seq::empty(),
            sources: Seq::empty(),
            targets: Seq::empty(),
        }
    }

    /// One node per label, each both a source and a target, in order.
    pub open spec fn spec_identity(labels: Seq<O>) -> Self {
        LaxGraphModel {
            nodes: labels,
            edges: Seq::empty(),
            adjacency: Seq::empty(),
            quotient: Seq::empty(),
            sources: span(0, labels.len() as int),
            targets: span(0, labels.len() as int),
        }
    }

    /// One hyperedge from fresh source nodes to fresh target nodes.
    pub open spec fn spec_singleton(label: A, a: Seq<O>, b: Seq<O>) -> Self {
        let la = a.len() as int;
        let lb = b.len() as int;
        LaxGraphModel {
            nodes: a + b,
            edges: seq![label],
            adjacency: seq![(span(0, la), span(la, la + lb))],
            quotient: Seq::empty(),
            sources: span(0, la),
            targets: span(la, la + lb),
        }
    }

    /// The two graphs side by side: the nodes of `other` come after those of
    /// `self`, and so do its interfaces.
    pub open spec fn spec_tensor(self, other: Self) -> Self {
        let n = self.nodes.len() as int;
        LaxGraphModel {
            nodes: self.nodes + other.nodes,
            edges: self.edges + other.edges,
            adjacency: self.adjacency + other.adjacency.map_values(
                |e: (Seq<usize>, Seq<usize>)| (shifted(e.0, n), shifted(e.1, n)),
            ),
            quotient: self.quotient + other.quotient.map_values(
                |p: (usize, usize)| ((p.0 + n) as usize, (p.1 + n) as usize),
            ),
            sources: self.sources + shifted(other.sources, n),
            targets: self.targets + shifted(other.targets, n),
        }
    }

    /// Sequential composition: the two graphs side by side, each target of
    /// `self` identified with the matching source of `other`, the sources
    /// of `self` as sources and the targets of `other` as targets.
    pub open spec fn spec_compose(self, other: Self) -> Self {
        let t = self.spec_tensor(other);
        let n = self.nodes.len() as int;
        LaxGraphModel {
            quotient: t.quotient + Seq::new(
                self.targets.len(),
                |i: int| (self.targets[i], (other.sources[i] + n) as usize),
            ),
            sources: self.sources,
            targets: shifted(other.targets, n),
            ..t
        }
    }
}

/// The graph with each node label replaced by `f` of it and each edge label
/// by `h` of it; the structure stays.
pub open spec fn relabel<O, A, P, Q>(m: LaxGraphModel<O, A>, f: spec_fn(O) -> P, h: spec_fn(A) -> Q) -> LaxGraphModel<
    P,
    Q,
> {
    LaxGraphModel {
        nodes: m.nodes.map_values(f),
        edges: m.edges.map_values(h),
        adjacency: m.adjacency,
        quotient: m.quotient,
        sources: m.sources,
        targets: m.targets,
    }
}

/// Relabelling commutes with the constructions of graphs.
pub proof fn lemma_relabel_constructions<O, A, P, Q>(
    a: LaxGraphModel<O, A>,
    b: LaxGraphModel<O, A>,
    f: spec_fn(O) -> P,
    h: spec_fn(A) -> Q,
)
    ensures
        relabel(a.spec_tensor(b), f, h) == relabel(a, f, h).spec_tensor(relabel(b, f, h)),
        relabel(a.spec_compose(b), f, h) == relabel(a, f, h).spec_compose(relabel(b, f, h)),
        relabel(LaxGraphModel::<O, A>::spec_empty(), f, h) == LaxGraphModel::<P, Q>::spec_empty(),
        forall|labels: Seq<O>|
            #[trigger] relabel(LaxGraphModel::<O, A>::spec_identity(labels), f, h)
                == LaxGraphModel::<P, Q>::spec_identity(labels.map_values(f)),
        forall|x: A, la: Seq<O>, lb: Seq<O>|
            #[trigger] relabel(LaxGraphModel::<O, A>::spec_singleton(x, la, lb), f, h)
                == LaxGraphModel::<P, Q>::spec_singleton(h(x), la.map_values(f), lb.map_values(f)),
{
    assert(relabel(a.spec_tensor(b), f, h).nodes =~= relabel(a, f, h).spec_tensor(relabel(b, f, h)).nodes);
    assert(relabel(a.spec_tensor(b), f, h).edges =~= relabel(a, f, h).spec_tensor(relabel(b, f, h)).edges);
    assert(relabel(a.spec_tensor(b), f, h) =~= relabel(a, f, h).spec_tensor(relabel(b, f, h)));
    assert(relabel(a.spec_compose(b), f, h).nodes =~= relabel(a, f, h).spec_compose(relabel(b, f, h)).nodes);
    assert(relabel(a.spec_compose(b), f, h).edges =~= relabel(a, f, h).spec_compose(relabel(b, f, h)).edges);
    assert(relabel(a.spec_compose(b), f, h).quotient =~= relabel(a, f, h).spec_compose(relabel(b, f, h)).quotient);
    assert(relabel(a.spec_compose(b), f, h) =~= relabel(a, f, h).spec_compose(relabel(b, f, h)));
    assert(relabel(LaxGraphModel::<O, A>::spec_empty(), f, h).nodes =~= Seq::<P>::empty());
    assert(relabel(LaxGraphModel::<O, A>::spec_empty(), f, h).edges =~= Seq::<Q>::empty());
    assert(relabel(LaxGraphModel::<O, A>::spec_empty(), f, h) =~= LaxGraphModel::<P, Q>::spec_empty());
    assert forall|labels: Seq<O>|
        #[trigger] relabel(LaxGraphModel::<O, A>::spec_identity(labels), f, h)
            == LaxGraphModel::<P, Q>::spec_identity(labels.map_values(f)) by {
        assert(relabel(LaxGraphModel::<O, A>::spec_identity(labels), f, h) =~= LaxGraphModel::<P, Q>::spec_identity(
            labels.map_values(f),
        ));
    }
    assert forall|x: A, la: Seq<O>, lb: Seq<O>|
        #[trigger] relabel(LaxGraphModel::<O, A>::spec_singleton(x, la, lb), f, h)
            == LaxGraphModel::<P, Q>::spec_singleton(h(x), la.map_values(f), lb.map_values(f)) by {
        let l = relabel(LaxGraphModel::<O, A>::spec_singleton(x, la, lb), f, h);
        let r = LaxGraphModel::<P, Q>::spec_singleton(h(x), la.map_values(f), lb.map_values(f));
        assert(l.nodes =~= r.nodes);
        assert(l.edges =~= r.edges);
        assert(l =~= r);
    }
}

/// A vector of node numbers, each moved up by `n`.
fn shift_ids(ids: &Vec<usize>, n: usize, bound: usize) -> (r: Vec<usize>)
    requires
        below(ids@, bound as int),
        n + bound <= usize::MAX,
    ensures
        r@ == shifted(ids@, n as int),
        below(r@, n + bound),
{
    let mut out: Vec<usize> = Vec::new();
    let mut i: usize = 0;
    while i < ids.len()
        invariant
            i <= ids@.len(),
            below(ids@, bound as int),
            n + bound <= usize::MAX,
            out@ =~= shifted(ids@.subrange(0, i as int), n as int),
        decreases ids@.len() - i,
    {
        assert(ids@[i as int] < bound);
        out.push(ids[i] + n);
        proof {
            assert(shifted(ids@.subrange(0, i + 1), n as int) =~= shifted(ids@.subrange(0, i as int), n as int).push(
                (ids@[i as int] + n) as usize,
            ));
        }
        i = i + 1;
    }
    proof {
        assert(ids@.subrange(0, ids@.len() as int) =~= ids@);
    }
    out
}

/// The numbers `lo, .., hi - 1`.
pub(crate) fn span_vec(lo: usize, hi: usize) -> (r: Vec<usize>)
    requires
        lo <= hi,
    ensures
        r@ == span(lo as int, hi as int),
{
    let mut out: Vec<usize> = Vec::new();
    let mut i: usize = lo;
    while i < hi
        invariant
            lo <= i <= hi,
            out@ =~= span(lo as int, i as int),
        decreases hi - i,
    {
        out.push(i);
        i = i + 1;
    }
    out
}

impl<O, A> LaxGraph<O, A> {
    pub fn empty() -> (r: Self)
        ensures
            r@ == LaxGraphModel::<O, A>::spec_empty(),
            r@.wf(),
    {
        let r = LaxGraph {
            nodes: Vec::new(),
            edges: Vec::new(),
            adjacency: Vec::new(),
            quotient: Vec::new(),
            sources: Vec::new(),
            targets: Vec::new(),
        };
        proof {
            assert(edge_views(r.adjacency@) =~= Seq::empty());
            assert(r@ =~= LaxGraphModel::<O, A>::spec_empty());
        }
        r
    }

    /// Adds a node and gives its number.
    pub fn new_node(&mut self, label: O) -> (r: usize)
        requires
            old(self)@.wf(),
        ensures
            r == old(self)@.nodes.len(),
            final(self)@ == (LaxGraphModel { nodes: old(self)@.nodes.push(label), ..old(self)@ }),
            final(self)@.wf(),
    {
        let r = self.nodes.len();
        self.nodes.push(label);
        proof {
            let m = old(self)@;
            let f = self@;
            assert forall|e: int| 0 <= e < f.adjacency.len() implies below(#[trigger] f.adjacency[e].0, f.nodes.len() as int)
                && below(f.adjacency[e].1, f.nodes.len() as int) by {
                assert(below(m.adjacency[e].0, m.nodes.len() as int));
                assert(below(m.adjacency[e].1, m.nodes.len() as int));
            }
        }
        r
    }

    /// Adds a hyperedge between existing nodes and gives its number.
    pub fn new_edge(&mut self, label: A, sources: Vec<usize>, targets: Vec<usize>) -> (r: usize)
        requires
            old(self)@.wf(),
            below(sources@, old(self)@.nodes.len() as int),
            below(targets@, old(self)@.nodes.len() as int),
        ensures
            r == old(self)@.edges.len(),
            final(self)@ == (LaxGraphModel {
                edges: old(self)@.edges.push(label),
                adjacency: old(self)@.adjacency.push((sources@, targets@)),
                ..old(self)@
            }),
            final(self)@.wf(),
    {
        let r = self.edges.len();
        self.edges.push(label);
        let ghost before = self.adjacency@;
        self.adjacency.push(HyperEdge { sources, targets });
        proof {
            assert(edge_views(self.adjacency@) =~= edge_views(before).push((sources@, targets@)));
        }
        r
    }

    /// Records that two nodes are to be identified.
    pub fn unify(&mut self, a: usize, b: usize)
        requires
            old(self)@.wf(),
            a < old(self)@.nodes.len(),
            b < old(self)@.nodes.len(),
        ensures
            final(self)@ == (LaxGraphModel { quotient: old(self)@.quotient.push((a, b)), ..old(self)@ }),
            final(self)@.wf(),
    {
        self.quotient.push((a, b));
    }

    /// One node per label, each both a source and a target.
    pub fn identity(labels: Vec<O>) -> (r: Self)
        ensures
            r@ == LaxGraphModel::<O, A>::spec_identity(labels@),
            r@.wf(),
    {
        let n = labels.len();
        let sources = span_vec(0, n);
        let targets = span_vec(0, n);
        let r = LaxGraph { nodes: labels, edges: Vec::new(), adjacency: Vec::new(), quotient: Vec::new(), sources, targets };
        proof {
            assert(edge_views(r.adjacency@) =~= Seq::empty());
            assert(r@ =~= LaxGraphModel::<O, A>::spec_identity(labels@));
        }
        r
    }

    /// One hyperedge from fresh nodes labelled `a` to fresh nodes labelled
    /// `b`.
    pub fn singleton(label: A, a: Vec<O>, b: Vec<O>) -> (r: Self)
        ensures
            r@ == LaxGraphModel::<O, A>::spec_singleton(label, a@, b@),
            r@.wf(),
    {
        let la = a.len();
        let mut nodes = a;
        let mut rest = b;
        nodes.append(&mut rest);
        let total = nodes.len();
        let sources = span_vec(0, la);
        let targets = span_vec(la, total);
        let edge_sources = span_vec(0, la);
        let edge_targets = span_vec(la, total);
        let mut edges: Vec<A> = Vec::new();
        edges.push(label);
        let mut adjacency: Vec<HyperEdge> = Vec::new();
        adjacency.push(HyperEdge { sources: edge_sources, targets: edge_targets });
        let r = LaxGraph { nodes, edges, adjacency, quotient: Vec::new(), sources, targets };
        proof {
            assert(edge_views(r.adjacency@) =~= seq![(span(0, la as int), span(la as int, total as int))]);
            assert(r@ =~= LaxGraphModel::<O, A>::spec_singleton(label, a@, b@));
        }
        r
    }

    /// The two graphs side by side.
    pub fn tensor(self, other: Self) -> (r: Self)
        requires
            self@.wf(),
            other@.wf(),
        ensures
            r@ == self@.spec_tensor(other@),
            r@.wf(),
    {
        let ghost sm = self@;
        let ghost om = other@;
        let n = self.nodes.len();
        let LaxGraph { nodes, edges, adjacency, quotient, sources, targets } = self;
        let LaxGraph {
            nodes: other_nodes,
            edges: other_edges,
            adjacency: other_adjacency,
            quotient: other_quotient,
            sources: other_sources,
            targets: other_targets,
        } = other;
        let m = other_nodes.len();
        let mut all_nodes = nodes;
        let mut moved_nodes = other_nodes;
        all_nodes.append(&mut moved_nodes);
        let total = all_nodes.len();
        assert(total == n + m);
        let mut all_edges = edges;
        let mut moved_edges = other_edges;
        all_edges.append(&mut moved_edges);

        let mut all_adjacency = adjacency;
        let mut i: usize = 0;
        while i < other_adjacency.len()
            invariant
                i <= other_adjacency@.len(),
                n + m <= usize::MAX,
                edge_views(other_adjacency@) == om.adjacency,
                om.wf(),
                om.nodes.len() == m,
                edge_views(all_adjacency@) =~= sm.adjacency + om.adjacency.subrange(0, i as int).map_values(
                    |e: (Seq<usize>, Seq<usize>)| (shifted(e.0, n as int), shifted(e.1, n as int)),
                ),
            decreases other_adjacency@.len() - i,
        {
            proof {
                assert(edge_views(other_adjacency@)[i as int] == (other_adjacency@[i as int].sources@, other_adjacency@[i as int].targets@));
                assert(below(om.adjacency[i as int].0, m as int));
            }
            let s = shift_ids(&other_adjacency[i].sources, n, m);
            let t = shift_ids(&other_adjacency[i].targets, n, m);
            let ghost before = all_adjacency@;
            all_adjacency.push(HyperEdge { sources: s, targets: t });
            proof {
                assert(edge_views(all_adjacency@) =~= edge_views(before).push((s@, t@)));
                assert(om.adjacency.subrange(0, i + 1) =~= om.adjacency.subrange(0, i as int).push(om.adjacency[i as int]));
            }
            i = i + 1;
        }
        proof {
            assert(om.adjacency.subrange(0, om.adjacency.len() as int) =~= om.adjacency);
        }

        let mut all_quotient = quotient;
        let mut j: usize = 0;
        while j < other_quotient.len()
            invariant
                j <= other_quotient@.len(),
                n + m <= usize::MAX,
                other_quotient@ == om.quotient,
                om.wf(),
                om.nodes.len() == m,
                all_quotient@ =~= sm.quotient + om.quotient.subrange(0, j as int).map_values(
                    |p: (usize, usize)| ((p.0 + n) as usize, (p.1 + n) as usize),
                ),
            decreases other_quotient@.len() - j,
        {
            let (a, b) = other_quotient[j];
            assert(other_quotient@[j as int].0 < m);
            all_quotient.push((a + n, b + n));
            proof {
                assert(om.quotient.subrange(0, j + 1) =~= om.quotient.subrange(0, j as int).push(om.quotient[j as int]));
            }
            j = j + 1;
        }
        proof {
            assert(om.quotient.subrange(0, om.quotient.len() as int) =~= om.quotient);
        }

        let mut all_sources = sources;
        let mut shifted_sources = shift_ids(&other_sources, n, m);
        all_sources.append(&mut shifted_sources);
        let mut all_targets = targets;
        let mut shifted_targets = shift_ids(&other_targets, n, m);
        all_targets.append(&mut shifted_targets);
        let r = LaxGraph {
            nodes: all_nodes,
            edges: all_edges,
            adjacency: all_adjacency,
            quotient: all_quotient,
            sources: all_sources,
            targets: all_targets,
        };
        proof {
            let rm = r@;
            assert(rm =~= sm.spec_tensor(om));
            let tot = rm.nodes.len() as int;
            assert forall|e: int| 0 <= e < rm.adjacency.len() implies below(#[trigger] rm.adjacency[e].0, tot)
                && below(rm.adjacency[e].1, tot) by {
                if e < sm.adjacency.len() {
                    assert(below(sm.adjacency[e].0, n as int));
                    assert(below(sm.adjacency[e].1, n as int));
                } else {
                    let k = e - sm.adjacency.len();
                    assert(below(om.adjacency[k].0, m as int));
                    assert(below(om.adjacency[k].1, m as int));
                    assert(rm.adjacency[e] == (shifted(om.adjacency[k].0, n as int), shifted(om.adjacency[k].1, n as int)));
                }
            }
            assert forall|q: int| 0 <= q < rm.quotient.len() implies (#[trigger] rm.quotient[q]).0 < tot
                && rm.quotient[q].1 < tot by {
                if q >= sm.quotient.len() {
                    let k = q - sm.quotient.len();
                    assert(om.quotient[k].0 < m && om.quotient[k].1 < m);
                }
            }
            assert forall|i: int| 0 <= i < rm.sources.len() implies #[trigger] rm.sources[i] < tot by {
                if i < sm.sources.len() {
                    assert(sm.sources[i] < n);
                } else {
                    assert(om.sources[i - sm.sources.len()] < m);
                }
            }
            assert forall|i: int| 0 <= i < rm.targets.len() implies #[trigger] rm.targets[i] < tot by {
                if i < sm.targets.len() {
                    assert(sm.targets[i] < n);
                } else {
                    assert(om.targets[i - sm.targets.len()] < m);
                }
            }
        }
        r
    }
}

/// Sequential composition that checks only the number of interface wires:
/// the targets of `lhs` are identified with the sources of `rhs`, whatever
/// their labels.
pub fn compose_lax_unchecked<O, A>(lhs: LaxGraph<O, A>, rhs: LaxGraph<O, A>) -> (r: LaxGraph<O, A>)
    requires
        lhs@.wf(),
        rhs@.wf(),
        lhs@.targets.len() == rhs@.sources.len(),
    ensures
        r@ == lhs@.spec_compose(rhs@),
        r@.wf(),
{
    let ghost lm = lhs@;
    let ghost rm = rhs@;
    let n = lhs.nodes.len();
    let left_sources = lhs.sources.len();
    let left_targets = lhs.targets.len();
    let mut composed = lhs.tensor(rhs);
    let ghost tm = composed@;
    let mut i: usize = 0;
    while i < left_targets
        invariant
            i <= left_targets,
            left_targets == lm.targets.len(),
            left_sources == lm.sources.len(),
            lm.targets.len() == rm.sources.len(),
            tm == lm.spec_tensor(rm),
            tm.wf(),
            n == lm.nodes.len(),
            composed@ == (LaxGraphModel {
                quotient: tm.quotient + Seq::new(i as nat, |k: int| (lm.targets[k], (rm.sources[k] + n) as usize)),
                ..tm
            }),
            composed@.wf(),
        decreases left_targets - i,
    {
        let u = composed.targets[i];
        let source_count = composed.sources.len();
        assert(source_count == left_sources + rm.sources.len());
        let v = composed.sources[left_sources + i];
        proof {
            assert(tm.targets[i as int] == lm.targets[i as int]);
            assert(tm.sources[left_sources + i] == shifted(rm.sources, n as int)[i as int]);
            assert(composed@.targets[i as int] < composed@.nodes.len());
            assert(composed@.sources[left_sources + i] < composed@.nodes.len());
        }
        let ghost before = composed@;
        composed.unify(u, v);
        proof {
            assert(Seq::new((i + 1) as nat, |k: int| (lm.targets[k], (rm.sources[k] + n) as usize)) =~= Seq::new(
                i as nat,
                |k: int| (lm.targets[k], (rm.sources[k] + n) as usize),
            ).push((u, v)));
            assert(composed@.quotient =~= tm.quotient + Seq::new(
                (i + 1) as nat,
                |k: int| (lm.targets[k], (rm.sources[k] + n) as usize),
            ));
        }
        i = i + 1;
    }
    composed.sources.truncate(left_sources);
    let tail = composed.targets.split_off(left_targets);
    composed.targets = tail;
    proof {
        assert(composed@.sources =~= lm.sources);
        assert(composed@.targets =~= shifted(rm.targets, n as int));
        assert(composed@ =~= lm.spec_compose(rm));
    }
    composed
}

} // verus!
