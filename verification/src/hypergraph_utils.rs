//! Connected components of lax open hypergraphs: two nodes belong together
//! when a hyperedge or an identified pair links them, directly or through
//! other nodes. Components are found with a disjoint-set forest (union by
//! rank, path compression).

use vstd::prelude::*;

use crate::tape_language::lax_graph::{below, LaxGraph, LaxGraphModel};

verus! {

/// The representative reached from `x` by following parents. The levels
/// strictly increase along parents and are bounded by `top`, which makes
/// the walk finite; where they do not, the walk stops.
pub open spec fn root_of(parent: Seq<usize>, level: Seq<nat>, top: nat, x: int) -> int
    decreases top - level[x],
{
    if 0 <= x < parent.len() && parent.len() == level.len() && parent[x] != x && parent[x] < parent.len()
        && level[x] < level[parent[x] as int] && level[parent[x] as int] <= top {
        root_of(parent, level, top, parent[x] as int)
    } else {
        x
    }
}

/// A disjoint-set forest over the numbers below its size.
pub struct DisjointSet {
    parent: Vec<usize>,
    rank: Vec<usize>,
    level: Ghost<Seq<nat>>,
    top: Ghost<nat>,
}

/// Parents name elements, levels strictly increase from an element to its
/// parent, and no level exceeds `top`.
pub open spec fn forest(parent: Seq<usize>, level: Seq<nat>, top: nat) -> bool {
    &&& level.len() == parent.len()
    &&& forall|x: int| 0 <= x < parent.len() ==> (#[trigger] parent[x]) < parent.len()
    &&& forall|x: int| 0 <= x < parent.len() && parent[x] != x ==> level[x] < level[parent[x] as int]
    &&& forall|x: int| 0 <= x < parent.len() ==> #[trigger] level[x] <= top
}

/// In a forest, the root of an element is an element that is its own
/// parent, at a level at least that of the element.
proof fn lemma_root(parent: Seq<usize>, level: Seq<nat>, top: nat, x: int)
    requires
        forest(parent, level, top),
        0 <= x < parent.len(),
    ensures
        0 <= root_of(parent, level, top, x) < parent.len(),
        parent[root_of(parent, level, top, x)] == root_of(parent, level, top, x),
        level[x] <= level[root_of(parent, level, top, x)],
        root_of(parent, level, top, x) != x ==> level[x] < level[root_of(parent, level, top, x)],
    decreases top - level[x],
{
    if parent[x] != x {
        assert(parent[x] < parent.len());
        assert(level[x] < level[parent[x] as int]);
        assert(level[parent[x] as int] <= top);
        lemma_root(parent, level, top, parent[x] as int);
    }
}

/// Pointing an element straight at its root keeps a forest and the root of
/// every element.
proof fn lemma_compress(parent: Seq<usize>, level: Seq<nat>, top: nat, x: int, y: int)
    requires
        forest(parent, level, top),
        0 <= x < parent.len(),
        0 <= y < parent.len(),
    ensures
        forest(parent.update(x, root_of(parent, level, top, x) as usize), level, top),
        root_of(parent.update(x, root_of(parent, level, top, x) as usize), level, top, y) == root_of(
            parent,
            level,
            top,
            y,
        ),
    decreases top - level[y],
{
    let r = root_of(parent, level, top, x);
    lemma_root(parent, level, top, x);
    let p2 = parent.update(x, r as usize);
    assert forall|z: int| 0 <= z < p2.len() && p2[z] != z implies level[z] < level[p2[z] as int] by {
        if z == x {
        } else {
            assert(p2[z] == parent[z]);
        }
    }
    assert forall|z: int| 0 <= z < p2.len() implies (#[trigger] p2[z]) < p2.len() by {
        if z != x {
            assert(p2[z] == parent[z]);
        }
    }
    if parent[y] == y {
        if y == x {
            assert(r == x);
        }
    } else {
        assert(level[y] < level[parent[y] as int]);
        assert(level[parent[y] as int] <= top);
        lemma_compress(parent, level, top, x, parent[y] as int);
        if y == x {
            lemma_root(parent, level, top, y);
            lemma_compress(parent, level, top, x, r);
            lemma_root(p2, level, top, r);
            assert(p2[r] == parent[r] || r == x);
        }
    }
}

/// The level a root takes when another root is put under it.
pub open spec fn raised(level: Seq<nat>, ra: int, rb: int) -> Seq<nat> {
    level.update(ra, if level[ra] > level[rb] {
        level[ra]
    } else {
        level[rb] + 1
    })
}

/// The bound on levels once `ra` has been raised.
pub open spec fn raised_top(level: Seq<nat>, top: nat, ra: int, rb: int) -> nat {
    if raised(level, ra, rb)[ra] > top {
        raised(level, ra, rb)[ra]
    } else {
        top
    }
}

/// Putting the root `rb` under the root `ra`, with `ra` raised above it,
/// keeps a forest; the elements of `rb` now have the root `ra` and the
/// others keep theirs.
proof fn lemma_link(parent: Seq<usize>, level: Seq<nat>, top: nat, ra: int, rb: int, y: int)
    requires
        forest(parent, level, top),
        0 <= ra < parent.len(),
        0 <= rb < parent.len(),
        0 <= y < parent.len(),
        parent[ra] == ra,
        parent[rb] == rb,
        ra != rb,
    ensures
        forest(parent.update(rb, ra as usize), raised(level, ra, rb), raised_top(level, top, ra, rb)),
        root_of(parent.update(rb, ra as usize), raised(level, ra, rb), raised_top(level, top, ra, rb), y) == if root_of(
            parent,
            level,
            top,
            y,
        ) == rb {
            ra
        } else {
            root_of(parent, level, top, y)
        },
    decreases top - level[y],
{
    let p2 = parent.update(rb, ra as usize);
    let l2 = raised(level, ra, rb);
    let t2 = raised_top(level, top, ra, rb);
    assert forall|z: int| 0 <= z < p2.len() implies (#[trigger] p2[z]) < p2.len() by {
        if z != rb {
            assert(p2[z] == parent[z]);
        }
    }
    assert forall|z: int| 0 <= z < p2.len() && p2[z] != z implies l2[z] < l2[p2[z] as int] by {
        if z == rb {
        } else {
            assert(p2[z] == parent[z]);
            assert(parent[z] != z);
            assert(z != ra);
            assert(level[z] < level[parent[z] as int]);
        }
    }
    assert forall|z: int| 0 <= z < p2.len() implies #[trigger] l2[z] <= t2 by {
        assert(level[z] <= top);
    }
    if parent[y] == y {
        assert(root_of(parent, level, top, y) == y);
        if y == rb {
            assert(p2[rb] == ra);
            assert(l2[rb] < l2[ra]);
            assert(l2[ra] <= t2);
            assert(p2[ra] == ra);
            assert(root_of(p2, l2, t2, ra) == ra);
            assert(root_of(p2, l2, t2, rb) == root_of(p2, l2, t2, ra));
        } else {
            assert(p2[y] == y);
            assert(root_of(p2, l2, t2, y) == y);
        }
    } else {
        assert(level[y] < level[parent[y] as int]);
        assert(level[parent[y] as int] <= top);
        assert(y != rb && y != ra);
        assert(p2[y] == parent[y]);
        assert(l2[y] < l2[p2[y] as int]);
        assert(l2[p2[y] as int] <= t2);
        assert(root_of(parent, level, top, y) == root_of(parent, level, top, parent[y] as int));
        assert(root_of(p2, l2, t2, y) == root_of(p2, l2, t2, p2[y] as int));
        lemma_link(parent, level, top, ra, rb, parent[y] as int);
    }
}

impl DisjointSet {
    /// The parents, levels and bound of the forest.
    pub closed spec fn parents(&self) -> Seq<usize> {
        self.parent@
    }

    pub closed spec fn levels(&self) -> Seq<nat> {
        self.level@
    }

    pub closed spec fn bound(&self) -> nat {
        self.top@
    }

    /// The forest is well formed.
    pub closed spec fn wf(&self) -> bool {
        &&& forest(self.parent@, self.level@, self.top@)
        &&& self.rank@.len() == self.parent@.len()
        &&& self.parent@.len() <= usize::MAX
    }

    /// The number of elements.
    pub closed spec fn size(&self) -> nat {
        self.parent@.len()
    }

    /// The representative of `x`.
    pub closed spec fn root(&self, x: int) -> int {
        root_of(self.parent@, self.level@, self.top@, x)
    }

    /// Every element on its own.
    pub fn new(n: usize) -> (r: Self)
        ensures
            r.wf(),
            r.size() == n,
            forall|x: int| 0 <= x < n ==> #[trigger] r.root(x) == x,
    {
        let mut parent: Vec<usize> = Vec::new();
        let mut rank: Vec<usize> = Vec::new();
        let mut i: usize = 0;
        while i < n
            invariant
                i <= n,
                parent@.len() == i,
                rank@.len() == i,
                forall|x: int| 0 <= x < i ==> #[trigger] parent@[x] == x,
            decreases n - i,
        {
            parent.push(i);
            rank.push(0);
            i = i + 1;
        }
        let r = DisjointSet { parent, rank, level: Ghost(Seq::new(n as nat, |x: int| 0nat)), top: Ghost(0nat) };
        assert forall|x: int| 0 <= x < n implies #[trigger] r.root(x) == x by {
            assert(r.parent@[x] == x);
        }
        r
    }

    /// The representative of `x`; every element on the way is pointed
    /// straight at it. No element changes its representative.
    pub fn find(&mut self, x: usize) -> (r: usize)
        requires
            old(self).wf(),
            x < old(self).size(),
        ensures
            final(self).wf(),
            final(self).size() == old(self).size(),
            r == old(self).root(x as int),
            final(self).levels() == old(self).levels(),
            final(self).bound() == old(self).bound(),
            forall|y: int| 0 <= y < old(self).size() ==> #[trigger] final(self).root(y) == old(self).root(y),
        decreases old(self).bound() - old(self).levels()[x as int],
    {
        let p = self.parent[x];
        if p != x {
            proof {
                assert(self.parent@[x as int] < self.parent@.len());
                assert(self.level@[x as int] < self.level@[p as int]);
                assert(self.level@[p as int] <= self.top@);
            }
            let ghost before = *self;
            let r = self.find(p);
            proof {
                assert(r == before.root(x as int));
                assert(self.root(x as int) == before.root(x as int));
                lemma_root(self.parent@, self.level@, self.top@, x as int);
                assert forall|y: int| 0 <= y < self.parent@.len() implies #[trigger] root_of(
                    self.parent@.update(x as int, r),
                    self.level@,
                    self.top@,
                    y,
                ) == root_of(self.parent@, self.level@, self.top@, y) by {
                    lemma_compress(self.parent@, self.level@, self.top@, x as int, y);
                }
                lemma_compress(self.parent@, self.level@, self.top@, x as int, x as int);
            }
            let ghost mid = *self;
            self.parent.set(x, r);
            proof {
                assert(self.parent@ == mid.parent@.update(x as int, r));
                assert forall|y: int| 0 <= y < before.parent@.len() implies #[trigger] self.root(y) == before.root(y) by {
                    lemma_compress(mid.parent@, mid.level@, mid.top@, x as int, y);
                    assert(mid.root(y) == before.root(y));
                }
            }
            r
        } else {
            x
        }
    }

    /// Joins the sets of `a` and `b`: the representative of the set with
    /// the lower rank goes under that of the other.
    pub fn union(&mut self, a: usize, b: usize)
        requires
            old(self).wf(),
            a < old(self).size(),
            b < old(self).size(),
        ensures
            final(self).wf(),
            final(self).size() == old(self).size(),
            forall|y: int, z: int|
                0 <= y < old(self).size() && 0 <= z < old(self).size() ==> ((#[trigger] final(self).root(y)
                    == #[trigger] final(self).root(z)) <==> (old(self).root(y) == old(self).root(z) || (old(
                    self,
                ).root(y) == old(self).root(a as int) && old(self).root(z) == old(self).root(b as int)) || (old(
                    self,
                ).root(y) == old(self).root(b as int) && old(self).root(z) == old(self).root(a as int)))),
    {
        let ghost start = *self;
        proof {
            lemma_root(start.parent@, start.level@, start.top@, a as int);
            lemma_root(start.parent@, start.level@, start.top@, b as int);
        }
        let mut ra = self.find(a);
        let mut rb = self.find(b);
        if ra == rb {
            return;
        }
        if self.rank[ra] < self.rank[rb] {
            let t = ra;
            ra = rb;
            rb = t;
        }
        let ghost mid = *self;
        proof {
            lemma_root(mid.parent@, mid.level@, mid.top@, ra as int);
            lemma_root(mid.parent@, mid.level@, mid.top@, rb as int);
            lemma_root(start.parent@, start.level@, start.top@, a as int);
            lemma_root(start.parent@, start.level@, start.top@, b as int);
            assert(mid.root(ra as int) == ra);
            assert(mid.root(rb as int) == rb);
        }
        self.parent.set(rb, ra);
        let ghost new_level = raised(mid.level@, ra as int, rb as int);
        let ghost new_top = raised_top(mid.level@, mid.top@, ra as int, rb as int);
        self.level = Ghost(new_level);
        self.top = Ghost(new_top);
        if self.rank[ra] == self.rank[rb] && self.rank[ra] < usize::MAX {
            let bumped = self.rank[ra] + 1;
            self.rank.set(ra, bumped);
        }
        proof {
            lemma_link(mid.parent@, mid.level@, mid.top@, ra as int, rb as int, 0);
            assert forall|y: int| 0 <= y < mid.parent@.len() implies #[trigger] self.root(y) == if mid.root(y)
                == rb {
                ra as int
            } else {
                mid.root(y)
            } by {
                lemma_link(mid.parent@, mid.level@, mid.top@, ra as int, rb as int, y);
            }
        }
    }
}

/// The links a hyperedge makes: its first node with each of its other
/// nodes.
pub open spec fn edge_links(nodes: Seq<usize>) -> Seq<(usize, usize)> {
    if nodes.len() == 0 {
        Seq::empty()
    } else {
        Seq::new((nodes.len() - 1) as nat, |i: int| (nodes[0], nodes[i + 1]))
    }
}

/// The links of the hyperedges, edge by edge; each edge's nodes are its
/// sources followed by its targets.
pub open spec fn adjacency_links(adj: Seq<(Seq<usize>, Seq<usize>)>) -> Seq<(usize, usize)>
    decreases adj.len(),
{
    if adj.len() == 0 {
        Seq::empty()
    } else {
        adjacency_links(adj.drop_last()) + edge_links(adj.last().0 + adj.last().1)
    }
}

/// The links of a graph: those of its hyperedges, then its identified
/// pairs.
pub open spec fn graph_links<O, A>(g: LaxGraphModel<O, A>) -> Seq<(usize, usize)> {
    adjacency_links(g.adjacency) + g.quotient
}

/// `f` takes the same value at the two ends of every link.
pub open spec fn respects(links: Seq<(usize, usize)>, f: spec_fn(usize) -> int) -> bool {
    forall|k: int| 0 <= k < links.len() ==> f(#[trigger] links[k].0) == f(links[k].1)
}

/// `x` and `y` are joined by a chain of links: every function that takes
/// the same value at the ends of each link takes the same value at `x` and
/// at `y`.
pub open spec fn linked(links: Seq<(usize, usize)>, x: usize, y: usize) -> bool {
    forall|f: spec_fn(usize) -> int| #[trigger] respects(links, f) ==> f(x) == f(y)
}

proof fn lemma_linked_refl(links: Seq<(usize, usize)>, x: usize)
    ensures
        linked(links, x, x),
{
}

proof fn lemma_linked_sym(links: Seq<(usize, usize)>, x: usize, y: usize)
    requires
        linked(links, x, y),
    ensures
        linked(links, y, x),
{
    assert forall|f: spec_fn(usize) -> int| #[trigger] respects(links, f) implies f(y) == f(x) by {
        assert(f(x) == f(y));
    }
}

proof fn lemma_linked_trans(links: Seq<(usize, usize)>, x: usize, y: usize, z: usize)
    requires
        linked(links, x, y),
        linked(links, y, z),
    ensures
        linked(links, x, z),
{
    assert forall|f: spec_fn(usize) -> int| #[trigger] respects(links, f) implies f(x) == f(z) by {
        assert(f(x) == f(y));
        assert(f(y) == f(z));
    }
}

/// More links keep every chain.
proof fn lemma_linked_more(links: Seq<(usize, usize)>, more: Seq<(usize, usize)>, x: usize, y: usize)
    requires
        linked(links, x, y),
    ensures
        linked(links + more, x, y),
{
    assert forall|f: spec_fn(usize) -> int| #[trigger] respects(links + more, f) implies f(x) == f(y) by {
        assert forall|k: int| 0 <= k < links.len() implies f(#[trigger] links[k].0) == f(links[k].1) by {
            assert((links + more)[k] == links[k]);
        }
        assert(respects(links, f));
    }
}

/// The ends of a link are linked.
proof fn lemma_linked_link(links: Seq<(usize, usize)>, k: int)
    requires
        0 <= k < links.len(),
    ensures
        linked(links, links[k].0, links[k].1),
{
    assert forall|f: spec_fn(usize) -> int| #[trigger] respects(links, f) implies f(links[k].0) == f(links[k].1) by {
    }
}

/// Links that a function of the representatives respects: with every link
/// inside a set, two elements linked through them share a representative.
proof fn lemma_linked_same_root(ds: DisjointSet, links: Seq<(usize, usize)>, x: usize, y: usize)
    requires
        ds.wf(),
        forall|k: int| 0 <= k < links.len() ==> link_inside(ds, #[trigger] links[k]),
        linked(links, x, y),
    ensures
        ds.root(x as int) == ds.root(y as int),
{
    let f = |v: usize| ds.root(v as int);
    assert forall|k: int| 0 <= k < links.len() implies f(#[trigger] links[k].0) == f(links[k].1) by {
        assert(link_inside(ds, links[k]));
    }
    assert(respects(links, f));
}

/// Both ends of a link are elements in the same set.
pub open spec fn link_inside(ds: DisjointSet, p: (usize, usize)) -> bool {
    p.0 < ds.size() && p.1 < ds.size() && ds.root(p.0 as int) == ds.root(p.1 as int)
}

/// A forest whose sets are exactly the classes of `links`.
pub open spec fn sets_are_classes(ds: DisjointSet, links: Seq<(usize, usize)>) -> bool {
    &&& ds.wf()
    &&& forall|k: int| 0 <= k < links.len() ==> link_inside(ds, #[trigger] links[k])
    &&& forall|y: int, z: int|
        0 <= y < ds.size() && 0 <= z < ds.size() && #[trigger] ds.root(y) == #[trigger] ds.root(z) ==> linked(
            links,
            y as usize,
            z as usize,
        )
}

/// Adding a link `(a, b)` with `union(a, b)` keeps the sets the classes.
fn union_link(ds: &mut DisjointSet, links: Ghost<Seq<(usize, usize)>>, a: usize, b: usize)
    requires
        sets_are_classes(*old(ds), links@),
        a < old(ds).size(),
        b < old(ds).size(),
    ensures
        sets_are_classes(*final(ds), links@.push((a, b))),
        final(ds).size() == old(ds).size(),
{
    let ghost before = *ds;
    ds.union(a, b);
    proof {
        let l2 = links@.push((a, b));
        assert(l2 == links@ + seq![(a, b)]);
        assert forall|k: int| 0 <= k < l2.len() implies link_inside(*ds, #[trigger] l2[k]) by {
            if k < links@.len() {
                assert(l2[k] == links@[k]);
                assert(link_inside(before, links@[k]));
                assert(before.root(links@[k].0 as int) == before.root(links@[k].1 as int));
            } else {
                assert(l2[k] == (a, b));
            }
        }
        lemma_linked_link(l2, links@.len() as int);
        assert forall|y: int, z: int|
            0 <= y < ds.size() && 0 <= z < ds.size() && #[trigger] ds.root(y) == #[trigger] ds.root(z) implies linked(
            l2,
            y as usize,
            z as usize,
        ) by {
            let ra = before.root(a as int);
            let rb = before.root(b as int);
            if before.root(y) == before.root(z) {
                lemma_linked_more(links@, seq![(a, b)], y as usize, z as usize);
            } else if before.root(y) == ra && before.root(z) == rb {
                assert(before.root(y) == before.root(a as int));
                assert(before.root(b as int) == before.root(z));
                lemma_linked_more(links@, seq![(a, b)], y as usize, a);
                lemma_linked_more(links@, seq![(a, b)], b, z as usize);
                lemma_linked_trans(l2, y as usize, a, b);
                lemma_linked_trans(l2, y as usize, b, z as usize);
            } else {
                assert(before.root(y) == rb && before.root(z) == ra);
                assert(before.root(y) == before.root(b as int));
                assert(before.root(a as int) == before.root(z));
                lemma_linked_more(links@, seq![(a, b)], y as usize, b);
                lemma_linked_more(links@, seq![(a, b)], a, z as usize);
                lemma_linked_sym(l2, a, b);
                lemma_linked_trans(l2, y as usize, b, a);
                lemma_linked_trans(l2, y as usize, a, z as usize);
            }
        }
        assert(ds.wf());
    }
}

/// The nodes of a hyperedge: its sources, then its targets.
fn edge_nodes(sources: &Vec<usize>, targets: &Vec<usize>) -> (r: Vec<usize>)
    ensures
        r@ == sources@ + targets@,
{
    let mut out: Vec<usize> = Vec::new();
    let mut i: usize = 0;
    while i < sources.len()
        invariant
            i <= sources@.len(),
            out@ =~= sources@.subrange(0, i as int),
        decreases sources@.len() - i,
    {
        out.push(sources[i]);
        i = i + 1;
    }
    let mut j: usize = 0;
    while j < targets.len()
        invariant
            j <= targets@.len(),
            out@ =~= sources@ + targets@.subrange(0, j as int),
        decreases targets@.len() - j,
    {
        out.push(targets[j]);
        j = j + 1;
    }
    proof {
        assert(sources@.subrange(0, sources@.len() as int) =~= sources@);
        assert(targets@.subrange(0, targets@.len() as int) =~= targets@);
    }
    out
}

/// A forest over the nodes of `graph` whose sets are the classes of its
/// links.
fn link_all<O, A>(graph: &LaxGraph<O, A>) -> (r: DisjointSet)
    requires
        graph@.wf(),
    ensures
        r.size() == graph@.nodes.len(),
        sets_are_classes(r, graph_links(graph@)),
{
    let n = graph.nodes.len();
    let mut ds = DisjointSet::new(n);
    let ghost mut links: Seq<(usize, usize)> = Seq::empty();
    proof {
        assert forall|y: int, z: int|
            0 <= y < ds.size() && 0 <= z < ds.size() && #[trigger] ds.root(y) == #[trigger] ds.root(z) implies linked(
            links,
            y as usize,
            z as usize,
        ) by {
            assert(y == z);
            lemma_linked_refl(links, y as usize);
        }
    }
    let mut e: usize = 0;
    while e < graph.adjacency.len()
        invariant
            e <= graph@.adjacency.len(),
            graph@.wf(),
            n == graph@.nodes.len(),
            ds.size() == n,
            links == adjacency_links(graph@.adjacency.subrange(0, e as int)),
            sets_are_classes(ds, links),
        decreases graph@.adjacency.len() - e,
    {
        proof {
            assert(graph@.adjacency[e as int] == (graph.adjacency@[e as int].sources@, graph.adjacency@[e as int].targets@));
            assert(below(graph@.adjacency[e as int].0, n as int));
            assert(below(graph@.adjacency[e as int].1, n as int));
        }
        let nodes = edge_nodes(&graph.adjacency[e].sources, &graph.adjacency[e].targets);
        let ghost start = links;
        if nodes.len() > 0 {
            let first = nodes[0];
            let mut i: usize = 1;
            while i < nodes.len()
                invariant
                    1 <= i <= nodes@.len(),
                    below(nodes@, n as int),
                    ds.size() == n,
                    links == start + edge_links(nodes@).subrange(0, i - 1),
                    sets_are_classes(ds, links),
                    first == nodes@[0],
                decreases nodes@.len() - i,
            {
                union_link(&mut ds, Ghost(links), first, nodes[i]);
                proof {
                    assert(edge_links(nodes@).subrange(0, i as int) =~= edge_links(nodes@).subrange(0, i - 1).push(
                        (first, nodes@[i as int]),
                    ));
                    links = links.push((first, nodes@[i as int]));
                }
                i = i + 1;
            }
            proof {
                assert(edge_links(nodes@).subrange(0, nodes@.len() - 1) =~= edge_links(nodes@));
            }
        } else {
            proof {
                assert(edge_links(nodes@) =~= Seq::<(usize, usize)>::empty());
                assert(links =~= start + edge_links(nodes@));
            }
        }
        proof {
            let adj = graph@.adjacency.subrange(0, e + 1);
            assert(adj.drop_last() =~= graph@.adjacency.subrange(0, e as int));
            assert(adj.last() == graph@.adjacency[e as int]);
        }
        e = e + 1;
    }
    proof {
        assert(graph@.adjacency.subrange(0, graph@.adjacency.len() as int) =~= graph@.adjacency);
    }
    let ghost edge_part = links;
    let mut q: usize = 0;
    while q < graph.quotient.len()
        invariant
            q <= graph@.quotient.len(),
            graph@.wf(),
            n == graph@.nodes.len(),
            ds.size() == n,
            edge_part == adjacency_links(graph@.adjacency),
            links == edge_part + graph@.quotient.subrange(0, q as int),
            sets_are_classes(ds, links),
        decreases graph@.quotient.len() - q,
    {
        let (a, b) = graph.quotient[q];
        proof {
            assert(graph@.quotient[q as int].0 < n && graph@.quotient[q as int].1 < n);
        }
        union_link(&mut ds, Ghost(links), a, b);
        proof {
            assert(graph@.quotient.subrange(0, q + 1) =~= graph@.quotient.subrange(0, q as int).push((a, b)));
            links = links.push((a, b));
        }
        q = q + 1;
    }
    proof {
        assert(graph@.quotient.subrange(0, graph@.quotient.len() as int) =~= graph@.quotient);
    }
    ds
}

/// The components as lists of nodes and the component of each node: every
/// node is in the component of its number, each list is increasing, the
/// lists come in the order of their first nodes, and two nodes are in the
/// same component exactly when the graph's links join them.
pub fn component_nodes<O, A>(graph: &LaxGraph<O, A>) -> (r: (Vec<Vec<usize>>, Vec<usize>))
    requires
        graph@.wf(),
    ensures
        r.1@.len() == graph@.nodes.len(),
        forall|x: int| 0 <= x < graph@.nodes.len() ==> (#[trigger] r.1@[x]) < r.0@.len(),
        forall|c: int|
            0 <= c < r.0@.len() ==> (#[trigger] r.0@[c])@.len() > 0 && forall|i: int, j: int|
                0 <= i < j < r.0@[c]@.len() ==> r.0@[c]@[i] < r.0@[c]@[j],
        forall|c: int, i: int|
            0 <= c < r.0@.len() && 0 <= i < r.0@[c]@.len() ==> (#[trigger] r.0@[c]@[i]) < graph@.nodes.len() && r.1@[r.0@[c]@[i] as int] == c,
        forall|c: int, d: int| 0 <= c < d < r.0@.len() ==> (#[trigger] r.0@[c])@[0] < (#[trigger] r.0@[d])@[0],
        forall|x: int| 0 <= x < graph@.nodes.len() ==> r.0@[(#[trigger] r.1@[x]) as int]@.contains(x as usize),
        forall|x: int, y: int|
            0 <= x < graph@.nodes.len() && 0 <= y < graph@.nodes.len() ==> ((#[trigger] r.1@[x] == #[trigger] r.1@[y])
                <==> linked(graph_links(graph@), x as usize, y as usize)),
{
    let n = graph.nodes.len();
    let mut ds = link_all(graph);
    let ghost classes = ds;
    let ghost links = graph_links(graph@);
    let mut components: Vec<Vec<usize>> = Vec::new();
    let mut node_to_component: Vec<usize> = Vec::new();
    let mut root_to_component: Vec<Option<usize>> = Vec::new();
    let mut i: usize = 0;
    while i < n
        invariant
            i <= n,
            root_to_component@.len() == i,
            forall|r: int| 0 <= r < i ==> #[trigger] root_to_component@[r] is None,
        decreases n - i,
    {
        root_to_component.push(None);
        i = i + 1;
    }
    let mut v: usize = 0;
    while v < n
        invariant
            v <= n,
            n == graph@.nodes.len(),
            ds.wf(),
            ds.size() == n,
            classes.size() == n,
            sets_are_classes(classes, links),
            forall|y: int| 0 <= y < n ==> #[trigger] ds.root(y) == classes.root(y),
            root_to_component@.len() == n,
            node_to_component@.len() == v,
            forall|x: int| 0 <= x < v ==> (#[trigger] node_to_component@[x]) < components@.len(),
            forall|c: int|
                0 <= c < components@.len() ==> (#[trigger] components@[c])@.len() > 0 && forall|i: int, j: int|
                    0 <= i < j < components@[c]@.len() ==> components@[c]@[i] < components@[c]@[j],
            forall|c: int, i: int|
                0 <= c < components@.len() && 0 <= i < components@[c]@.len() ==> (#[trigger] components@[c]@[i]) < v
                    && node_to_component@[components@[c]@[i] as int] == c,
            forall|c: int, d: int| 0 <= c < d < components@.len() ==> (#[trigger] components@[c])@[0] < (#[trigger] components@[d])@[0],
            forall|x: int| 0 <= x < v ==> root_to_component@[classes.root(x)] == Some(#[trigger] node_to_component@[x]),
            forall|x: int| 0 <= x < v ==> components@[(#[trigger] node_to_component@[x]) as int]@.contains(x as usize),
            forall|r: int|
                0 <= r < n && #[trigger] root_to_component@[r] is Some ==> root_to_component@[r]->Some_0 < components@.len(),
            forall|r1: int, r2: int|
                0 <= r1 < n && 0 <= r2 < n && r1 != r2 && (#[trigger] root_to_component@[r1]) is Some && (
                #[trigger] root_to_component@[r2]) is Some ==> root_to_component@[r1]->Some_0 != root_to_component@[r2]->Some_0,
            forall|r: int|
                0 <= r < n && (#[trigger] root_to_component@[r]) is None ==> forall|x: int| 0 <= x < v ==> #[trigger] classes.root(x) != r,
        decreases n - v,
    {
        let root = ds.find(v);
        proof {
            lemma_root(classes.parents(), classes.levels(), classes.bound(), v as int);
            assert(root == classes.root(v as int));
        }
        let ghost before_c = components@;
        let ghost before_m = node_to_component@;
        let ghost before_r = root_to_component@;
        let c = match root_to_component[root] {
            Some(c) => c,
            None => {
                let c = components.len();
                components.push(Vec::new());
                root_to_component.set(root, Some(c));
                c
            },
        };
        let ghost mid_c = components@;
        node_to_component.push(c);
        let mut list = components.remove(c);
        let ghost old_list = list@;
        list.push(v);
        components.insert(c, list);
        proof {
            let k = before_c.len();
            let rv = classes.root(v as int);
            assert(components@.len() == mid_c.len());
            assert(components@[c as int]@ == old_list.push(v));
            assert(forall|d: int| 0 <= d < mid_c.len() && d != c ==> #[trigger] components@[d] == mid_c[d]);
            if before_r[rv] is Some {
                assert(mid_c == before_c);
                assert(c == before_r[rv]->Some_0);
                assert(root_to_component@ == before_r);
            } else {
                assert(mid_c.len() == k + 1);
                assert(forall|d: int| 0 <= d < k ==> #[trigger] mid_c[d] == before_c[d]);
                assert(mid_c[k as int]@.len() == 0);
                assert(c == k);
                assert(old_list.len() == 0);
                assert(root_to_component@ == before_r.update(rv, Some(k as usize)));
            }
            assert forall|x: int| 0 <= x < v + 1 implies (#[trigger] node_to_component@[x]) < components@.len() by {
                if x < v {
                    assert(node_to_component@[x] == before_m[x]);
                }
            }
            assert forall|d: int|
                0 <= d < components@.len() implies (#[trigger] components@[d])@.len() > 0 && forall|i: int, j: int|
                    0 <= i < j < components@[d]@.len() ==> components@[d]@[i] < components@[d]@[j] by {
                if d == c {
                    assert forall|i: int, j: int| 0 <= i < j < components@[d]@.len() implies components@[d]@[i]
                        < components@[d]@[j] by {
                        if j == old_list.len() {
                            assert(components@[d]@[j] == v);
                            assert(old_list[i] == mid_c[d]@[i]);
                            if d < k {
                                assert(before_c[d]@[i] < v);
                            }
                        } else {
                            assert(d < k);
                            assert(components@[d]@[i] == before_c[d]@[i]);
                            assert(components@[d]@[j] == before_c[d]@[j]);
                        }
                    }
                } else {
                    assert(d < k);
                    assert(components@[d] == before_c[d]);
                }
            }
            assert forall|d: int, i: int|
                0 <= d < components@.len() && 0 <= i < components@[d]@.len() implies (#[trigger] components@[d]@[i]) < v + 1
                    && node_to_component@[components@[d]@[i] as int] == d by {
                if d == c && i == old_list.len() {
                    assert(components@[d]@[i] == v);
                } else {
                    assert(d < k);
                    assert(components@[d]@[i] == before_c[d]@[i]);
                    assert(before_c[d]@[i] < v);
                    assert(node_to_component@[before_c[d]@[i] as int] == before_m[before_c[d]@[i] as int]);
                }
            }
            assert forall|d: int, e: int| 0 <= d < e < components@.len() implies (#[trigger] components@[d])@[0]
                < (#[trigger] components@[e])@[0] by {
                if e == k {
                    assert(components@[e]@[0] == v);
                    assert(components@[d]@[0] == before_c[d]@[0]);
                    assert(before_c[d]@[0] < v);
                } else {
                    assert(components@[d]@[0] == before_c[d]@[0]);
                    assert(components@[e]@[0] == before_c[e]@[0]);
                }
            }
            assert forall|x: int| 0 <= x < v + 1 implies components@[(#[trigger] node_to_component@[x]) as int]@.contains(
                x as usize,
            ) by {
                if x < v {
                    assert(node_to_component@[x] == before_m[x]);
                    let d = before_m[x] as int;
                    assert(before_c[d]@.contains(x as usize));
                    let i = choose|i: int| 0 <= i < before_c[d]@.len() && before_c[d]@[i] == x as usize;
                    if d == c {
                        assert(components@[d]@[i] == x as usize);
                    } else {
                        assert(components@[d] == before_c[d]);
                    }
                } else {
                    assert(components@[c as int]@.last() == v);
                }
            }
            assert forall|x: int| 0 <= x < v + 1 implies root_to_component@[classes.root(x)] == Some(
                #[trigger] node_to_component@[x],
            ) by {
                lemma_root(classes.parents(), classes.levels(), classes.bound(), x);
                if x < v {
                    assert(node_to_component@[x] == before_m[x]);
                    assert(before_r[classes.root(x)] == Some(before_m[x]));
                    if before_r[rv] is None {
                        assert(classes.root(x) != rv);
                    }
                } else {
                    assert(x == v);
                    assert(node_to_component@[x] == c);
                }
            }
        }
        v = v + 1;
    }
    proof {
        assert forall|x: int, y: int|
            0 <= x < n && 0 <= y < n implies ((#[trigger] node_to_component@[x] == #[trigger] node_to_component@[y])
                <==> linked(links, x as usize, y as usize)) by {
            lemma_root(classes.parents(), classes.levels(), classes.bound(), x);
            lemma_root(classes.parents(), classes.levels(), classes.bound(), y);
            if node_to_component@[x] == node_to_component@[y] {
                assert(root_to_component@[classes.root(x)] == Some(node_to_component@[x]));
                assert(root_to_component@[classes.root(y)] == Some(node_to_component@[y]));
                assert(classes.root(x) == classes.root(y));
            }
            if linked(links, x as usize, y as usize) {
                lemma_linked_same_root(classes, links, x as usize, y as usize);
            }
        }
    }
    (components, node_to_component)
}

/// The node a hyperedge is filed under: its first source, or else its first
/// target; none for an edge without nodes.
pub open spec fn anchor(adj: (Seq<usize>, Seq<usize>)) -> Option<usize> {
    if adj.0.len() > 0 {
        Some(adj.0[0])
    } else if adj.1.len() > 0 {
        Some(adj.1[0])
    } else {
        None
    }
}

/// The numbers, in increasing order, of the edges among the first `m`
/// that have no node.
pub open spec fn anchorless(adj: Seq<(Seq<usize>, Seq<usize>)>, m: int) -> Seq<usize>
    decreases m,
{
    if m <= 0 {
        Seq::empty()
    } else if anchor(adj[m - 1]) is None {
        anchorless(adj, m - 1).push((m - 1) as usize)
    } else {
        anchorless(adj, m - 1)
    }
}

/// A component: its nodes and the hyperedges filed under them, both in
/// increasing order.
#[derive(Debug, Clone)]
pub struct HypergraphComponent {
    pub nodes: Vec<usize>,
    pub edges: Vec<usize>,
}

/// Some component has the node `x`.
pub open spec fn in_some_component(r: Seq<HypergraphComponent>, x: usize) -> bool {
    exists|c: int| 0 <= c < r.len() && #[trigger] r[c].nodes@.contains(x)
}

/// Some list has the node `x`.
pub open spec fn in_some_list(r: Seq<Vec<usize>>, x: usize) -> bool {
    exists|c: int| 0 <= c < r.len() && #[trigger] r[c]@.contains(x)
}

/// Strictly increasing.
pub open spec fn increasing(s: Seq<usize>) -> bool {
    forall|i: int, j: int| 0 <= i < j < s.len() ==> s[i] < s[j]
}

/// Moves `e` into list number `c`, keeping the other lists.
fn push_into(lists: &mut Vec<Vec<usize>>, c: usize, e: usize)
    requires
        c < old(lists)@.len(),
    ensures
        final(lists)@.len() == old(lists)@.len(),
        final(lists)@[c as int]@ == old(lists)@[c as int]@.push(e),
        forall|d: int| 0 <= d < old(lists)@.len() && d != c ==> #[trigger] final(lists)@[d] == old(lists)@[d],
{
    let mut list = lists.remove(c);
    list.push(e);
    lists.insert(c, list);
}

/// The components of the graph with their hyperedges: first one component
/// per class of linked nodes, in the order of their first nodes, each with
/// the edges filed under its nodes; then one component without nodes for
/// each edge without nodes, in order.
pub fn connected_components_with_edges<O, A>(graph: &LaxGraph<O, A>) -> (r: Vec<HypergraphComponent>)
    requires
        graph@.wf(),
    ensures
        r@.len() >= anchorless(graph@.adjacency, graph@.adjacency.len() as int).len(),
        forall|c: int|
            0 <= c < r@.len() ==> increasing((#[trigger] r@[c]).nodes@) && increasing(r@[c].edges@) && below(
                r@[c].nodes@,
                graph@.nodes.len() as int,
            ),
        forall|c: int|
            0 <= c < r@.len() ==> ((#[trigger] r@[c]).nodes@.len() > 0 <==> c < r@.len() - anchorless(
                graph@.adjacency,
                graph@.adjacency.len() as int,
            ).len()),
        forall|c: int, d: int|
            0 <= c < d < r@.len() && (#[trigger] r@[d]).nodes@.len() > 0 ==> (#[trigger] r@[c]).nodes@[0] < r@[d].nodes@[0],
        forall|c: int, x: int|
            #![trigger r@[c].nodes@.contains(x as usize)]
            #![trigger linked(graph_links(graph@), x as usize, r@[c].nodes@[0])]
            0 <= c < r@.len() && r@[c].nodes@.len() > 0 && 0 <= x < graph@.nodes.len() ==> (r@[c].nodes@.contains(
                x as usize,
            ) <==> linked(graph_links(graph@), x as usize, r@[c].nodes@[0])),
        forall|x: int| 0 <= x < graph@.nodes.len() ==> #[trigger] in_some_component(r@, x as usize),
        forall|c: int, e: int|
            #![trigger r@[c].edges@.contains(e as usize)]
            #![trigger r@[c], graph@.adjacency[e]]
            0 <= c < r@.len() && r@[c].nodes@.len() > 0 && 0 <= e < graph@.adjacency.len() ==> (r@[c].edges@.contains(
                e as usize,
            ) <==> (anchor(graph@.adjacency[e]) is Some && linked(
                graph_links(graph@),
                anchor(graph@.adjacency[e])->Some_0,
                r@[c].nodes@[0],
            ))),
        forall|c: int|
            0 <= c < r@.len() && (#[trigger] r@[c]).nodes@.len() == 0 ==> r@[c].edges@ == seq![
                anchorless(graph@.adjacency, graph@.adjacency.len() as int)[c - (r@.len() - anchorless(
                    graph@.adjacency,
                    graph@.adjacency.len() as int,
                ).len())],
            ],
{
    let (mut components, node_to_component) = component_nodes(graph);
    let ghost comps = components@;
    let ghost map = node_to_component@;
    let ghost links = graph_links(graph@);
    let ghost adj = graph@.adjacency;
    let k = components.len();
    let mut edge_components: Vec<Vec<usize>> = Vec::new();
    let mut i: usize = 0;
    while i < k
        invariant
            i <= k,
            edge_components@.len() == i,
            forall|c: int| 0 <= c < i ==> (#[trigger] edge_components@[c])@.len() == 0,
        decreases k - i,
    {
        edge_components.push(Vec::new());
        i = i + 1;
    }
    let mut edge_only: Vec<usize> = Vec::new();
    let mut e: usize = 0;
    while e < graph.adjacency.len()
        invariant
            e <= adj.len(),
            adj == graph@.adjacency,
            graph@.wf(),
            k == comps.len(),
            map.len() == graph@.nodes.len(),
            node_to_component@ == map,
            forall|x: int| 0 <= x < graph@.nodes.len() ==> (#[trigger] map[x]) < k,
            edge_components@.len() == k,
            forall|c: int| 0 <= c < k ==> increasing((#[trigger] edge_components@[c])@) && below(edge_components@[c]@, e as int),
            forall|c: int, f: int|
                #![trigger edge_components@[c]@.contains(f as usize)]
                0 <= c < k && 0 <= f < e ==> (edge_components@[c]@.contains(f as usize) <==> (anchor(
                    adj[f],
                ) is Some && map[anchor(adj[f])->Some_0 as int] == c)),
            edge_only@ == anchorless(adj, e as int),
        decreases adj.len() - e,
    {
        proof {
            assert(adj[e as int] == (graph.adjacency@[e as int].sources@, graph.adjacency@[e as int].targets@));
            assert(below(adj[e as int].0, graph@.nodes.len() as int));
            assert(below(adj[e as int].1, graph@.nodes.len() as int));
        }
        let ghost before = edge_components@;
        let anchor_node: Option<usize> = if graph.adjacency[e].sources.len() > 0 {
            Some(graph.adjacency[e].sources[0])
        } else if graph.adjacency[e].targets.len() > 0 {
            Some(graph.adjacency[e].targets[0])
        } else {
            None
        };
        proof {
            assert(anchor_node == anchor(adj[e as int]));
        }
        match anchor_node {
            Some(a) => {
                let c = node_to_component[a];
                push_into(&mut edge_components, c, e);
                proof {
                    assert forall|d: int| 0 <= d < k implies increasing((#[trigger] edge_components@[d])@) && below(
                        edge_components@[d]@,
                        e + 1,
                    ) by {
                        if d != c {
                            assert(edge_components@[d] == before[d]);
                        } else {
                            assert(below(before[d]@, e as int));
                        }
                    }
                    assert forall|d: int, f: int|
                        #![trigger edge_components@[d]@.contains(f as usize)]
                        0 <= d < k && 0 <= f < e + 1 implies (edge_components@[d]@.contains(
                        f as usize,
                    ) <==> (anchor(adj[f]) is Some && map[anchor(adj[f])->Some_0 as int] == d)) by {
                        if d != c {
                            assert(edge_components@[d] == before[d]);
                            if f == e {
                                assert(!before[d]@.contains(e));
                            }
                        } else {
                            let l1 = before[d]@;
                            let l2 = edge_components@[d]@;
                            assert(l2 == l1.push(e));
                            if f < e {
                                if l1.contains(f as usize) {
                                    let i = choose|i: int| 0 <= i < l1.len() && l1[i] == f as usize;
                                    assert(l2[i] == f as usize);
                                }
                                if l2.contains(f as usize) {
                                    let i = choose|i: int| 0 <= i < l2.len() && l2[i] == f as usize;
                                    if i < l1.len() {
                                        assert(l1[i] == f as usize);
                                    } else {
                                        assert(l2[i] == e);
                                    }
                                }
                            } else {
                                assert(edge_components@[d]@.last() == e);
                            }
                        }
                    }
                }
            },
            None => {
                edge_only.push(e);
                proof {
                    assert forall|d: int| 0 <= d < k implies increasing((#[trigger] edge_components@[d])@) && below(
                        edge_components@[d]@,
                        e + 1,
                    ) by {
                        assert(below(before[d]@, e as int));
                    }
                    assert forall|d: int, f: int|
                        #![trigger edge_components@[d]@.contains(f as usize)]
                        0 <= d < k && 0 <= f < e + 1 implies (edge_components@[d]@.contains(
                        f as usize,
                    ) <==> (anchor(adj[f]) is Some && map[anchor(adj[f])->Some_0 as int] == d)) by {
                        if f == e {
                            assert(!before[d]@.contains(e));
                        }
                    }
                }
            },
        }
        e = e + 1;
    }
    let ghost edges_of = edge_components@;
    let mut out: Vec<HypergraphComponent> = Vec::new();
    let mut c: usize = 0;
    while c < k
        invariant
            c <= k,
            k == comps.len(),
            k == edges_of.len(),
            components@ == comps.subrange(c as int, k as int),
            edge_components@ == edges_of.subrange(c as int, k as int),
            out@.len() == c,
            forall|d: int| 0 <= d < c ==> (#[trigger] out@[d]).nodes == comps[d] && out@[d].edges == edges_of[d],
        decreases k - c,
    {
        let nodes = components.remove(0);
        let edges = edge_components.remove(0);
        out.push(HypergraphComponent { nodes, edges });
        proof {
            assert(components@ =~= comps.subrange(c + 1, k as int));
            assert(edge_components@ =~= edges_of.subrange(c + 1, k as int));
        }
        c = c + 1;
    }
    let mut j: usize = 0;
    while j < edge_only.len()
        invariant
            j <= edge_only@.len(),
            out@.len() == k + j,
            forall|d: int| 0 <= d < k ==> (#[trigger] out@[d]).nodes == comps[d] && out@[d].edges == edges_of[d],
            forall|d: int| k <= d < k + j ==> (#[trigger] out@[d]).nodes@.len() == 0 && out@[d].edges@ == seq![edge_only@[d - k]],
        decreases edge_only@.len() - j,
    {
        let mut single: Vec<usize> = Vec::new();
        single.push(edge_only[j]);
        out.push(HypergraphComponent { nodes: Vec::new(), edges: single });
        j = j + 1;
    }
    proof {
        assert(graph.adjacency@.len() <= usize::MAX);
        lemma_anchorless_bounds(adj, adj.len() as int);
        assert forall|c: int| 0 <= c < out@.len() implies increasing((#[trigger] out@[c]).nodes@) && increasing(
            out@[c].edges@,
        ) && below(out@[c].nodes@, graph@.nodes.len() as int) by {
            if c < k {
                assert(comps[c]@.len() > 0);
                assert forall|i: int| 0 <= i < comps[c]@.len() implies #[trigger] comps[c]@[i] < graph@.nodes.len() by {
                }
            }
        }
        assert forall|c: int, x: int|
            #![trigger out@[c].nodes@.contains(x as usize)]
            #![trigger linked(links, x as usize, out@[c].nodes@[0])]
            0 <= c < out@.len() && out@[c].nodes@.len() > 0 && 0 <= x < graph@.nodes.len() implies (
            out@[c].nodes@.contains(x as usize) <==> linked(links, x as usize, out@[c].nodes@[0])) by {
            assert(c < k);
            let first = comps[c]@[0];
            assert(map[first as int] == c);
            if comps[c]@.contains(x as usize) {
                let i = choose|i: int| 0 <= i < comps[c]@.len() && comps[c]@[i] == x as usize;
                assert(map[comps[c]@[i] as int] == c);
            } else {
                if linked(links, x as usize, first) {
                    assert(map[x] == map[first as int]);
                    assert(map[x] == c);
                    assert(comps[map[x] as int]@.contains(x as usize));
                }
            }
        }
        assert forall|x: int| 0 <= x < graph@.nodes.len() implies #[trigger] in_some_component(out@, x as usize) by {
            let c = map[x] as int;
            assert(comps[c]@.contains(x as usize));
            assert(out@[c].nodes@.contains(x as usize));
        }
        assert forall|c: int, e: int|
            #![trigger out@[c].edges@.contains(e as usize)]
            #![trigger out@[c], adj[e]]
            0 <= c < out@.len() && out@[c].nodes@.len() > 0 && 0 <= e < adj.len() implies (out@[c].edges@.contains(
            e as usize,
        ) <==> (anchor(adj[e]) is Some && linked(links, anchor(adj[e])->Some_0, out@[c].nodes@[0]))) by {
            assert(c < k);
            let first = comps[c]@[0];
            assert(map[first as int] == c);
            if anchor(adj[e]) is Some {
                let a = anchor(adj[e])->Some_0;
                assert(adj[e] == (graph.adjacency@[e].sources@, graph.adjacency@[e].targets@));
                assert(below(adj[e].0, graph@.nodes.len() as int));
                assert(below(adj[e].1, graph@.nodes.len() as int));
                assert(a < graph@.nodes.len());
            }
        }
    }
    out
}

/// The edges without nodes are increasing and below `m`.
proof fn lemma_anchorless_bounds(adj: Seq<(Seq<usize>, Seq<usize>)>, m: int)
    requires
        0 <= m <= adj.len(),
        adj.len() <= usize::MAX,
    ensures
        increasing(anchorless(adj, m)),
        forall|i: int| 0 <= i < anchorless(adj, m).len() ==> (#[trigger] anchorless(adj, m)[i]) < m,
        forall|i: int|
            0 <= i < anchorless(adj, m).len() ==> anchor(adj[#[trigger] anchorless(adj, m)[i] as int]) is None,
    decreases m,
{
    if m > 0 {
        lemma_anchorless_bounds(adj, m - 1);
    }
}

/// The node lists of the components (see `connected_components_with_edges`):
/// one increasing list per class of linked nodes, in the order of their
/// first nodes, then an empty list for each edge without nodes.
pub fn connected_components<O, A>(graph: &LaxGraph<O, A>) -> (r: Vec<Vec<usize>>)
    requires
        graph@.wf(),
    ensures
        r@.len() >= anchorless(graph@.adjacency, graph@.adjacency.len() as int).len(),
        forall|c: int|
            0 <= c < r@.len() ==> increasing((#[trigger] r@[c])@) && below(r@[c]@, graph@.nodes.len() as int),
        forall|c: int|
            0 <= c < r@.len() ==> ((#[trigger] r@[c])@.len() > 0 <==> c < r@.len() - anchorless(
                graph@.adjacency,
                graph@.adjacency.len() as int,
            ).len()),
        forall|c: int, d: int| 0 <= c < d < r@.len() && (#[trigger] r@[d])@.len() > 0 ==> (#[trigger] r@[c])@[0] < r@[d]@[0],
        forall|c: int, x: int|
            #![trigger r@[c]@.contains(x as usize)]
            #![trigger linked(graph_links(graph@), x as usize, r@[c]@[0])]
            0 <= c < r@.len() && r@[c]@.len() > 0 && 0 <= x < graph@.nodes.len() ==> (r@[c]@.contains(x as usize)
                <==> linked(graph_links(graph@), x as usize, r@[c]@[0])),
        forall|x: int| 0 <= x < graph@.nodes.len() ==> #[trigger] in_some_list(r@, x as usize),
{
    let mut components = connected_components_with_edges(graph);
    let ghost all = components@;
    let mut out: Vec<Vec<usize>> = Vec::new();
    let mut i: usize = 0;
    let total = components.len();
    while i < total
        invariant
            i <= total,
            total == all.len(),
            components@ == all.subrange(i as int, total as int),
            out@.len() == i,
            forall|d: int| 0 <= d < i ==> #[trigger] out@[d] == all[d].nodes,
        decreases total - i,
    {
        let component = components.remove(0);
        out.push(component.nodes);
        proof {
            assert(components@ =~= all.subrange(i + 1, total as int));
        }
        i = i + 1;
    }
    proof {
        assert forall|c: int, x: int|
            #![trigger out@[c]@.contains(x as usize)]
            #![trigger linked(graph_links(graph@), x as usize, out@[c]@[0])]
            0 <= c < out@.len() && out@[c]@.len() > 0 && 0 <= x < graph@.nodes.len() implies (out@[c]@.contains(
            x as usize,
        ) <==> linked(graph_links(graph@), x as usize, out@[c]@[0])) by {
            assert(out@[c] == all[c].nodes);
            assert(all[c].nodes@.contains(x as usize) <==> linked(graph_links(graph@), x as usize, all[c].nodes@[0]));
        }
        assert forall|x: int| 0 <= x < graph@.nodes.len() implies #[trigger] in_some_list(out@, x as usize) by {
            assert(in_some_component(all, x as usize));
            let c = choose|c: int| 0 <= c < all.len() && #[trigger] all[c].nodes@.contains(x as usize);
            assert(out@[c] == all[c].nodes);
        }
        assert forall|c: int, d: int| 0 <= c < d < out@.len() && (#[trigger] out@[d])@.len() > 0 implies (
        #[trigger] out@[c])@[0] < out@[d]@[0] by {
            assert(out@[c] == all[c].nodes);
            assert(out@[d] == all[d].nodes);
        }
    }
    out
}

} // verus!
