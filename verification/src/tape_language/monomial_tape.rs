//! Tapes read as morphisms between monomials, and the labels of the
//! hypergraphs that draw them: every node carries a monomial context and
//! says whether it sits in an additive or a multiplicative tensor.

use vstd::prelude::*;

use super::builders::monomial_atoms;
use super::circuit::Circuit;
use super::drawing::{
    circuit_drawing, circuit_fresh, circuit_wires, drawn_inputs, drawn_outputs, fresh_views, labels_of, tape_fresh,
    tape_wires, wiring_model,
};
use super::lax_graph::{
    below, compose_lax_unchecked, lemma_relabel_constructions, relabel, span, span_vec, LaxGraph, LaxGraphModel,
};
use super::tape::{tape_io, Tape};
use super::text::Text;
use super::validate::TapeValidationError;
use super::whisk::is_product_of;
use super::{monomial_view, monomial_views, GeneratorShape, GeneratorTypes, Monomial};
use crate::label::{FreshSort, Label};

verus! {

/// A tape that cannot be read as a morphism between monomials.
#[derive(Debug, Clone, PartialEq, Eq, Structural)]
pub enum MonomialTapeError {
    NonMonomialArity { inputs: usize, outputs: usize },
}

/// The two tensors of the tape language.
#[derive(Debug, Clone, Copy, PartialEq, Eq, Hash, Structural)]
pub enum TensorKind {
    Additive,
    Multiplicative,
}

/// The other tensor.
pub open spec fn flip(kind: TensorKind) -> TensorKind {
    match kind {
        TensorKind::Additive => TensorKind::Multiplicative,
        TensorKind::Multiplicative => TensorKind::Additive,
    }
}

/// Flipping twice gives the tensor back, and a flip never keeps it.
pub proof fn law_flip_involutive(kind: TensorKind)
    ensures
        flip(flip(kind)) == kind,
        flip(kind) != kind,
{
}

impl TensorKind {
    /// The other tensor.
    pub fn flipped(self) -> (r: Self)
        ensures
            r == flip(self),
            r != self,
    {
        match self {
            TensorKind::Additive => TensorKind::Multiplicative,
            TensorKind::Multiplicative => TensorKind::Additive,
        }
    }
}

/// A hypergraph node: a monomial context in one of the two tensors.
#[derive(Debug)]
pub struct MonomialHyperNode<S> {
    pub tensor_kind: TensorKind,
    pub context: Monomial<S>,
}

impl<S> MonomialHyperNode<S> {
    pub fn new(tensor_kind: TensorKind, context: Monomial<S>) -> (r: Self)
        ensures
            r == (MonomialHyperNode { tensor_kind, context }),
    {
        MonomialHyperNode { tensor_kind, context }
    }
}

/// Two nodes are equal when they are in the same tensor and their contexts
/// have the same sorts.
pub open spec fn node_eq<S: DeepView>(a: MonomialHyperNode<S>, b: MonomialHyperNode<S>) -> bool {
    a.tensor_kind == b.tensor_kind && monomial_view(a.context).sorts() == monomial_view(b.context).sorts()
}

impl<S: Label> MonomialHyperNode<S> {
    /// A copy of the node with a context of the same view.
    pub fn duplicate(&self) -> (r: Self)
        ensures
            r.tensor_kind == self.tensor_kind,
            monomial_view(r.context) == monomial_view(self.context),
    {
        MonomialHyperNode { tensor_kind: self.tensor_kind, context: self.context.duplicate() }
    }
}

impl<S: Label> Clone for MonomialHyperNode<S> {
    fn clone(&self) -> (r: Self)
        ensures
            r.tensor_kind == self.tensor_kind,
            monomial_view(r.context) == monomial_view(self.context),
    {
        self.duplicate()
    }
}

impl<S: Label> PartialEq for MonomialHyperNode<S> {
    fn eq(&self, other: &Self) -> (r: bool) {
        self.tensor_kind == other.tensor_kind && super::monomial_equals(&self.context, &other.context)
    }
}

impl<S: Label> vstd::std_specs::cmp::PartialEqSpecImpl for MonomialHyperNode<S> {
    open spec fn obeys_eq_spec() -> bool {
        true
    }

    open spec fn eq_spec(&self, other: &Self) -> bool {
        node_eq(*self, *other)
    }
}

impl<S: Label> Eq for MonomialHyperNode<S> {
}

/// A hyperedge: a generator, one of the structural boxes of circuits and
/// tapes, or a change of tensor on a monomial context.
#[derive(Debug)]
pub enum MonomialTapeEdge<S, G> {
    Generator(G),
    CircuitCopy,
    CircuitDiscard,
    CircuitJoin,
    TapeDiscard,
    TapeSplit,
    TapeCreate,
    TapeMerge,
    FromAddToMul(Monomial<S>),
    FromMulToAdd(Monomial<S>),
}

impl<S, G> MonomialTapeEdge<S, G> {
    /// Every edge stands for one box.
    pub fn multiplicity(&self) -> (r: usize)
        ensures
            r == 1,
    {
        1
    }
}

impl<S: Label, G: Label> MonomialTapeEdge<S, G> {
    /// A copy of the edge whose parts have the same views.
    pub fn duplicate(&self) -> (r: Self)
        ensures
            edge_same(r, *self),
    {
        match self {
            MonomialTapeEdge::Generator(g) => MonomialTapeEdge::Generator(g.duplicate()),
            MonomialTapeEdge::CircuitCopy => MonomialTapeEdge::CircuitCopy,
            MonomialTapeEdge::CircuitDiscard => MonomialTapeEdge::CircuitDiscard,
            MonomialTapeEdge::CircuitJoin => MonomialTapeEdge::CircuitJoin,
            MonomialTapeEdge::TapeDiscard => MonomialTapeEdge::TapeDiscard,
            MonomialTapeEdge::TapeSplit => MonomialTapeEdge::TapeSplit,
            MonomialTapeEdge::TapeCreate => MonomialTapeEdge::TapeCreate,
            MonomialTapeEdge::TapeMerge => MonomialTapeEdge::TapeMerge,
            MonomialTapeEdge::FromAddToMul(m) => MonomialTapeEdge::FromAddToMul(m.duplicate()),
            MonomialTapeEdge::FromMulToAdd(m) => MonomialTapeEdge::FromMulToAdd(m.duplicate()),
        }
    }
}

/// Two edges of the same variant whose parts have the same views.
pub open spec fn edge_same<S: DeepView, G: DeepView>(a: MonomialTapeEdge<S, G>, b: MonomialTapeEdge<S, G>) -> bool {
    match a {
        MonomialTapeEdge::Generator(x) => b matches MonomialTapeEdge::Generator(y) && x.deep_view() == y.deep_view(),
        MonomialTapeEdge::FromAddToMul(x) => b matches MonomialTapeEdge::FromAddToMul(y) && monomial_view(x) == monomial_view(y),
        MonomialTapeEdge::FromMulToAdd(x) => b matches MonomialTapeEdge::FromMulToAdd(y) && monomial_view(x) == monomial_view(y),
        MonomialTapeEdge::CircuitCopy => b is CircuitCopy,
        MonomialTapeEdge::CircuitDiscard => b is CircuitDiscard,
        MonomialTapeEdge::CircuitJoin => b is CircuitJoin,
        MonomialTapeEdge::TapeDiscard => b is TapeDiscard,
        MonomialTapeEdge::TapeSplit => b is TapeSplit,
        MonomialTapeEdge::TapeCreate => b is TapeCreate,
        MonomialTapeEdge::TapeMerge => b is TapeMerge,
    }
}

impl<S: Label, G: Label> Clone for MonomialTapeEdge<S, G> {
    fn clone(&self) -> (r: Self)
        ensures
            edge_same(r, *self),
    {
        self.duplicate()
    }
}

impl<S: Label, G: Label> PartialEq for MonomialTapeEdge<S, G> {
    fn eq(&self, other: &Self) -> (r: bool) {
        match self {
            MonomialTapeEdge::Generator(x) => match other {
                MonomialTapeEdge::Generator(y) => x.equals(y),
                _ => false,
            },
            MonomialTapeEdge::FromAddToMul(x) => match other {
                MonomialTapeEdge::FromAddToMul(y) => super::monomial_equals(x, y),
                _ => false,
            },
            MonomialTapeEdge::FromMulToAdd(x) => match other {
                MonomialTapeEdge::FromMulToAdd(y) => super::monomial_equals(x, y),
                _ => false,
            },
            MonomialTapeEdge::CircuitCopy => matches!(other, MonomialTapeEdge::CircuitCopy),
            MonomialTapeEdge::CircuitDiscard => matches!(other, MonomialTapeEdge::CircuitDiscard),
            MonomialTapeEdge::CircuitJoin => matches!(other, MonomialTapeEdge::CircuitJoin),
            MonomialTapeEdge::TapeDiscard => matches!(other, MonomialTapeEdge::TapeDiscard),
            MonomialTapeEdge::TapeSplit => matches!(other, MonomialTapeEdge::TapeSplit),
            MonomialTapeEdge::TapeCreate => matches!(other, MonomialTapeEdge::TapeCreate),
            MonomialTapeEdge::TapeMerge => matches!(other, MonomialTapeEdge::TapeMerge),
        }
    }
}

/// Edges are equal when they are of the same variant, generators with equal
/// views and contexts with the same sorts.
pub open spec fn edge_eq<S: DeepView, G: DeepView>(a: MonomialTapeEdge<S, G>, b: MonomialTapeEdge<S, G>) -> bool {
    match a {
        MonomialTapeEdge::Generator(x) => b matches MonomialTapeEdge::Generator(y) && x.deep_view() == y.deep_view(),
        MonomialTapeEdge::FromAddToMul(x) => b matches MonomialTapeEdge::FromAddToMul(y)
            && monomial_view(x).sorts() == monomial_view(y).sorts(),
        MonomialTapeEdge::FromMulToAdd(x) => b matches MonomialTapeEdge::FromMulToAdd(y)
            && monomial_view(x).sorts() == monomial_view(y).sorts(),
        MonomialTapeEdge::CircuitCopy => b is CircuitCopy,
        MonomialTapeEdge::CircuitDiscard => b is CircuitDiscard,
        MonomialTapeEdge::CircuitJoin => b is CircuitJoin,
        MonomialTapeEdge::TapeDiscard => b is TapeDiscard,
        MonomialTapeEdge::TapeSplit => b is TapeSplit,
        MonomialTapeEdge::TapeCreate => b is TapeCreate,
        MonomialTapeEdge::TapeMerge => b is TapeMerge,
    }
}

impl<S: Label, G: Label> vstd::std_specs::cmp::PartialEqSpecImpl for MonomialTapeEdge<S, G> {
    open spec fn obeys_eq_spec() -> bool {
        true
    }

    open spec fn eq_spec(&self, other: &Self) -> bool {
        edge_eq(*self, *other)
    }
}

/// A tape read as a morphism from one monomial to another.
#[derive(Debug)]
pub struct MonomialTape<S, G> {
    tape: Tape<S, G>,
}

impl<S, G> MonomialTape<S, G> {
    /// The tape inside.
    pub closed spec fn spec_tape(&self) -> Tape<S, G> {
        self.tape
    }

    pub fn into_inner(self) -> (r: Tape<S, G>)
        ensures
            r == self.spec_tape(),
    {
        self.tape
    }

    pub fn as_tape(&self) -> (r: &Tape<S, G>)
        ensures
            *r == self.spec_tape(),
    {
        &self.tape
    }

    /// Wraps a tape; every tape is accepted.
    pub fn try_from_tape(tape: Tape<S, G>) -> (r: Result<Self, MonomialTapeError>)
        ensures
            r matches Ok(m) && m.spec_tape() == tape,
    {
        Ok(MonomialTape { tape })
    }

    /// Sequential composition of the tapes inside.
    pub fn seq(left: MonomialTape<S, G>, right: MonomialTape<S, G>) -> (r: MonomialTape<S, G>)
        ensures
            r.spec_tape() == Tape::spec_seq(left.spec_tape(), right.spec_tape()),
    {
        MonomialTape { tape: Tape::seq(left.tape, right.tape) }
    }
}

impl<S: Label, G: GeneratorTypes<S>> MonomialTape<S, G> {
    /// The first input and the first output monomial of the tape.
    pub fn io_monomials(&self) -> (r: Result<(Monomial<S>, Monomial<S>), MonomialTapeError>)
        requires
            tape_io(self.spec_tape()) is Some,
            tape_io(self.spec_tape()).unwrap().0.len() > 0,
            tape_io(self.spec_tape()).unwrap().1.len() > 0,
        ensures
            r matches Ok((i, o)) && monomial_view(i) == tape_io(self.spec_tape()).unwrap().0[0]
                && monomial_view(o) == tape_io(self.spec_tape()).unwrap().1[0],
    {
        match self.tape.io_types() {
            Some((inputs, outputs)) => {
                proof {
                    assert(monomial_views(inputs@)[0] == monomial_view(inputs@[0]));
                    assert(monomial_views(outputs@)[0] == monomial_view(outputs@[0]));
                }
                Ok((inputs[0].duplicate(), outputs[0].duplicate()))
            },
            None => {
                proof {
                    assert(false);
                }
                Err(MonomialTapeError::NonMonomialArity { inputs: 0, outputs: 0 })
            },
        }
    }
}

impl<S: Label + Text, G: Label + GeneratorTypes<S> + Text> MonomialTape<S, G> {
    /// The product of the tapes inside (see `Tape::product`).
    pub fn product(left: &MonomialTape<S, G>, right: &MonomialTape<S, G>) -> (r: Result<
        MonomialTape<S, G>,
        TapeValidationError<S>,
    >)
        requires
            tape_io(left.spec_tape()) is Some,
            tape_io(right.spec_tape()) is Some,
        ensures
            match r {
                Ok(m) => is_product_of(left.spec_tape(), right.spec_tape(), m.spec_tape())
                    && tape_io(m.spec_tape()) is Some,
                Err(_) => exists|t: Tape<S, G>|
                    is_product_of(left.spec_tape(), right.spec_tape(), t) && tape_io(t) is None,
            },
    {
        match Tape::product(&left.tape, &right.tape) {
            Ok(tape) => Ok(MonomialTape { tape }),
            Err(e) => Err(e),
        }
    }
}

/// The graph over monomial nodes and tape edges that draws a monomial tape.
pub type MonomialDrawing<S, G> = LaxGraph<MonomialHyperNode<S>, MonomialTapeEdge<S, G>>;

/// The view of a node: its tensor and the view of its context.
pub open spec fn node_view<S: DeepView>(n: MonomialHyperNode<S>) -> (TensorKind, Monomial<S::V>) {
    (n.tensor_kind, monomial_view(n.context))
}

/// The view of an edge: the same box over the views of its labels.
pub open spec fn edge_view<S: DeepView, G: DeepView>(e: MonomialTapeEdge<S, G>) -> MonomialTapeEdge<S::V, G::V> {
    match e {
        MonomialTapeEdge::Generator(g) => MonomialTapeEdge::Generator(g.deep_view()),
        MonomialTapeEdge::CircuitCopy => MonomialTapeEdge::CircuitCopy,
        MonomialTapeEdge::CircuitDiscard => MonomialTapeEdge::CircuitDiscard,
        MonomialTapeEdge::CircuitJoin => MonomialTapeEdge::CircuitJoin,
        MonomialTapeEdge::TapeDiscard => MonomialTapeEdge::TapeDiscard,
        MonomialTapeEdge::TapeSplit => MonomialTapeEdge::TapeSplit,
        MonomialTapeEdge::TapeCreate => MonomialTapeEdge::TapeCreate,
        MonomialTapeEdge::TapeMerge => MonomialTapeEdge::TapeMerge,
        MonomialTapeEdge::FromAddToMul(m) => MonomialTapeEdge::FromAddToMul(monomial_view(m)),
        MonomialTapeEdge::FromMulToAdd(m) => MonomialTapeEdge::FromMulToAdd(monomial_view(m)),
    }
}

/// A monomial drawing with its nodes and edges taken by their views.
pub open spec fn monomial_drawing_view<S: DeepView, G: DeepView>(
    m: LaxGraphModel<MonomialHyperNode<S>, MonomialTapeEdge<S, G>>,
) -> LaxGraphModel<(TensorKind, Monomial<S::V>), MonomialTapeEdge<S::V, G::V>> {
    relabel(m, |n: MonomialHyperNode<S>| node_view(n), |e: MonomialTapeEdge<S, G>| edge_view(e))
}

/// One node per sort, as a one-sort context in the tensor `kind`.
pub open spec fn kind_atoms<T>(kind: TensorKind, sorts: Seq<T>) -> Seq<(TensorKind, Monomial<T>)> {
    sorts.map_values(|s: T| (kind, Monomial::Atom(s)))
}

/// The box that moves a context out of the tensor `from`.
pub open spec fn conversion_edge<T, H>(from: TensorKind, m: Monomial<T>) -> MonomialTapeEdge<T, H> {
    match from {
        TensorKind::Additive => MonomialTapeEdge::FromAddToMul(m),
        TensorKind::Multiplicative => MonomialTapeEdge::FromMulToAdd(m),
    }
}

/// For each context, in order, a node in the tensor `from`, a node in the
/// tensor `to`, and a change of tensor from the first to the second; the
/// first nodes are the sources and the second ones the targets.
pub open spec fn conversion_model<T, H>(contexts: Seq<Monomial<T>>, from: TensorKind, to: TensorKind) -> LaxGraphModel<
    (TensorKind, Monomial<T>),
    MonomialTapeEdge<T, H>,
> {
    LaxGraphModel {
        nodes: Seq::new(
            2 * contexts.len(),
            |i: int|
                (
                    if i % 2 == 0 {
                        from
                    } else {
                        to
                    },
                    contexts[i / 2],
                ),
        ),
        edges: Seq::new(contexts.len(), |k: int| conversion_edge::<T, H>(from, contexts[k])),
        adjacency: Seq::new(contexts.len(), |k: int| (seq![(2 * k) as usize], seq![(2 * k + 1) as usize])),
        quotient: Seq::empty(),
        sources: Seq::new(contexts.len(), |k: int| (2 * k) as usize),
        targets: Seq::new(contexts.len(), |k: int| (2 * k + 1) as usize),
    }
}

/// A part drawn in the tensor `intrinsic`, seen from the tensor
/// `boundary`: when they differ, every interface node goes through a change
/// of tensor, the sources on the way in and the targets on the way out.
pub open spec fn adapt_model<T, H>(
    g: LaxGraphModel<(TensorKind, Monomial<T>), MonomialTapeEdge<T, H>>,
    boundary: TensorKind,
    intrinsic: TensorKind,
) -> LaxGraphModel<(TensorKind, Monomial<T>), MonomialTapeEdge<T, H>> {
    if boundary == intrinsic {
        g
    } else {
        let sc = labels_of(g.nodes, g.sources).map_values(|n: (TensorKind, Monomial<T>)| n.1);
        let tc = labels_of(g.nodes, g.targets).map_values(|n: (TensorKind, Monomial<T>)| n.1);
        conversion_model::<T, H>(sc, boundary, intrinsic).spec_compose(g).spec_compose(
            conversion_model::<T, H>(tc, intrinsic, boundary),
        )
    }
}

/// The drawing of a circuit over monomial nodes: its drawing with each
/// sort as a one-sort context in the multiplicative tensor and each
/// generator as a generator box.
pub open spec fn circuit_monomial_drawing<S: FreshSort, G: DeepView + GeneratorShape + GeneratorTypes<S>>(
    c: Circuit<S, G>,
    next: nat,
) -> LaxGraphModel<(TensorKind, Monomial<S::V>), MonomialTapeEdge<S::V, G::V>> {
    relabel(
        circuit_drawing(c, next),
        |s: S::V| (TensorKind::Multiplicative, Monomial::Atom(s)),
        |g: G::V| MonomialTapeEdge::<S::V, G::V>::Generator(g),
    )
}

/// The drawing of a tape over monomial nodes with its interfaces in the
/// tensor `kind`: identities and swaps are wirings of one-sort nodes in
/// `kind`; an embedded circuit is its circuit's drawing, and a structural
/// box a wiring of additive nodes, each seen from `kind`; a trace
/// identifies the first wires of its tape's interfaces; sequences compose
/// and products and sums put drawings side by side. Made-up sorts are
/// numbered from `next` on.
pub open spec fn tape_monomial_drawing<S: FreshSort, G: DeepView + GeneratorShape + GeneratorTypes<S>>(
    t: Tape<S, G>,
    kind: TensorKind,
    next: nat,
) -> LaxGraphModel<(TensorKind, Monomial<S::V>), MonomialTapeEdge<S::V, G::V>>
    decreases t,
{
    match t {
        Tape::Id(m) => LaxGraphModel::spec_identity(kind_atoms(kind, monomial_view(m).sorts())),
        Tape::IdZero => LaxGraphModel::spec_empty(),
        Tape::EmbedCircuit(c) => adapt_model(circuit_monomial_drawing(*c, next), kind, TensorKind::Multiplicative),
        Tape::Swap { left, right } => {
            let a = kind_atoms(kind, monomial_view(left).sorts());
            let b = kind_atoms(kind, monomial_view(right).sorts());
            let n = (a.len() + b.len()) as int;
            wiring_model(a + b, span(0, n), span(a.len() as int, n) + span(0, a.len() as int))
        },
        Tape::Trace { around, tape } => {
            let inner = tape_monomial_drawing(*tape, kind, next);
            let k = monomial_view(around).sorts().len() as int;
            LaxGraphModel {
                quotient: inner.quotient + Seq::new(k as nat, |i: int| (inner.sources[i], inner.targets[i])),
                sources: inner.sources.skip(k),
                targets: inner.targets.skip(k),
                ..inner
            }
        },
        Tape::Sequence(l, r) => tape_monomial_drawing(*l, kind, next).spec_compose(
            tape_monomial_drawing(*r, kind, next + tape_fresh(*l)),
        ),
        Tape::Product(l, r) => tape_monomial_drawing(*l, kind, next).spec_tensor(
            tape_monomial_drawing(*r, kind, next + tape_fresh(*l)),
        ),
        Tape::Sum(l, r) => tape_monomial_drawing(*l, kind, next).spec_tensor(
            tape_monomial_drawing(*r, kind, next + tape_fresh(*l)),
        ),
        Tape::Discard(m) => {
            let a = kind_atoms(TensorKind::Additive, monomial_view(m).sorts());
            adapt_model(wiring_model(a, span(0, a.len() as int), Seq::empty()), kind, TensorKind::Additive)
        },
        Tape::Split(m) => {
            let a = kind_atoms(TensorKind::Additive, monomial_view(m).sorts());
            let n = a.len() as int;
            adapt_model(wiring_model(a, span(0, n), span(0, n) + span(0, n)), kind, TensorKind::Additive)
        },
        Tape::Create(m) => {
            let a = kind_atoms(TensorKind::Additive, monomial_view(m).sorts());
            adapt_model(wiring_model(a, Seq::empty(), span(0, a.len() as int)), kind, TensorKind::Additive)
        },
        Tape::Merge(m) => {
            let a = kind_atoms(TensorKind::Additive, monomial_view(m).sorts());
            let n = a.len() as int;
            adapt_model(wiring_model(a, span(0, n) + span(0, n), span(0, n)), kind, TensorKind::Additive)
        },
    }
}

/// One node per atom of `mono`, in the tensor `kind`.
fn atomic_nodes<S: Label>(mono: &Monomial<S>, kind: TensorKind) -> (r: Vec<MonomialHyperNode<S>>)
    ensures
        r@.len() == monomial_view(*mono).sorts().len(),
        r@.map_values(|n: MonomialHyperNode<S>| node_view(n)) == kind_atoms(kind, monomial_view(*mono).sorts()),
{
    let atoms = monomial_atoms(mono);
    let ghost vs = monomial_view(*mono).sorts();
    proof {
        assert(monomial_views(atoms@).len() == atoms@.len());
    }
    let mut out: Vec<MonomialHyperNode<S>> = Vec::new();
    let mut i: usize = 0;
    while i < atoms.len()
        invariant
            i <= atoms@.len(),
            atoms@.len() == vs.len(),
            monomial_views(atoms@) == vs.map_values(|s: S::V| Monomial::Atom(s)),
            out@.len() == i,
            out@.map_values(|n: MonomialHyperNode<S>| node_view(n)) =~= kind_atoms(kind, vs.subrange(0, i as int)),
        decreases atoms@.len() - i,
    {
        let ghost before = out@;
        let node = MonomialHyperNode::new(kind, atoms[i].duplicate());
        out.push(node);
        proof {
            assert(monomial_views(atoms@)[i as int] == monomial_view(atoms@[i as int]));
            assert(out@.map_values(|n: MonomialHyperNode<S>| node_view(n)) =~= before.map_values(
                |n: MonomialHyperNode<S>| node_view(n),
            ).push((kind, Monomial::Atom(vs[i as int]))));
            assert(kind_atoms(kind, vs.subrange(0, i + 1)) =~= kind_atoms(kind, vs.subrange(0, i as int)).push(
                (kind, Monomial::Atom(vs[i as int])),
            ));
        }
        i = i + 1;
    }
    proof {
        assert(vs.subrange(0, vs.len() as int) =~= vs);
    }
    out
}

/// One node per sort, as a one-sort context in the tensor `kind`.
fn atomic_nodes_from_sorts<S: Label>(sorts: Vec<S>, kind: TensorKind) -> (r: Vec<MonomialHyperNode<S>>)
    ensures
        r@.len() == sorts@.len(),
        r@.map_values(|n: MonomialHyperNode<S>| node_view(n)) == kind_atoms(kind, sorts.deep_view()),
{
    let ghost vs = sorts.deep_view();
    let mut out: Vec<MonomialHyperNode<S>> = Vec::new();
    let mut i: usize = 0;
    while i < sorts.len()
        invariant
            i <= sorts@.len(),
            vs == sorts.deep_view(),
            out@.len() == i,
            out@.map_values(|n: MonomialHyperNode<S>| node_view(n)) =~= kind_atoms(kind, vs.subrange(0, i as int)),
        decreases sorts@.len() - i,
    {
        let ghost before = out@;
        out.push(MonomialHyperNode::new(kind, Monomial::Atom(sorts[i].duplicate())));
        proof {
            assert(vs[i as int] == sorts@[i as int].deep_view());
            assert(out@.map_values(|n: MonomialHyperNode<S>| node_view(n)) =~= before.map_values(
                |n: MonomialHyperNode<S>| node_view(n),
            ).push((kind, Monomial::Atom(vs[i as int]))));
            assert(kind_atoms(kind, vs.subrange(0, i + 1)) =~= kind_atoms(kind, vs.subrange(0, i as int)).push(
                (kind, Monomial::Atom(vs[i as int])),
            ));
        }
        i = i + 1;
    }
    proof {
        assert(vs.subrange(0, vs.len() as int) =~= vs);
    }
    out
}

/// A graph whose nodes are `nodes`, with the given interfaces and no edge.
fn interface_graph<O, A>(nodes: Vec<O>, sources: Vec<usize>, targets: Vec<usize>) -> (r: LaxGraph<O, A>)
    requires
        below(sources@, nodes@.len() as int),
        below(targets@, nodes@.len() as int),
    ensures
        r@.wf(),
        r@ == wiring_model::<O, A>(nodes@, sources@, targets@),
{
    let mut graph = LaxGraph::empty();
    graph.nodes = nodes;
    graph.sources = sources;
    graph.targets = targets;
    proof {
        assert(graph@ =~= wiring_model::<O, A>(nodes@, sources@, targets@));
    }
    graph
}

/// The edge changes the context `ctx` from the tensor `from` to the other
/// one.
pub open spec fn converts<S: DeepView, G>(e: MonomialTapeEdge<S, G>, from: TensorKind, ctx: Monomial<S::V>) -> bool {
    match from {
        TensorKind::Additive => e matches MonomialTapeEdge::FromAddToMul(m) && monomial_view(m) == ctx,
        TensorKind::Multiplicative => e matches MonomialTapeEdge::FromMulToAdd(m) && monomial_view(m) == ctx,
    }
}

/// The contexts of the nodes numbered by `ids`.
fn interface_contexts<S: Label, G>(graph: &MonomialDrawing<S, G>, ids: &Vec<usize>) -> (r: Vec<Monomial<S>>)
    requires
        below(ids@, graph@.nodes.len() as int),
    ensures
        r@.len() == ids@.len(),
        forall|k: int| 0 <= k < ids@.len() ==> monomial_view(#[trigger] r@[k]) == monomial_view(
            graph@.nodes[ids@[k] as int].context,
        ),
{
    let mut out: Vec<Monomial<S>> = Vec::new();
    let mut i: usize = 0;
    while i < ids.len()
        invariant
            i <= ids@.len(),
            below(ids@, graph@.nodes.len() as int),
            out@.len() == i,
            forall|k: int| 0 <= k < i ==> monomial_view(#[trigger] out@[k]) == monomial_view(
                graph@.nodes[ids@[k] as int].context,
            ),
        decreases ids@.len() - i,
    {
        out.push(graph.nodes[ids[i]].context.duplicate());
        i = i + 1;
    }
    out
}

/// For each context, an edge that moves it from the tensor `from` to the
/// tensor `to`; the sources are the nodes before the change and the targets
/// those after, in the order of `contexts`.
fn conversion_graph<S: Label, G: DeepView>(contexts: &Vec<Monomial<S>>, from: TensorKind, to: TensorKind) -> (r:
    MonomialDrawing<S, G>)
    ensures
        r@.wf(),
        monomial_drawing_view(r@) == conversion_model::<S::V, G::V>(monomial_views(contexts@), from, to),
{
    let ghost cs = monomial_views(contexts@);
    let mut graph: MonomialDrawing<S, G> = LaxGraph::empty();
    let mut sources: Vec<usize> = Vec::new();
    let mut targets: Vec<usize> = Vec::new();
    let mut i: usize = 0;
    proof {
        let m0 = conversion_model::<S::V, G::V>(cs.take(0), from, to);
        let v = monomial_drawing_view(graph@);
        assert(v.nodes =~= m0.nodes);
        assert(v.edges =~= m0.edges);
        assert(v.adjacency =~= m0.adjacency);
        assert(v.quotient =~= m0.quotient);
        assert(v =~= (LaxGraphModel { sources: Seq::empty(), targets: Seq::empty(), ..m0 }));
        assert(sources@ =~= m0.sources);
        assert(targets@ =~= m0.targets);
    }
    while i < contexts.len()
        invariant
            i <= contexts@.len(),
            cs == monomial_views(contexts@),
            graph@.wf(),
            graph@.sources.len() == 0,
            graph@.targets.len() == 0,
            graph@.nodes.len() == 2 * i,
            monomial_drawing_view(graph@) == (LaxGraphModel {
                sources: Seq::empty(),
                targets: Seq::empty(),
                ..conversion_model::<S::V, G::V>(cs.take(i as int), from, to)
            }),
            sources@ == conversion_model::<S::V, G::V>(cs.take(i as int), from, to).sources,
            targets@ == conversion_model::<S::V, G::V>(cs.take(i as int), from, to).targets,
        decreases contexts@.len() - i,
    {
        let ghost before = graph@;
        let source = graph.new_node(MonomialHyperNode::new(from, contexts[i].duplicate()));
        let target = graph.new_node(MonomialHyperNode::new(to, contexts[i].duplicate()));
        let edge = match from {
            TensorKind::Additive => MonomialTapeEdge::FromAddToMul(contexts[i].duplicate()),
            TensorKind::Multiplicative => MonomialTapeEdge::FromMulToAdd(contexts[i].duplicate()),
        };
        let ghost e = edge;
        let ghost mid = graph@;
        let edge_sources = vec![source];
        let edge_targets = vec![target];
        proof {
            assert(edge_sources@ =~= seq![source]);
            assert(edge_targets@ =~= seq![target]);
        }
        graph.new_edge(edge, edge_sources, edge_targets);
        sources.push(source);
        targets.push(target);
        proof {
            let m0 = conversion_model::<S::V, G::V>(cs.take(i as int), from, to);
            let m1 = conversion_model::<S::V, G::V>(cs.take(i + 1), from, to);
            let c = cs[i as int];
            assert(cs.take(i + 1)[i as int] == c);
            assert(forall|k: int| 0 <= k < i ==> cs.take(i + 1)[k] == cs.take(i as int)[k]);
            assert(edge_view(e) == conversion_edge::<S::V, G::V>(from, c));
            let v = monomial_drawing_view(graph@);
            assert(v.nodes =~= m1.nodes) by {
                assert forall|j: int| 0 <= j < 2 * (i + 1) implies v.nodes[j] == m1.nodes[j] by {
                    if j < 2 * i {
                        assert(v.nodes[j] == monomial_drawing_view(before).nodes[j]);
                        assert(j / 2 < i);
                    } else if j == 2 * i {
                        assert(j % 2 == 0 && j / 2 == i);
                    } else {
                        assert(j % 2 == 1 && j / 2 == i);
                    }
                }
            }
            let vb = monomial_drawing_view(before);
            assert(source == 2 * i && target == 2 * i + 1);
            assert(v.edges =~= vb.edges.push(edge_view(e)));
            assert(m1.edges =~= m0.edges.push(conversion_edge::<S::V, G::V>(from, c)));
            assert(v.edges =~= m1.edges);
            assert(v.adjacency =~= vb.adjacency.push((seq![source], seq![target])));
            assert(m1.adjacency =~= m0.adjacency.push((seq![(2 * i) as usize], seq![(2 * i + 1) as usize])));
            assert(v.adjacency =~= m1.adjacency);
            assert(v =~= (LaxGraphModel { sources: Seq::empty(), targets: Seq::empty(), ..m1 }));
            assert(sources@ =~= m1.sources);
            assert(targets@ =~= m1.targets);
        }
        i = i + 1;
    }
    let ghost built = graph@;
    let r = LaxGraph {
        nodes: graph.nodes,
        edges: graph.edges,
        adjacency: graph.adjacency,
        quotient: graph.quotient,
        sources,
        targets,
    };
    proof {
        assert(cs.take(contexts@.len() as int) =~= cs);
        assert(r@ == (LaxGraphModel { sources: sources@, targets: targets@, ..built }));
        assert(monomial_drawing_view(r@) =~= conversion_model::<S::V, G::V>(cs, from, to));
        assert forall|k: int| 0 <= k < r@.sources.len() implies #[trigger] r@.sources[k] < r@.nodes.len() by {}
        assert forall|k: int| 0 <= k < r@.targets.len() implies #[trigger] r@.targets[k] < r@.nodes.len() by {}
    }
    r
}

/// The graph of a part drawn in the tensor `intrinsic`, seen from the
/// tensor `boundary`: when the two differ, each interface node goes through
/// a change of tensor.
fn adapt_boundary_kind<S: Label, G: DeepView>(graph: MonomialDrawing<S, G>, boundary: TensorKind, intrinsic: TensorKind) -> (r:
    MonomialDrawing<S, G>)
    requires
        graph@.wf(),
    ensures
        r@.wf(),
        monomial_drawing_view(r@) == adapt_model(monomial_drawing_view(graph@), boundary, intrinsic),
{
    if boundary == intrinsic {
        return graph;
    }
    let source_contexts = interface_contexts(&graph, &graph.sources);
    let target_contexts = interface_contexts(&graph, &graph.targets);
    let into = conversion_graph(&source_contexts, boundary, intrinsic);
    let out_of = conversion_graph(&target_contexts, intrinsic, boundary);
    let ghost g = graph@;
    let ghost im = into@;
    let ghost om = out_of@;
    proof {
        let gv = monomial_drawing_view(g);
        assert(monomial_views(source_contexts@) =~= labels_of(gv.nodes, gv.sources).map_values(
            |n: (TensorKind, Monomial<S::V>)| n.1,
        ));
        assert(monomial_views(target_contexts@) =~= labels_of(gv.nodes, gv.targets).map_values(
            |n: (TensorKind, Monomial<S::V>)| n.1,
        ));
    }
    let inner = compose_lax_unchecked(into, graph);
    let ghost inm = inner@;
    let r = compose_lax_unchecked(inner, out_of);
    proof {
        let fnv = |n: MonomialHyperNode<S>| node_view(n);
        let fev = |e: MonomialTapeEdge<S, G>| edge_view(e);
        lemma_relabel_constructions(im, g, fnv, fev);
        lemma_relabel_constructions(inm, om, fnv, fev);
    }
    r
}

/// Two copies of the numbers `0, .., n - 1`, one after the other.
fn twice_ids(n: usize) -> (r: Vec<usize>)
    ensures
        r@ == span(0, n as int) + span(0, n as int),
{
    let mut first = span_vec(0, n);
    let mut second = span_vec(0, n);
    first.append(&mut second);
    first
}

impl<S: Label + FreshSort, G: Label + GeneratorShape + GeneratorTypes<S>> Circuit<S, G> {
    /// The circuit drawn over multiplicative monomial nodes, with made-up
    /// sorts, numbered from `*next` on, for wires of generators whose sorts
    /// are not known.
    pub fn to_monomial_hypergraph(&self, next: &mut usize) -> (r: MonomialDrawing<S, G>)
        requires
            circuit_wires(*self) is Some,
            *old(next) + circuit_fresh(*self) <= usize::MAX,
        ensures
            r@.wf(),
            monomial_drawing_view(r@) == circuit_monomial_drawing(*self, *old(next) as nat),
            circuit_wires(*self) == Some((r@.sources.len(), r@.targets.len())),
            *final(next) == *old(next) + circuit_fresh(*self),
        decreases self,
    {
        let kind = TensorKind::Multiplicative;
        let ghost start = *next as nat;
        let ghost fnv = |n: MonomialHyperNode<S>| node_view(n);
        let ghost fev = |e: MonomialTapeEdge<S, G>| edge_view(e);
        let ghost fa = |s: S::V| (TensorKind::Multiplicative, Monomial::Atom(s));
        let ghost fg = |g: G::V| MonomialTapeEdge::<S::V, G::V>::Generator(g);
        let ghost cd = circuit_drawing(*self, start);
        match self {
            Circuit::Id(sort) => {
                let nodes = vec![MonomialHyperNode::new(kind, Monomial::Atom(sort.duplicate()))];
                let r = LaxGraph::identity(nodes);
                proof {
                    lemma_relabel_constructions(r@, r@, fnv, fev);
                    lemma_relabel_constructions(cd, cd, fa, fg);
                    assert(nodes@.map_values(fnv) =~= seq![sort.deep_view()].map_values(fa));
                }
                r
            },
            Circuit::IdOne => {
                let r = LaxGraph::empty();
                proof {
                    lemma_relabel_constructions(r@, r@, fnv, fev);
                    lemma_relabel_constructions(cd, cd, fa, fg);
                }
                r
            },
            Circuit::Generator(g) => {
                let inputs = match g.input_types() {
                    Some(types) => types,
                    None => fresh_sort_vec(next, g.arity()),
                };
                let outputs = match g.output_types() {
                    Some(types) => types,
                    None => fresh_sort_vec(next, g.coarity()),
                };
                let ghost (iv, ov) = (inputs.deep_view(), outputs.deep_view());
                let label = g.duplicate();
                let ins = atomic_nodes_from_sorts(inputs, kind);
                let outs = atomic_nodes_from_sorts(outputs, kind);
                let r = LaxGraph::singleton(MonomialTapeEdge::Generator(label), ins, outs);
                proof {
                    lemma_relabel_constructions(r@, r@, fnv, fev);
                    lemma_relabel_constructions(cd, cd, fa, fg);
                    assert(iv == drawn_inputs::<S, G>(*g, start));
                    assert(ov == drawn_outputs::<S, G>(*g, start));
                    assert(kind_atoms(kind, iv) =~= iv.map_values(fa));
                    assert(kind_atoms(kind, ov) =~= ov.map_values(fa));
                }
                r
            },
            Circuit::Swap { left, right } => {
                let nodes = vec![
                    MonomialHyperNode::new(kind, Monomial::Atom(left.duplicate())),
                    MonomialHyperNode::new(kind, Monomial::Atom(right.duplicate())),
                ];
                let r = interface_graph(nodes, vec![0, 1], vec![1, 0]);
                proof {
                    assert(r@.nodes.map_values(|n: MonomialHyperNode<S>| node_view(n)) =~= cd.nodes.map_values(fa));
                    assert(r@.sources =~= cd.sources);
                    assert(r@.targets =~= cd.targets);
                    lemma_wiring_view(r@, cd, fa, fg);
                }
                r
            },
            Circuit::Sequence(left, right) => {
                let left_graph = left.to_monomial_hypergraph(next);
                let right_graph = right.to_monomial_hypergraph(next);
                let ghost (lg, rg) = (left_graph@, right_graph@);
                let r = compose_lax_unchecked(left_graph, right_graph);
                proof {
                    lemma_relabel_constructions(lg, rg, fnv, fev);
                    lemma_relabel_constructions(
                        circuit_drawing(**left, start),
                        circuit_drawing(**right, start + circuit_fresh(**left)),
                        fa,
                        fg,
                    );
                }
                r
            },
            Circuit::Product(left, right) => {
                let left_graph = left.to_monomial_hypergraph(next);
                let right_graph = right.to_monomial_hypergraph(next);
                let ghost (lg, rg) = (left_graph@, right_graph@);
                let r = left_graph.tensor(right_graph);
                proof {
                    lemma_relabel_constructions(lg, rg, fnv, fev);
                    lemma_relabel_constructions(
                        circuit_drawing(**left, start),
                        circuit_drawing(**right, start + circuit_fresh(**left)),
                        fa,
                        fg,
                    );
                }
                r
            },
            Circuit::Copy(sort) => {
                let r = interface_graph(
                    vec![MonomialHyperNode::new(kind, Monomial::Atom(sort.duplicate()))],
                    vec![0],
                    vec![0, 0],
                );
                proof {
                    assert(r@.nodes.map_values(|n: MonomialHyperNode<S>| node_view(n)) =~= cd.nodes.map_values(fa));
                    assert(r@.sources =~= cd.sources);
                    assert(r@.targets =~= cd.targets);
                    lemma_wiring_view(r@, cd, fa, fg);
                }
                r
            },
            Circuit::Discard(sort) => {
                let r = interface_graph(
                    vec![MonomialHyperNode::new(kind, Monomial::Atom(sort.duplicate()))],
                    vec![0],
                    Vec::new(),
                );
                proof {
                    assert(r@.nodes.map_values(|n: MonomialHyperNode<S>| node_view(n)) =~= cd.nodes.map_values(fa));
                    assert(r@.sources =~= cd.sources);
                    assert(r@.targets =~= cd.targets);
                    lemma_wiring_view(r@, cd, fa, fg);
                }
                r
            },
            Circuit::Join(sort) => {
                let r = interface_graph(
                    vec![MonomialHyperNode::new(kind, Monomial::Atom(sort.duplicate()))],
                    vec![0, 0],
                    vec![0],
                );
                proof {
                    assert(r@.nodes.map_values(|n: MonomialHyperNode<S>| node_view(n)) =~= cd.nodes.map_values(fa));
                    assert(r@.sources =~= cd.sources);
                    assert(r@.targets =~= cd.targets);
                    lemma_wiring_view(r@, cd, fa, fg);
                }
                r
            },
        }
    }
}

/// An edgeless monomial drawing whose nodes and interfaces are those of an
/// edgeless circuit drawing, relabelled, has the relabelled view.
proof fn lemma_wiring_view<S: DeepView, G: DeepView>(
    m: LaxGraphModel<MonomialHyperNode<S>, MonomialTapeEdge<S, G>>,
    cd: LaxGraphModel<S::V, G::V>,
    fa: spec_fn(S::V) -> (TensorKind, Monomial<S::V>),
    fg: spec_fn(G::V) -> MonomialTapeEdge<S::V, G::V>,
)
    requires
        m.edges.len() == 0,
        m.adjacency.len() == 0,
        m.quotient.len() == 0,
        cd.edges.len() == 0,
        cd.adjacency.len() == 0,
        cd.quotient.len() == 0,
        m.nodes.map_values(|n: MonomialHyperNode<S>| node_view(n)) == cd.nodes.map_values(fa),
        m.sources == cd.sources,
        m.targets == cd.targets,
    ensures
        monomial_drawing_view(m) == relabel(cd, fa, fg),
{
    let v = monomial_drawing_view(m);
    let w = relabel(cd, fa, fg);
    assert(v.nodes =~= w.nodes);
    assert(v.edges =~= w.edges);
    assert(v.adjacency =~= w.adjacency);
    assert(v.quotient =~= w.quotient);
    assert(v =~= w);
}

/// `count` made-up sorts numbered from `*next` on.
fn fresh_sort_vec<S: FreshSort>(next: &mut usize, count: usize) -> (r: Vec<S>)
    requires
        *old(next) + count <= usize::MAX,
    ensures
        r@.len() == count,
        r.deep_view() == fresh_views::<S>(*old(next) as nat, count as nat),
        *final(next) == *old(next) + count,
{
    let mut out: Vec<S> = Vec::new();
    let mut i: usize = 0;
    while i < count
        invariant
            i <= count,
            out@.len() == i,
            out.deep_view() =~= fresh_views::<S>(*old(next) as nat, i as nat),
            *next == *old(next) + i,
            *old(next) + count <= usize::MAX,
        decreases count - i,
    {
        let ghost before = out.deep_view();
        out.push(S::fresh_sort(*next));
        proof {
            assert(out.deep_view() =~= before.push(S::spec_fresh_sort(*next)));
            assert(fresh_views::<S>(*old(next) as nat, (i + 1) as nat) =~= fresh_views::<S>(
                *old(next) as nat,
                i as nat,
            ).push(S::spec_fresh_sort(*next)));
        }
        *next = *next + 1;
        i = i + 1;
    }
    out
}

/// The tape drawn with its interfaces in the tensor `boundary`: circuits
/// are drawn in the multiplicative tensor and the structural boxes of tapes
/// in the additive one, each with changes of tensor at its interface where
/// it differs from `boundary`.
/// The graph with its first `k` sources identified with its first `k`
/// targets, which leave the interfaces.
pub fn close_trace<O, A>(graph: LaxGraph<O, A>, k: usize) -> (r: LaxGraph<O, A>)
    requires
        graph@.wf(),
        k <= graph@.sources.len(),
        k <= graph@.targets.len(),
    ensures
        r@.wf(),
        r@ == (LaxGraphModel {
            quotient: graph@.quotient + Seq::new(k as nat, |i: int| (graph@.sources[i], graph@.targets[i])),
            sources: graph@.sources.skip(k as int),
            targets: graph@.targets.skip(k as int),
            ..graph@
        }),
{
    let ghost start_model = graph@;
    let mut graph = graph;
    let mut i: usize = 0;
    while i < k
        invariant
            i <= k,
            k <= start_model.sources.len(),
            k <= start_model.targets.len(),
            graph@.wf(),
            graph@.sources == start_model.sources,
            graph@.targets == start_model.targets,
            graph@.nodes == start_model.nodes,
            graph@.edges == start_model.edges,
            graph@.adjacency == start_model.adjacency,
            graph@.quotient == start_model.quotient + Seq::new(
                i as nat,
                |j: int| (start_model.sources[j], start_model.targets[j]),
            ),
        decreases k - i,
    {
        let u = graph.sources[i];
        let v = graph.targets[i];
        graph.unify(u, v);
        proof {
            assert(start_model.quotient + Seq::new((i + 1) as nat, |j: int| (start_model.sources[j], start_model.targets[j]))
                =~= (start_model.quotient + Seq::new(
                i as nat,
                |j: int| (start_model.sources[j], start_model.targets[j]),
            )).push((u, v)));
        }
        i = i + 1;
    }
    let ghost unified = graph@;
    let sources = graph.sources.split_off(k);
    let targets = graph.targets.split_off(k);
    let r = LaxGraph {
        nodes: graph.nodes,
        edges: graph.edges,
        adjacency: graph.adjacency,
        quotient: graph.quotient,
        sources,
        targets,
    };
    proof {
        assert(sources@ =~= start_model.sources.skip(k as int));
        assert(targets@ =~= start_model.targets.skip(k as int));
        assert(r@ == (LaxGraphModel { sources: sources@, targets: targets@, ..unified }));
        assert(below(r@.sources, r@.nodes.len() as int));
        assert(below(r@.targets, r@.nodes.len() as int));
    }
    r
}

/// The view of a graph without hyperedges is the same wiring over the
/// views of its nodes.
proof fn lemma_view_wiring<S: DeepView, G: DeepView>(
    nodes: Seq<MonomialHyperNode<S>>,
    sources: Seq<usize>,
    targets: Seq<usize>,
)
    ensures
        monomial_drawing_view(wiring_model::<MonomialHyperNode<S>, MonomialTapeEdge<S, G>>(nodes, sources, targets))
            == wiring_model::<(TensorKind, Monomial<S::V>), MonomialTapeEdge<S::V, G::V>>(
            nodes.map_values(|n: MonomialHyperNode<S>| node_view(n)),
            sources,
            targets,
        ),
{
    let v = monomial_drawing_view(wiring_model::<MonomialHyperNode<S>, MonomialTapeEdge<S, G>>(nodes, sources, targets));
    let w = wiring_model::<(TensorKind, Monomial<S::V>), MonomialTapeEdge<S::V, G::V>>(
        nodes.map_values(|n: MonomialHyperNode<S>| node_view(n)),
        sources,
        targets,
    );
    assert(v.edges =~= w.edges);
    assert(v =~= w);
}

/// The tape drawn with its interfaces in the tensor `boundary`: circuits
/// are drawn in the multiplicative tensor and the structural boxes of tapes
/// in the additive one, each with changes of tensor at its interface where
/// it differs from `boundary`.
#[verifier::spinoff_prover]
#[verifier::rlimit(60)]
pub fn translate_tape<S: Label + FreshSort, G: Label + GeneratorShape + GeneratorTypes<S>>(
    tape: &Tape<S, G>,
    boundary: TensorKind,
    next: &mut usize,
) -> (r: MonomialDrawing<S, G>)
    requires
        tape_wires(*tape) is Some,
        *old(next) + tape_fresh(*tape) <= usize::MAX,
    ensures
        r@.wf(),
        monomial_drawing_view(r@) == tape_monomial_drawing(*tape, boundary, *old(next) as nat),
        tape_wires(*tape) == Some((r@.sources.len(), r@.targets.len())),
        *final(next) == *old(next) + tape_fresh(*tape),
    decreases tape,
{
    let ghost start = *next as nat;
    let ghost fnv = |n: MonomialHyperNode<S>| node_view(n);
    let ghost fev = |e: MonomialTapeEdge<S, G>| edge_view(e);
    match tape {
        Tape::Id(mono) => {
            let nodes = atomic_nodes(mono, boundary);
            let r = LaxGraph::identity(nodes);
            proof {
                lemma_relabel_constructions(r@, r@, fnv, fev);
            }
            r
        },
        Tape::IdZero => {
            let r = LaxGraph::empty();
            proof {
                lemma_relabel_constructions(r@, r@, fnv, fev);
            }
            r
        },
        Tape::EmbedCircuit(circuit) => {
            let graph = circuit.to_monomial_hypergraph(next);
            adapt_boundary_kind(graph, boundary, TensorKind::Multiplicative)
        },
        Tape::Swap { left, right } => {
            let mut nodes = atomic_nodes(left, boundary);
            let mut rest = atomic_nodes(right, boundary);
            let ghost (a, b) = (nodes@, rest@);
            let nl = nodes.len();
            nodes.append(&mut rest);
            let total = nodes.len();
            let sources = span_vec(0, total);
            let mut targets = span_vec(nl, total);
            let mut back = span_vec(0, nl);
            targets.append(&mut back);
            let r = interface_graph(nodes, sources, targets);
            proof {
                lemma_view_wiring::<S, G>(r@.nodes, r@.sources, r@.targets);
                assert((a + b).map_values(fnv) =~= a.map_values(fnv) + b.map_values(fnv));
            }
            r
        },
        Tape::Trace { around, tape: inner } => {
            let graph = translate_tape(inner, boundary, next);
            let around_len = atomic_nodes(around, boundary).len();
            let ghost g = graph@;
            let r = close_trace(graph, around_len);
            proof {
                assert(monomial_drawing_view(r@) =~= tape_monomial_drawing(*tape, boundary, start));
            }
            r
        },
        Tape::Sequence(left, right) => {
            let left_graph = translate_tape(left, boundary, next);
            let right_graph = translate_tape(right, boundary, next);
            let ghost (lg, rg) = (left_graph@, right_graph@);
            let r = compose_lax_unchecked(left_graph, right_graph);
            proof {
                lemma_relabel_constructions(lg, rg, fnv, fev);
            }
            r
        },
        Tape::Product(left, right) => {
            let left_graph = translate_tape(left, boundary, next);
            let right_graph = translate_tape(right, boundary, next);
            let ghost (lg, rg) = (left_graph@, right_graph@);
            let r = left_graph.tensor(right_graph);
            proof {
                lemma_relabel_constructions(lg, rg, fnv, fev);
            }
            r
        },
        Tape::Sum(left, right) => {
            let left_graph = translate_tape(left, boundary, next);
            let right_graph = translate_tape(right, boundary, next);
            let ghost (lg, rg) = (left_graph@, right_graph@);
            let r = left_graph.tensor(right_graph);
            proof {
                lemma_relabel_constructions(lg, rg, fnv, fev);
            }
            r
        },
        Tape::Discard(mono) => {
            let nodes = atomic_nodes(mono, TensorKind::Additive);
            let n = nodes.len();
            let graph = interface_graph(nodes, span_vec(0, n), Vec::new());
            proof {
                lemma_view_wiring::<S, G>(graph@.nodes, graph@.sources, graph@.targets);
                assert(graph@.targets =~= Seq::<usize>::empty());
            }
            adapt_boundary_kind(graph, boundary, TensorKind::Additive)
        },
        Tape::Split(mono) => {
            let nodes = atomic_nodes(mono, TensorKind::Additive);
            let n = nodes.len();
            let graph = interface_graph(nodes, span_vec(0, n), twice_ids(n));
            proof {
                lemma_view_wiring::<S, G>(graph@.nodes, graph@.sources, graph@.targets);
            }
            adapt_boundary_kind(graph, boundary, TensorKind::Additive)
        },
        Tape::Create(mono) => {
            let nodes = atomic_nodes(mono, TensorKind::Additive);
            let n = nodes.len();
            let graph = interface_graph(nodes, Vec::new(), span_vec(0, n));
            proof {
                lemma_view_wiring::<S, G>(graph@.nodes, graph@.sources, graph@.targets);
                assert(graph@.sources =~= Seq::<usize>::empty());
            }
            adapt_boundary_kind(graph, boundary, TensorKind::Additive)
        },
        Tape::Merge(mono) => {
            let nodes = atomic_nodes(mono, TensorKind::Additive);
            let n = nodes.len();
            let graph = interface_graph(nodes, twice_ids(n), span_vec(0, n));
            proof {
                lemma_view_wiring::<S, G>(graph@.nodes, graph@.sources, graph@.targets);
            }
            adapt_boundary_kind(graph, boundary, TensorKind::Additive)
        },
    }
}

impl<S: Label + FreshSort, G: Label + GeneratorShape + GeneratorTypes<S>> MonomialTape<S, G> {
    /// The tape drawn over monomial nodes, with its interfaces in the
    /// multiplicative tensor (see `translate_tape`).
    pub fn to_hypergraph(&self, next: &mut usize) -> (r: MonomialDrawing<S, G>)
        requires
            tape_wires(self.spec_tape()) is Some,
            *old(next) + tape_fresh(self.spec_tape()) <= usize::MAX,
        ensures
            r@.wf(),
            monomial_drawing_view(r@) == tape_monomial_drawing(
                self.spec_tape(),
                TensorKind::Multiplicative,
                *old(next) as nat,
            ),
            tape_wires(self.spec_tape()) == Some((r@.sources.len(), r@.targets.len())),
            *final(next) == *old(next) + tape_fresh(self.spec_tape()),
    {
        translate_tape(&self.tape, TensorKind::Multiplicative, next)
    }
}

} // verus!
