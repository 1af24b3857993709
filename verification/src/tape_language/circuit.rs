//! Circuits: string diagrams in a monoidal category with copy, discard and
//! join on every sort.

use vstd::prelude::*;

use super::{views, GeneratorShape, GeneratorTypes};
use super::circuit_laws::{
    copies_of, lemma_io_copy_n, lemma_io_copy_wires, lemma_io_join_wires, lemma_io_swap_blocks, lemma_io_wiring,
    unique_names, wire_io,
};
use crate::label::{all_equal, duplicate_all, Label};

verus! {

#[derive(Debug)]
pub enum Circuit<S, G> {
    Id(S),
    IdOne,
    Generator(G),
    Swap { left: S, right: S },
    Sequence(Box<Circuit<S, G>>, Box<Circuit<S, G>>),
    Product(Box<Circuit<S, G>>, Box<Circuit<S, G>>),
    Copy(S),
    Discard(S),
    Join(S),
}

/// The deep view of a circuit: the same shape over the labels' views.
pub open spec fn circuit_view<S: DeepView, G: DeepView>(c: Circuit<S, G>) -> Circuit<S::V, G::V>
    decreases c,
{
    match c {
        Circuit::Id(s) => Circuit::Id(s.deep_view()),
        Circuit::IdOne => Circuit::IdOne,
        Circuit::Generator(g) => Circuit::Generator(g.deep_view()),
        Circuit::Swap { left, right } => Circuit::Swap { left: left.deep_view(), right: right.deep_view() },
        Circuit::Sequence(l, r) => Circuit::Sequence(Box::new(circuit_view(*l)), Box::new(circuit_view(*r))),
        Circuit::Product(l, r) => Circuit::Product(Box::new(circuit_view(*l)), Box::new(circuit_view(*r))),
        Circuit::Copy(s) => Circuit::Copy(s.deep_view()),
        Circuit::Discard(s) => Circuit::Discard(s.deep_view()),
        Circuit::Join(s) => Circuit::Join(s.deep_view()),
    }
}

impl<S: DeepView, G: DeepView> DeepView for Circuit<S, G> {
    type V = Circuit<S::V, G::V>;

    open spec fn deep_view(&self) -> Circuit<S::V, G::V> {
        circuit_view(*self)
    }
}

/// Numbers of input and output wires of a circuit.
#[derive(Debug, Clone, PartialEq, Eq)]
pub struct CircuitArity {
    pub inputs: usize,
    pub outputs: usize,
}

impl CircuitArity {
    /// The arity with these numbers of inputs and outputs.
    pub fn new(inputs: usize, outputs: usize) -> (r: Self)
        ensures
            r.inputs == inputs,
            r.outputs == outputs,
    {
        CircuitArity { inputs, outputs }
    }
}

impl<S, G> Circuit<S, G> {
    /// Sequential composition with `IdOne` absorbed.
    pub open spec fn spec_seq(left: Circuit<S, G>, right: Circuit<S, G>) -> Circuit<S, G> {
        if left is IdOne {
            right
        } else if right is IdOne {
            left
        } else {
            Circuit::Sequence(Box::new(left), Box::new(right))
        }
    }

    /// Parallel composition with `IdOne` absorbed.
    pub open spec fn spec_product(left: Circuit<S, G>, right: Circuit<S, G>) -> Circuit<S, G> {
        if left is IdOne {
            right
        } else if right is IdOne {
            left
        } else {
            Circuit::Product(Box::new(left), Box::new(right))
        }
    }
}

/// The parallel composition of a list of circuits, folded from the left.
pub open spec fn product_all<S, G>(cs: Seq<Circuit<S, G>>) -> Circuit<S, G>
    decreases cs.len(),
{
    if cs.len() == 0 {
        Circuit::IdOne
    } else if cs.len() == 1 {
        cs[0]
    } else {
        Circuit::spec_product(product_all(cs.drop_last()), cs.last())
    }
}

/// The identity on a list of sorts.
pub open spec fn id_circuit<S, G>(types: Seq<S>) -> Circuit<S, G> {
    product_all(types.map_values(|t: S| Circuit::<S, G>::Id(t)))
}

/// Fan-out of one wire into `count` wires, one copy at a time.
pub open spec fn copy_n_circuit<S, G>(ty: S, count: nat) -> Circuit<S, G>
    decreases count,
{
    if count == 0 {
        Circuit::Discard(ty)
    } else if count == 1 {
        Circuit::Id(ty)
    } else if count == 2 {
        Circuit::Copy(ty)
    } else {
        Circuit::spec_seq(
            Circuit::Copy(ty),
            Circuit::spec_product(Circuit::Id(ty), copy_n_circuit(ty, (count - 1) as nat)),
        )
    }
}

/// Sorts on the inputs and outputs of a circuit, by view; `None` when a
/// generator's sorts are unknown or a sequential composition does not match.
pub open spec fn circuit_io<S: DeepView, G: GeneratorTypes<S>>(c: Circuit<S, G>) -> Option<
    (Seq<S::V>, Seq<S::V>),
>
    decreases c,
{
    match c {
        Circuit::Id(s) => Some((seq![s.deep_view()], seq![s.deep_view()])),
        Circuit::IdOne => Some((Seq::empty(), Seq::empty())),
        Circuit::Generator(g) => match (g.spec_input_types(), g.spec_output_types()) {
            (Some(i), Some(o)) => Some((i, o)),
            _ => None,
        },
        Circuit::Swap { left, right } => Some(
            (seq![left.deep_view(), right.deep_view()], seq![right.deep_view(), left.deep_view()]),
        ),
        Circuit::Sequence(l, r) => match (circuit_io(*l), circuit_io(*r)) {
            (Some((li, lo)), Some((ri, ro))) => if lo == ri {
                Some((li, ro))
            } else {
                None
            },
            _ => None,
        },
        Circuit::Product(l, r) => match (circuit_io(*l), circuit_io(*r)) {
            (Some((li, lo)), Some((ri, ro))) => Some((li + ri, lo + ro)),
            _ => None,
        },
        Circuit::Copy(s) => Some((seq![s.deep_view()], seq![s.deep_view(), s.deep_view()])),
        Circuit::Discard(s) => Some((seq![s.deep_view()], Seq::empty())),
        Circuit::Join(s) => Some((seq![s.deep_view(), s.deep_view()], seq![s.deep_view()])),
    }
}

/// Numbers of inputs and outputs of a circuit; `None` when a sequential
/// composition joins different numbers of wires.
pub open spec fn circuit_arity<S, G: GeneratorShape>(c: Circuit<S, G>) -> Option<(nat, nat)>
    decreases c,
{
    match c {
        Circuit::Id(_) => Some((1, 1)),
        Circuit::IdOne => Some((0, 0)),
        Circuit::Generator(g) => Some((g.spec_arity(), g.spec_coarity())),
        Circuit::Swap { .. } => Some((2, 2)),
        Circuit::Sequence(l, r) => match (circuit_arity(*l), circuit_arity(*r)) {
            (Some((li, lo)), Some((ri, ro))) => if lo == ri {
                Some((li, ro))
            } else {
                None
            },
            _ => None,
        },
        Circuit::Product(l, r) => match (circuit_arity(*l), circuit_arity(*r)) {
            (Some((li, lo)), Some((ri, ro))) => Some((li + ri, lo + ro)),
            _ => None,
        },
        Circuit::Copy(_) => Some((1, 2)),
        Circuit::Discard(_) => Some((1, 0)),
        Circuit::Join(_) => Some((2, 1)),
    }
}

/// Every number in the arity computation of the circuit fits in `usize`.
pub open spec fn arity_fits<S, G: GeneratorShape>(c: Circuit<S, G>) -> bool
    decreases c,
{
    match circuit_arity(c) {
        None => false,
        Some((i, o)) => i <= usize::MAX && o <= usize::MAX && match c {
            Circuit::Sequence(l, r) => arity_fits(*l) && arity_fits(*r),
            Circuit::Product(l, r) => arity_fits(*l) && arity_fits(*r),
            _ => true,
        },
    }
}

/// Sequence with positions `i` and `i + 1` exchanged.
pub open spec fn swap_at<A>(s: Seq<A>, i: int) -> Seq<A> {
    s.update(i, s[i + 1]).update(i + 1, s[i])
}

/// The circuit that exchanges wires `index` and `index + 1` of `types`.
pub open spec fn swap_adjacent_circuit<S, G>(types: Seq<S>, index: int) -> Circuit<S, G> {
    let left = id_circuit::<S, G>(types.subrange(0, index));
    let mid = Circuit::<S, G>::Swap { left: types[index], right: types[index + 1] };
    let right = id_circuit::<S, G>(types.subrange(index + 2, types.len() as int));
    if index == 0 && index + 2 == types.len() {
        mid
    } else if index == 0 {
        Circuit::Product(Box::new(mid), Box::new(right))
    } else if index + 2 == types.len() {
        Circuit::Product(Box::new(left), Box::new(mid))
    } else {
        Circuit::Product(Box::new(left), Box::new(Circuit::Product(Box::new(mid), Box::new(right))))
    }
}

/// The first position at or after `from` where `x` occurs, or `s.len()`.
pub open spec fn find_from(s: Seq<usize>, x: usize, from: int) -> int
    decreases s.len() - from,
{
    if from >= s.len() {
        s.len() as int
    } else if s[from] == x {
        from
    } else {
        find_from(s, x, from + 1)
    }
}

/// Moves the wire at `pos` down to `target` one adjacent exchange at a time,
/// composing each exchange after `acc`; returns the new order of wire
/// indices, the new order of sorts and the composed circuit.
pub open spec fn bubble<S, G>(
    cur: Seq<usize>,
    ts: Seq<S>,
    pos: int,
    target: int,
    acc: Circuit<S, G>,
) -> (Seq<usize>, Seq<S>, Circuit<S, G>)
    decreases pos - target,
{
    if pos <= target {
        (cur, ts, acc)
    } else {
        bubble(
            swap_at(cur, pos - 1),
            swap_at(ts, pos - 1),
            pos - 1,
            target,
            Circuit::spec_seq(acc, swap_adjacent_circuit(ts, pos - 1)),
        )
    }
}

/// Places the wires in the order `perm` from position `k` on.
pub open spec fn permute_from<S, G>(
    perm: Seq<usize>,
    k: int,
    cur: Seq<usize>,
    ts: Seq<S>,
    acc: Circuit<S, G>,
) -> Circuit<S, G>
    decreases perm.len() - k,
{
    if k >= perm.len() || k < 0 {
        acc
    } else {
        let pos = find_from(cur, perm[k], 0);
        let (c2, t2, a2) = bubble(cur, ts, pos, k, acc);
        permute_from(perm, k + 1, c2, t2, a2)
    }
}

/// `perm` lists each of its values once, all below `n`.
pub open spec fn partial_perm(perm: Seq<usize>, n: nat) -> bool {
    &&& forall|i: int| 0 <= i < perm.len() ==> #[trigger] perm[i] < n
    &&& forall|i: int, j: int| 0 <= i < j < perm.len() ==> perm[i] != perm[j]
}

/// `perm` is a permutation of `0..n`.
pub open spec fn full_perm(perm: Seq<usize>, n: nat) -> bool {
    partial_perm(perm, n) && perm.len() == n
}

/// `perm` maps every position to itself.
pub open spec fn identity_perm(perm: Seq<usize>) -> bool {
    forall|i: int| 0 <= i < perm.len() ==> #[trigger] perm[i] == i
}

/// The numbers `0..n` in order.
pub open spec fn range_seq(n: nat) -> Seq<usize> {
    Seq::new(n, |i: int| i as usize)
}

/// The circuit that reorders wires of sorts `types` so that output `k`
/// carries input `perm[k]`, built from adjacent exchanges.
pub open spec fn permute_circuit_spec<S, G>(types: Seq<S>, perm: Seq<usize>) -> Circuit<S, G> {
    if identity_perm(perm) {
        id_circuit(types)
    } else {
        permute_from(perm, 0, range_seq(types.len()), types, id_circuit(types))
    }
}

/// A permutation of wire positions.
#[derive(Debug, Clone, PartialEq, Eq)]
pub struct Permutation(pub Vec<usize>);

impl Permutation {
    /// Whether every position maps to itself.
    pub fn is_identity(&self) -> (r: bool)
        ensures
            r == identity_perm(self.0@),
    {
        let mut i: usize = 0;
        while i < self.0.len()
            invariant
                i <= self.0@.len(),
                forall|k: int| 0 <= k < i ==> #[trigger] self.0@[k] == k,
            decreases self.0@.len() - i,
        {
            if self.0[i] != i {
                return false;
            }
            i = i + 1;
        }
        true
    }
}

/// Identity circuits on a list of sorts.
pub open spec fn ids<S, G>(types: Seq<S>) -> Seq<Circuit<S, G>> {
    types.map_values(|t: S| Circuit::<S, G>::Id(t))
}

impl<S, G> Circuit<S, G> {
    /// Sequential composition; an `IdOne` side is dropped.
    pub fn seq(left: Circuit<S, G>, right: Circuit<S, G>) -> (r: Self)
        ensures
            r == Circuit::spec_seq(left, right),
    {
        match left {
            Circuit::IdOne => right,
            _ => match right {
                Circuit::IdOne => left,
                _ => Circuit::Sequence(Box::new(left), Box::new(right)),
            },
        }
    }

    /// Parallel composition; an `IdOne` side is dropped.
    pub fn product(left: Circuit<S, G>, right: Circuit<S, G>) -> (r: Self)
        ensures
            r == Circuit::spec_product(left, right),
    {
        match left {
            Circuit::IdOne => right,
            _ => match right {
                Circuit::IdOne => left,
                _ => Circuit::Product(Box::new(left), Box::new(right)),
            },
        }
    }

    /// The parallel composition of the circuits, folded from the left;
    /// `IdOne` for none.
    pub fn product_many(circuits: Vec<Circuit<S, G>>) -> (r: Circuit<S, G>)
        ensures
            r == product_all(circuits@),
    {
        let mut circuits = circuits;
        let ghost all = circuits@;
        if circuits.len() == 0 {
            return Circuit::IdOne;
        }
        let mut acc = circuits.remove(0);
        let ghost mut i: int = 1;
        proof {
            assert(all.subrange(0, 1).len() == 1);
        }
        while circuits.len() > 0
            invariant
                1 <= i <= all.len(),
                circuits@ == all.subrange(i, all.len() as int),
                acc == product_all(all.subrange(0, i)),
            decreases circuits.len(),
        {
            let x = circuits.remove(0);
            proof {
                assert(all.subrange(0, i + 1).drop_last() =~= all.subrange(0, i));
                assert(all.subrange(0, i + 1).last() == x);
                assert(circuits@ =~= all.subrange(i + 1, all.len() as int));
            }
            acc = Circuit::product(acc, x);
            proof {
                i = i + 1;
            }
        }
        proof {
            assert(all.subrange(0, all.len() as int) =~= all);
        }
        acc
    }

    /// The identity on a list of sorts; `IdOne` for none.
    pub fn id(terms: Vec<S>) -> (r: Self)
        ensures
            r == id_circuit::<S, G>(terms@),
    {
        let mut terms = terms;
        let ghost all = terms@;
        let mut circuits: Vec<Circuit<S, G>> = Vec::new();
        let ghost mut i: int = 0;
        while terms.len() > 0
            invariant
                0 <= i <= all.len(),
                terms@ == all.subrange(i, all.len() as int),
                circuits@ == ids::<S, G>(all.subrange(0, i)),
            decreases terms.len(),
        {
            let x = terms.remove(0);
            proof {
                assert(terms@ =~= all.subrange(i + 1, all.len() as int));
            }
            circuits.push(Circuit::Id(x));
            proof {
                i = i + 1;
                assert(circuits@ =~= ids::<S, G>(all.subrange(0, i)));
            }
        }
        proof {
            assert(all.subrange(0, all.len() as int) =~= all);
        }
        Circuit::product_many(circuits)
    }
}

impl<S: Label, G: DeepView> Circuit<S, G> {
    /// Fan-out of one wire of sort `ty` into `count` wires.
    pub fn copy_wire_n_times(ty: S, count: usize) -> (r: Self)
        ensures
            r.deep_view() == copy_n_circuit::<S::V, G::V>(ty.deep_view(), count as nat),
            wire_io(circuit_view(r)) == Some((seq![ty.deep_view()], copies_of(ty.deep_view(), count as nat))),
        decreases count,
    {
        proof {
            lemma_io_copy_n::<S::V, G::V>(ty.deep_view(), count as nat);
        }
        if count == 0 {
            Circuit::Discard(ty)
        } else if count == 1 {
            Circuit::Id(ty)
        } else if count == 2 {
            Circuit::Copy(ty)
        } else {
            let left = Circuit::Id(ty.duplicate());
            let right = Circuit::copy_wire_n_times(ty.duplicate(), count - 1);
            proof {
                lemma_view_seq_product(left, right);
            }
            let prod = Circuit::product(left, right);
            proof {
                lemma_view_seq_product(Circuit::<S, G>::Copy(ty), prod);
            }
            Circuit::seq(Circuit::Copy(ty), prod)
        }
    }
}

/// Taking deep views commutes with the unit-absorbing compositions.
pub proof fn lemma_view_seq_product<S: DeepView, G: DeepView>(left: Circuit<S, G>, right: Circuit<S, G>)
    ensures
        circuit_view(Circuit::spec_seq(left, right)) == Circuit::spec_seq(circuit_view(left), circuit_view(right)),
        circuit_view(Circuit::spec_product(left, right)) == Circuit::spec_product(
            circuit_view(left),
            circuit_view(right),
        ),
{
}

/// Taking deep views commutes with folding a product.
pub proof fn lemma_view_product_all<S: DeepView, G: DeepView>(cs: Seq<Circuit<S, G>>)
    ensures
        circuit_view(product_all(cs)) == product_all(cs.map_values(|c: Circuit<S, G>| circuit_view(c))),
    decreases cs.len(),
{
    let vs = cs.map_values(|c: Circuit<S, G>| circuit_view(c));
    if cs.len() > 1 {
        lemma_view_product_all(cs.drop_last());
        assert(vs.drop_last() =~= cs.drop_last().map_values(|c: Circuit<S, G>| circuit_view(c)));
        lemma_view_seq_product(product_all(cs.drop_last()), cs.last());
    }
}

/// Taking deep views commutes with building identities.
pub proof fn lemma_view_id<S: DeepView, G: DeepView>(types: Seq<S>)
    ensures
        circuit_view(id_circuit::<S, G>(types)) == id_circuit::<S::V, G::V>(views(types)),
{
    lemma_view_product_all(ids::<S, G>(types));
    assert(ids::<S, G>(types).map_values(|c: Circuit<S, G>| circuit_view(c)) =~= ids::<S::V, G::V>(
        views(types),
    ));
}

/// Copies of the labels `s[lo..hi]`.
pub fn duplicate_range<S: Label>(s: &[S], lo: usize, hi: usize) -> (r: Vec<S>)
    requires
        lo <= hi <= s@.len(),
    ensures
        views(r@) == views(s@.subrange(lo as int, hi as int)),
{
    let mut out: Vec<S> = Vec::new();
    let mut i: usize = lo;
    while i < hi
        invariant
            lo <= i <= hi <= s@.len(),
            out@.len() == i - lo,
            forall|k: int| 0 <= k < out@.len() ==> #[trigger] out@[k].deep_view() == s@[lo + k].deep_view(),
        decreases hi - i,
    {
        out.push(s[i].duplicate());
        i = i + 1;
    }
    assert(views(out@) =~= views(s@.subrange(lo as int, hi as int)));
    out
}

/// The circuit exchanging wires `index` and `index + 1` of `types`.
fn swap_adjacent<S: Label, G: DeepView>(types: &[S], index: usize) -> (r: Circuit<S, G>)
    requires
        index + 1 < types@.len(),
    ensures
        circuit_view(r) == swap_adjacent_circuit::<S::V, G::V>(views(types@), index as int),
{
    let n = types.len();
    let lv = duplicate_range(types, 0, index);
    let rv = duplicate_range(types, index + 2, n);
    let ghost lg = lv@;
    let ghost rg = rv@;
    let left: Circuit<S, G> = Circuit::id(lv);
    let mid: Circuit<S, G> = Circuit::Swap { left: types[index].duplicate(), right: types[index + 1].duplicate() };
    let right: Circuit<S, G> = Circuit::id(rv);
    proof {
        lemma_view_id::<S, G>(lg);
        lemma_view_id::<S, G>(rg);
        assert(views(types@).subrange(0, index as int) =~= views(types@.subrange(0, index as int)));
        assert(views(types@).subrange(index + 2, n as int) =~= views(types@.subrange(index + 2, n as int)));
        assert(views(types@).len() == n);
        assert(views(types@)[index as int] == types@[index as int].deep_view());
        assert(views(types@)[index + 1] == types@[index + 1].deep_view());
        assert(circuit_view(left) == id_circuit::<S::V, G::V>(views(types@).subrange(0, index as int)));
        assert(circuit_view(right) == id_circuit::<S::V, G::V>(views(types@).subrange(index + 2, n as int)));
        assert(circuit_view(mid) == Circuit::<S::V, G::V>::Swap {
            left: views(types@)[index as int],
            right: views(types@)[index + 1],
        });
    }
    if index == 0 && index + 2 == n {
        mid
    } else if index == 0 {
        Circuit::Product(Box::new(mid), Box::new(right))
    } else if index + 2 == n {
        Circuit::Product(Box::new(left), Box::new(mid))
    } else {
        let inner = Circuit::Product(Box::new(mid), Box::new(right));
        proof {
            assert(circuit_view(inner) == Circuit::Product(
                Box::new(circuit_view(mid)),
                Box::new(circuit_view(right)),
            ));
        }
        Circuit::Product(Box::new(left), Box::new(inner))
    }
}

/// The first position of `x` in `s`.
fn position_of(s: &Vec<usize>, x: usize) -> (r: usize)
    requires
        s@.contains(x),
    ensures
        r == find_from(s@, x, 0),
        r < s@.len(),
        s@[r as int] == x,
{
    let mut i: usize = 0;
    while i < s.len()
        invariant
            i <= s@.len(),
            s@.contains(x),
            find_from(s@, x, 0) == find_from(s@, x, i as int),
            forall|k: int| 0 <= k < i ==> s@[k] != x,
        decreases s@.len() - i,
    {
        if s[i] == x {
            return i;
        }
        i = i + 1;
    }
    proof {
        let w = choose|w: int| 0 <= w < s@.len() && s@[w] == x;
        assert(s@[w] == x);
    }
    0
}

/// Every number below `n` occurs in `s`.
pub open spec fn covers(s: Seq<usize>, n: nat) -> bool {
    forall|v: usize| v < n ==> #[trigger] s.contains(v)
}

pub proof fn lemma_swap_covers(s: Seq<usize>, i: int, n: nat)
    requires
        covers(s, n),
        0 <= i,
        i + 1 < s.len(),
    ensures
        covers(swap_at(s, i), n),
{
    let t = swap_at(s, i);
    assert forall|v: usize| v < n implies #[trigger] t.contains(v) by {
        assert(s.contains(v));
        let p = choose|p: int| 0 <= p < s.len() && s[p] == v;
        if p == i {
            assert(t[i + 1] == v);
        } else if p == i + 1 {
            assert(t[i] == v);
        } else {
            assert(t[p] == v);
        }
    }
}

impl<S: Label, G: DeepView> Circuit<S, G> {
    /// The circuit that reorders wires of sorts `types` so that output `k`
    /// carries input `permutation[k]`, as a sequence of adjacent exchanges.
    pub fn permute_circuit(types: &[S], permutation: &Permutation) -> (r: Self)
        requires
            partial_perm(permutation.0@, types@.len()),
        ensures
            circuit_view(r) == permute_circuit_spec::<S::V, G::V>(views(types@), permutation.0@),
    {
        let n = types.len();
        let tv = duplicate_range(types, 0, n);
        proof {
            assert(types@.subrange(0, n as int) =~= types@);
        }
        if permutation.is_identity() {
            let ghost tg = tv@;
            let r = Circuit::id(tv);
            proof {
                lemma_view_id::<S, G>(tg);
            }
            return r;
        }
        let perm = &permutation.0;
        let mut current: Vec<usize> = Vec::new();
        let mut i: usize = 0;
        while i < n
            invariant
                i <= n,
                current@ == range_seq(i as nat),
            decreases n - i,
        {
            current.push(i);
            i = i + 1;
            proof {
                assert(current@ =~= range_seq(i as nat));
            }
        }
        proof {
            assert forall|v: usize| v < n implies #[trigger] current@.contains(v) by {
                assert(current@[v as int] == v);
            }
        }
        let mut current_types = duplicate_range(types, 0, n);
        let ghost tg = tv@;
        let mut acc: Circuit<S, G> = Circuit::id(tv);
        let ghost goal = permute_from::<S::V, G::V>(
            perm@,
            0,
            range_seq(n as nat),
            views(types@),
            id_circuit::<S::V, G::V>(views(types@)),
        );
        proof {
            lemma_view_id::<S, G>(tg);
        }
        let mut target_idx: usize = 0;
        while target_idx < perm.len()
            invariant
                n == types@.len(),
                perm@ == permutation.0@,
                partial_perm(perm@, n as nat),
                target_idx <= perm@.len(),
                current@.len() == n,
                current_types@.len() == n,
                covers(current@, n as nat),
                permute_from::<S::V, G::V>(
                    perm@,
                    target_idx as int,
                    current@,
                    views(current_types@),
                    circuit_view(acc),
                ) == goal,
            decreases perm@.len() - target_idx,
        {
            let desired = perm[target_idx];
            proof {
                assert(current@.contains(desired));
            }
            let mut pos = position_of(&current, desired);
            while pos > target_idx
                invariant
                    n == types@.len(),
                    perm@ == permutation.0@,
                    partial_perm(perm@, n as nat),
                    target_idx < perm@.len(),
                    pos < n,
                    current@.len() == n,
                    current_types@.len() == n,
                    covers(current@, n as nat),
                    ({
                        let (c2, t2, a2) = bubble::<S::V, G::V>(
                            current@,
                            views(current_types@),
                            pos as int,
                            target_idx as int,
                            circuit_view(acc),
                        );
                        permute_from::<S::V, G::V>(perm@, target_idx + 1, c2, t2, a2) == goal
                    }),
                decreases pos,
            {
                let sw: Circuit<S, G> = swap_adjacent(current_types.as_slice(), pos - 1);
                proof {
                    lemma_view_seq_product(acc, sw);
                    lemma_swap_covers(current@, pos - 1, n as nat);
                }
                acc = Circuit::seq(acc, sw);
                let ghost before = current_types@;
                let ghost cbefore = current@;
                let moved = current.remove(pos);
                current.insert(pos - 1, moved);
                let moved_t = current_types.remove(pos);
                current_types.insert(pos - 1, moved_t);
                proof {
                    assert(current@ =~= swap_at(cbefore, pos - 1));
                    assert(current_types@ =~= swap_at(before, pos - 1));
                    assert(views(current_types@) =~= swap_at(views(before), pos - 1));
                }
                pos = pos - 1;
            }
            target_idx = target_idx + 1;
        }
        acc
    }
}

/// Each sort twice in a row: `[t0, t0, t1, t1, ...]`.
pub open spec fn doubled<S>(terms: Seq<S>) -> Seq<S> {
    Seq::new(2 * terms.len(), |k: int| terms[k / 2])
}

/// The even positions of `0..2n` in order, then the odd ones.
pub open spec fn evens_then_odds(n: nat) -> Seq<usize> {
    Seq::new(2 * n, |k: int| if k < n { (2 * k) as usize } else { (2 * (k - n) + 1) as usize })
}

/// The inverse of `evens_then_odds(n)`: `[0, n, 1, n + 1, ...]`.
pub open spec fn interleave_perm(n: nat) -> Seq<usize> {
    Seq::new(2 * n, |k: int| if k % 2 == 0 { (k / 2) as usize } else { (n + k / 2) as usize })
}

/// The block `len_left..len_left + len_right` followed by `0..len_left`.
pub open spec fn block_swap_perm(len_left: nat, len_right: nat) -> Seq<usize> {
    Seq::new(len_left + len_right, |k: int| if k < len_right { (len_left + k) as usize } else { (k - len_right) as usize })
}

/// Copies of every sort: `copy(t0) ⊗ copy(t1) ⊗ ...`, then the copies
/// regrouped so that the first copies come first.
pub open spec fn copy_wires_circuit<S, G>(terms: Seq<S>) -> Circuit<S, G> {
    let copies = product_all(terms.map_values(|t: S| Circuit::<S, G>::Copy(t)));
    if terms.len() <= 1 {
        copies
    } else {
        Circuit::spec_seq(copies, permute_circuit_spec(doubled(terms), evens_then_odds(terms.len())))
    }
}

/// Two copies of every sort, interleaved, then joined pairwise.
pub open spec fn join_wires_circuit<S, G>(terms: Seq<S>) -> Circuit<S, G> {
    let joins = product_all(terms.map_values(|t: S| Circuit::<S, G>::Join(t)));
    if terms.len() <= 1 {
        joins
    } else {
        Circuit::spec_seq(permute_circuit_spec(terms + terms, interleave_perm(terms.len())), joins)
    }
}

pub proof fn lemma_full_evens_then_odds(n: nat)
    requires
        2 * n <= usize::MAX,
    ensures
        full_perm(evens_then_odds(n), 2 * n),
{
    let p = evens_then_odds(n);
    assert forall|i: int, j: int| 0 <= i < j < p.len() implies p[i] != p[j] by {
        if i < n && j >= n {
            assert(p[i] == 2 * i);
            assert(p[j] == 2 * (j - n) + 1);
        } else if i < n {
            assert(p[i] == 2 * i);
            assert(p[j] == 2 * j);
        } else {
            assert(p[i] == 2 * (i - n) + 1);
            assert(p[j] == 2 * (j - n) + 1);
        }
    }
}

pub proof fn lemma_full_interleave_perm(n: nat)
    requires
        2 * n <= usize::MAX,
    ensures
        full_perm(interleave_perm(n), 2 * n),
{
    let p = interleave_perm(n);
    assert forall|i: int, j: int| 0 <= i < j < p.len() implies p[i] != p[j] by {
        assert(i / 2 < n && j / 2 < n);
        if i % 2 == 0 && j % 2 == 0 {
            assert(i / 2 != j / 2);
        } else if i % 2 == 1 && j % 2 == 1 {
            assert(i / 2 != j / 2);
        } else if i % 2 == 0 {
            assert(i / 2 < n);
        } else {
            assert(j / 2 < n);
        }
    }
    assert forall|i: int| 0 <= i < p.len() implies #[trigger] p[i] < 2 * n by {
        assert(i / 2 < n);
    }
}

pub proof fn lemma_full_block_swap_perm(a: nat, b: nat)
    requires
        a + b <= usize::MAX,
    ensures
        full_perm(block_swap_perm(a, b), a + b),
{
    let p = block_swap_perm(a, b);
    assert forall|i: int, j: int| 0 <= i < j < p.len() implies p[i] != p[j] by {
        if i < b && j >= b {
            assert(p[i] == a + i);
            assert(p[j] == j - b);
        }
    }
}

impl<S: Label, G: DeepView> Circuit<S, G> {
    /// Copies every wire of the list; outputs are all first copies, then
    /// all second copies.
    pub fn copy_wires(terms: Vec<S>) -> (r: Self)
        requires
            2 * terms@.len() <= usize::MAX,
        ensures
            circuit_view(r) == copy_wires_circuit::<S::V, G::V>(views(terms@)),
            wire_io(circuit_view(r)) == Some((views(terms@), views(terms@) + views(terms@))),
    {
        proof {
            lemma_io_copy_wires::<S::V, G::V>(views(terms@));
        }
        let n = terms.len();
        let ghost tv = views(terms@);
        let mut copies: Vec<Circuit<S, G>> = Vec::new();
        let mut i: usize = 0;
        while i < n
            invariant
                n == terms@.len(),
                i <= n,
                copies@.len() == i,
                forall|k: int| 0 <= k < i ==> #[trigger] circuit_view(copies@[k]) == Circuit::<S::V, G::V>::Copy(
                    terms@[k].deep_view(),
                ),
            decreases n - i,
        {
            copies.push(Circuit::Copy(terms[i].duplicate()));
            i = i + 1;
        }
        let ghost cs = copies@;
        let acc = Circuit::product_many(copies);
        proof {
            lemma_view_product_all(cs);
            assert(cs.map_values(|c: Circuit<S, G>| circuit_view(c)) =~= tv.map_values(
                |t: S::V| Circuit::<S::V, G::V>::Copy(t),
            ));
        }
        if n <= 1 {
            return acc;
        }
        let mut grouped: Vec<S> = Vec::new();
        let mut j: usize = 0;
        while j < n
            invariant
                n == terms@.len(),
                j <= n,
                grouped@.len() == 2 * j,
                forall|k: int| 0 <= k < 2 * j ==> #[trigger] grouped@[k].deep_view() == terms@[k / 2].deep_view(),
            decreases n - j,
        {
            grouped.push(terms[j].duplicate());
            grouped.push(terms[j].duplicate());
            j = j + 1;
        }
        let mut permutation: Vec<usize> = Vec::new();
        let mut a: usize = 0;
        while a < n
            invariant
                n == terms@.len(),
                n >= 2,
                2 * n <= usize::MAX,
                a <= n,
                permutation@ == evens_then_odds(n as nat).subrange(0, a as int),
            decreases n - a,
        {
            permutation.push(2 * a);
            a = a + 1;
            proof {
                assert(permutation@ =~= evens_then_odds(n as nat).subrange(0, a as int));
            }
        }
        let mut b: usize = 0;
        while b < n
            invariant
                n == terms@.len(),
                n >= 2,
                2 * n <= usize::MAX,
                b <= n,
                permutation@ == evens_then_odds(n as nat).subrange(0, n + b),
            decreases n - b,
        {
            permutation.push(2 * b + 1);
            b = b + 1;
            proof {
                assert(permutation@ =~= evens_then_odds(n as nat).subrange(0, n + b));
            }
        }
        proof {
            assert(permutation@ =~= evens_then_odds(n as nat));
            lemma_full_evens_then_odds(n as nat);
            assert(views(grouped@) =~= doubled(tv));
        }
        let perm = Permutation(permutation);
        let permute = Circuit::permute_circuit(grouped.as_slice(), &perm);
        proof {
            lemma_view_seq_product(acc, permute);
        }
        Circuit::seq(acc, permute)
    }

    /// Joins two copies of every wire of the list; inputs are all first
    /// copies, then all second copies.
    pub fn join_wires(terms: Vec<S>) -> (r: Self)
        requires
            2 * terms@.len() <= usize::MAX,
        ensures
            circuit_view(r) == join_wires_circuit::<S::V, G::V>(views(terms@)),
            wire_io(circuit_view(r)) == Some((views(terms@) + views(terms@), views(terms@))),
    {
        proof {
            lemma_io_join_wires::<S::V, G::V>(views(terms@));
        }
        let n = terms.len();
        let ghost tv = views(terms@);
        let mut joins: Vec<Circuit<S, G>> = Vec::new();
        let mut i: usize = 0;
        while i < n
            invariant
                n == terms@.len(),
                i <= n,
                joins@.len() == i,
                forall|k: int| 0 <= k < i ==> #[trigger] circuit_view(joins@[k]) == Circuit::<S::V, G::V>::Join(
                    terms@[k].deep_view(),
                ),
            decreases n - i,
        {
            joins.push(Circuit::Join(terms[i].duplicate()));
            i = i + 1;
        }
        let ghost cs = joins@;
        let acc = Circuit::product_many(joins);
        proof {
            lemma_view_product_all(cs);
            assert(cs.map_values(|c: Circuit<S, G>| circuit_view(c)) =~= tv.map_values(
                |t: S::V| Circuit::<S::V, G::V>::Join(t),
            ));
        }
        if n <= 1 {
            return acc;
        }
        let mut interleaved = duplicate_range(terms.as_slice(), 0, n);
        let mut second = duplicate_range(terms.as_slice(), 0, n);
        let ghost iv = interleaved@;
        let ghost sv = second@;
        interleaved.append(&mut second);
        let mut inverse: Vec<usize> = Vec::new();
        let mut k: usize = 0;
        while k < 2 * n
            invariant
                n == terms@.len(),
                n >= 2,
                2 * n <= usize::MAX,
                k <= 2 * n,
                inverse@.len() == k,
            decreases 2 * n - k,
        {
            inverse.push(0);
            k = k + 1;
        }
        let mut a: usize = 0;
        while a < n
            invariant
                n == terms@.len(),
                n >= 2,
                2 * n <= usize::MAX,
                a <= n,
                inverse@.len() == 2 * n,
                forall|m: int| 0 <= m < 2 * a && m % 2 == 0 ==> #[trigger] inverse@[m] == interleave_perm(n as nat)[m],
                forall|m: int| 0 <= m < 2 * n && m % 2 == 1 && m / 2 < a ==> #[trigger] inverse@[m] == interleave_perm(
                    n as nat,
                )[m],
            decreases n - a,
        {
            let ghost before = inverse@;
            inverse.set(2 * a, a);
            inverse.set(2 * a + 1, n + a);
            proof {
                assert forall|m: int| 0 <= m < 2 * (a + 1) && m % 2 == 0 implies #[trigger] inverse@[m]
                    == interleave_perm(n as nat)[m] by {
                    if m < 2 * a {
                        assert(inverse@[m] == before[m]);
                    } else {
                        assert(m == 2 * a);
                    }
                }
                assert forall|m: int| 0 <= m < 2 * n && m % 2 == 1 && m / 2 < a + 1 implies #[trigger] inverse@[m]
                    == interleave_perm(n as nat)[m] by {
                    if m / 2 < a {
                        assert(m != 2 * a && m != 2 * a + 1);
                        assert(inverse@[m] == before[m]);
                    } else {
                        assert(m == 2 * a + 1);
                    }
                }
            }
            a = a + 1;
        }
        proof {
            assert forall|m: int| 0 <= m < 2 * n implies #[trigger] inverse@[m] == interleave_perm(n as nat)[m] by {
                if m % 2 == 0 {
                } else {
                    assert(m / 2 < n);
                }
            }
            assert(inverse@ =~= interleave_perm(n as nat));
            lemma_full_interleave_perm(n as nat);
            assert(terms@.subrange(0, n as int) =~= terms@);
            assert(views(interleaved@) =~= views(iv) + views(sv));
        }
        let perm = Permutation(inverse);
        let permute = Circuit::permute_circuit(interleaved.as_slice(), &perm);
        proof {
            lemma_view_seq_product(permute, acc);
        }
        Circuit::seq(permute, acc)
    }

    /// Exchanges a block of wires of sorts `types_left` with the block of
    /// sorts `types_right` that follows it.
    pub fn swap_blocks(types_left: &[S], types_right: &[S]) -> (r: Circuit<S, G>)
        ensures
            circuit_view(r) == permute_circuit_spec::<S::V, G::V>(
                views(types_left@) + views(types_right@),
                block_swap_perm(types_left@.len(), types_right@.len()),
            ),
            wire_io(circuit_view(r)) == Some(
                (views(types_left@) + views(types_right@), views(types_right@) + views(types_left@)),
            ),
    {
        let nl = types_left.len();
        let nr = types_right.len();
        let mut types = duplicate_range(types_left, 0, nl);
        let mut rest = duplicate_range(types_right, 0, nr);
        let ghost a = types@;
        let ghost b = rest@;
        types.append(&mut rest);
        let _total = types.len();
        proof {
            assert(views(a).len() == nl);
            assert(views(b).len() == nr);
            lemma_io_swap_blocks::<S::V, G::V>(views(types_left@), views(types_right@));
        }
        let mut permutation: Vec<usize> = Vec::new();
        let mut i: usize = 0;
        while i < nr
            invariant
                i <= nr,
                nl + nr <= usize::MAX,
                permutation@ == block_swap_perm(nl as nat, nr as nat).subrange(0, i as int),
            decreases nr - i,
        {
            permutation.push(nl + i);
            i = i + 1;
            proof {
                assert(permutation@ =~= block_swap_perm(nl as nat, nr as nat).subrange(0, i as int));
            }
        }
        let mut j: usize = 0;
        while j < nl
            invariant
                j <= nl,
                nl + nr <= usize::MAX,
                permutation@ == block_swap_perm(nl as nat, nr as nat).subrange(0, nr + j),
            decreases nl - j,
        {
            permutation.push(j);
            j = j + 1;
            proof {
                assert(permutation@ =~= block_swap_perm(nl as nat, nr as nat).subrange(0, nr + j));
            }
        }
        proof {
            assert(permutation@ =~= block_swap_perm(nl as nat, nr as nat));
            lemma_full_block_swap_perm(nl as nat, nr as nat);
            assert(types_left@.subrange(0, nl as int) =~= types_left@);
            assert(types_right@.subrange(0, nr as int) =~= types_right@);
            assert(views(types@) =~= views(a) + views(b));
        }
        Circuit::permute_circuit(types.as_slice(), &Permutation(permutation))
    }
}

/// Number of occurrences of `name` in `vars`.
pub open spec fn count_name(vars: Seq<Seq<char>>, name: Seq<char>) -> nat
    decreases vars.len(),
{
    if vars.len() == 0 {
        0
    } else {
        count_name(vars.drop_last(), name) + if vars.last() == name { 1nat } else { 0nat }
    }
}

/// For every context entry, how many times its name is used.
pub open spec fn use_counts(names: Seq<Seq<char>>, vars: Seq<Seq<char>>) -> Seq<nat> {
    names.map_values(|n: Seq<char>| count_name(vars, n))
}

/// Sum of the first `i` numbers of `c`.
pub open spec fn prefix_sum(c: Seq<nat>, i: int) -> nat
    decreases i,
{
    if i <= 0 {
        0
    } else {
        prefix_sum(c, i - 1) + c[i - 1]
    }
}

/// The first entry whose name is `name`, or `names.len()`.
pub open spec fn first_name(names: Seq<Seq<char>>, name: Seq<char>) -> int
    decreases names.len(),
{
    if names.len() == 0 {
        0
    } else if names[0] == name {
        0
    } else {
        1 + first_name(names.drop_first(), name)
    }
}

/// Where each use of a variable finds its wire among the grouped copies:
/// the block of its context entry, then how many earlier uses it has.
pub open spec fn wiring_perm(names: Seq<Seq<char>>, vars: Seq<Seq<char>>) -> Seq<usize> {
    Seq::new(
        vars.len(),
        |k: int|
            (prefix_sum(use_counts(names, vars), first_name(names, vars[k])) + count_name(
                vars.take(k),
                vars[k],
            )) as usize,
    )
}

/// Every sort repeated as many times as its count, in order.
pub open spec fn repeat_sorts<T>(sorts: Seq<T>, counts: Seq<nat>) -> Seq<T>
    decreases sorts.len(),
{
    if sorts.len() == 0 {
        Seq::empty()
    } else {
        repeat_sorts(sorts.drop_last(), counts) + Seq::new(counts[sorts.len() - 1], |j: int| sorts.last())
    }
}

/// The wiring that feeds the uses `vars` of variables from context wires
/// named `names` of sorts `sorts`: every wire fanned out to its number of
/// uses, then the copies put in the order of the uses.
pub open spec fn wiring_circuit<T, G>(names: Seq<Seq<char>>, sorts: Seq<T>, vars: Seq<Seq<char>>) -> Circuit<T, G> {
    let counts = use_counts(names, vars);
    let grouped = product_all(
        Seq::new(sorts.len(), |i: int| copy_n_circuit::<T, G>(sorts[i], counts[i])),
    );
    let perm = wiring_perm(names, vars);
    if identity_perm(perm) {
        grouped
    } else {
        Circuit::spec_seq(grouped, permute_circuit_spec(repeat_sorts(sorts, counts), perm))
    }
}

/// Every use names some context entry.
pub open spec fn uses_in_context(names: Seq<Seq<char>>, vars: Seq<Seq<char>>) -> bool {
    forall|k: int| 0 <= k < vars.len() ==> names.contains(#[trigger] vars[k])
}

/// Names of context entries, by view.
pub open spec fn entry_names<T>(entries: Seq<(String, T)>) -> Seq<Seq<char>> {
    entries.map_values(|e: (String, T)| e.0@)
}

/// Views of a list of strings.
pub open spec fn string_views(vars: Seq<String>) -> Seq<Seq<char>> {
    vars.map_values(|v: String| v@)
}

/// Sorts of context entries, by view.
pub open spec fn entry_sort_views<T: DeepView>(entries: Seq<(String, T)>) -> Seq<T::V> {
    entries.map_values(|e: (String, T)| e.1.deep_view())
}

proof fn lemma_count_take_step(vars: Seq<Seq<char>>, name: Seq<char>, k: int)
    requires
        0 <= k < vars.len(),
    ensures
        count_name(vars.take(k + 1), name) == count_name(vars.take(k), name) + if vars[k] == name { 1nat } else { 0nat },
{
    assert(vars.take(k + 1).drop_last() =~= vars.take(k));
}

proof fn lemma_count_take_mono(vars: Seq<Seq<char>>, name: Seq<char>, i: int, j: int)
    requires
        0 <= i <= j <= vars.len(),
    ensures
        count_name(vars.take(i), name) <= count_name(vars.take(j), name),
        i < j && vars[i] == name ==> count_name(vars.take(i), name) < count_name(vars.take(j), name),
    decreases j - i,
{
    if i < j {
        lemma_count_take_mono(vars, name, i, j - 1);
        lemma_count_take_step(vars, name, j - 1);
        if vars[i] == name && i + 1 == j {
            lemma_count_take_step(vars, name, i);
        } else if vars[i] == name {
            lemma_count_take_mono(vars, name, i + 1, j - 1);
            lemma_count_take_step(vars, name, i);
        }
    }
}

proof fn lemma_prefix_mono(c: Seq<nat>, i: int, j: int)
    requires
        0 <= i <= j <= c.len(),
    ensures
        prefix_sum(c, i) <= prefix_sum(c, j),
    decreases j - i,
{
    if i < j {
        lemma_prefix_mono(c, i, j - 1);
    }
}

proof fn lemma_first_name(names: Seq<Seq<char>>, name: Seq<char>)
    requires
        names.contains(name),
    ensures
        0 <= first_name(names, name) < names.len(),
        names[first_name(names, name)] == name,
    decreases names.len(),
{
    if names[0] != name {
        let w = choose|w: int| 0 <= w < names.len() && names[w] == name;
        assert(names.drop_first()[w - 1] == name);
        lemma_first_name(names.drop_first(), name);
    }
}

proof fn lemma_slot(names: Seq<Seq<char>>, vars: Seq<Seq<char>>, k: int)
    requires
        uses_in_context(names, vars),
        0 <= k < vars.len(),
    ensures
        0 <= first_name(names, vars[k]) < names.len(),
        names[first_name(names, vars[k])] == vars[k],
        prefix_sum(use_counts(names, vars), first_name(names, vars[k])) + count_name(vars.take(k), vars[k])
            < prefix_sum(use_counts(names, vars), first_name(names, vars[k]) + 1),
        prefix_sum(use_counts(names, vars), first_name(names, vars[k]) + 1) <= prefix_sum(
            use_counts(names, vars),
            names.len() as int,
        ),
{
    let c = use_counts(names, vars);
    assert(names.contains(vars[k]));
    lemma_first_name(names, vars[k]);
    let idx = first_name(names, vars[k]);
    assert(vars.take(vars.len() as int) =~= vars);
    lemma_count_take_mono(vars, vars[k], k, vars.len() as int);
    assert(c[idx] == count_name(vars, vars[k]));
    lemma_prefix_mono(c, idx + 1, names.len() as int);
}

/// The positions chosen for the uses are distinct and lie among the grouped
/// copies.
proof fn lemma_wiring_perm(names: Seq<Seq<char>>, vars: Seq<Seq<char>>)
    requires
        uses_in_context(names, vars),
        prefix_sum(use_counts(names, vars), names.len() as int) <= usize::MAX,
    ensures
        partial_perm(wiring_perm(names, vars), prefix_sum(use_counts(names, vars), names.len() as int)),
{
    let c = use_counts(names, vars);
    let total = prefix_sum(c, names.len() as int);
    let p = wiring_perm(names, vars);
    assert forall|i: int| 0 <= i < p.len() implies #[trigger] p[i] < total by {
        lemma_slot(names, vars, i);
    }
    assert forall|i: int, j: int| 0 <= i < j < p.len() implies p[i] != p[j] by {
        lemma_slot(names, vars, i);
        lemma_slot(names, vars, j);
        let a = first_name(names, vars[i]);
        let b = first_name(names, vars[j]);
        if a == b {
            assert(vars[i] == vars[j]);
            lemma_count_take_mono(vars, vars[i], i, j);
        } else if a < b {
            lemma_prefix_mono(c, a + 1, b);
        } else {
            lemma_prefix_mono(c, b + 1, a);
        }
    }
}

proof fn lemma_first_name_at(names: Seq<Seq<char>>, name: Seq<char>, i: int)
    requires
        0 <= i < names.len(),
        names[i] == name,
        forall|j: int| 0 <= j < i ==> names[j] != name,
    ensures
        first_name(names, name) == i,
    decreases i,
{
    if i > 0 {
        assert(names[0] != name);
        lemma_first_name_at(names.drop_first(), name, i - 1);
    }
}

pub proof fn lemma_repeat_length<T>(sorts: Seq<T>, counts: Seq<nat>)
    requires
        sorts.len() <= counts.len(),
    ensures
        repeat_sorts(sorts, counts).len() == prefix_sum(counts, sorts.len() as int),
    decreases sorts.len(),
{
    if sorts.len() > 0 {
        lemma_repeat_length(sorts.drop_last(), counts);
    }
}

/// The first entry named `name`.
fn find_entry<S>(entries: &[(String, S)], name: &String) -> (r: usize)
    requires
        entry_names(entries@).contains(name@),
    ensures
        r == first_name(entry_names(entries@), name@),
        r < entries@.len(),
{
    let ghost names = entry_names(entries@);
    let mut i: usize = 0;
    while i < entries.len()
        invariant
            i <= entries@.len(),
            names == entry_names(entries@),
            names.contains(name@),
            forall|j: int| 0 <= j < i ==> names[j] != name@,
        decreases entries@.len() - i,
    {
        if entries[i].0 == *name {
            proof {
                lemma_first_name_at(names, name@, i as int);
            }
            return i;
        }
        i = i + 1;
    }
    proof {
        let w = choose|w: int| 0 <= w < names.len() && names[w] == name@;
        assert(names[w] == name@);
    }
    0
}

impl<S: Label, G: DeepView> Circuit<S, G> {
    /// The wiring that feeds the uses `input_vars` of variables, in order,
    /// from the context wires `context_entries`: every context wire is fanned
    /// out to its number of uses and the copies are then permuted into the
    /// order of the uses.
    pub fn wiring_circuit_for_context(context_entries: &[(String, S)], input_vars: &[String]) -> (r: Circuit<S, G>)
        requires
            uses_in_context(entry_names(context_entries@), string_views(input_vars@)),
            prefix_sum(
                use_counts(entry_names(context_entries@), string_views(input_vars@)),
                context_entries@.len() as int,
            ) <= usize::MAX,
        ensures
            circuit_view(r) == wiring_circuit::<S::V, G::V>(
                entry_names(context_entries@),
                entry_sort_views(context_entries@),
                string_views(input_vars@),
            ),
            unique_names(entry_names(context_entries@)) ==> wire_io(circuit_view(r)) == Some(
                (
                    entry_sort_views(context_entries@),
                    string_views(input_vars@).map_values(
                        |v: Seq<char>| entry_sort_views(context_entries@)[first_name(entry_names(context_entries@), v)],
                    ),
                ),
            ),
    {
        let vars_len = input_vars.len();
        proof {
            assert(string_views(input_vars@).len() == vars_len);
            if unique_names(entry_names(context_entries@)) {
                lemma_io_wiring::<S::V, G::V>(
                    entry_names(context_entries@),
                    entry_sort_views(context_entries@),
                    string_views(input_vars@),
                );
            }
        }
        let ghost names = entry_names(context_entries@);
        let ghost vars = string_views(input_vars@);
        let ghost sorts = entry_sort_views(context_entries@);
        let ghost c = use_counts(names, vars);
        let n = context_entries.len();
        let m = input_vars.len();
        let mut counts: Vec<usize> = Vec::new();
        let mut i: usize = 0;
        while i < n
            invariant
                n == context_entries@.len(),
                m == input_vars@.len(),
                names == entry_names(context_entries@),
                vars == string_views(input_vars@),
                c == use_counts(names, vars),
                i <= n,
                counts@.len() == i,
                forall|j: int| 0 <= j < i ==> #[trigger] counts@[j] == c[j],
            decreases n - i,
        {
            let mut count: usize = 0;
            let mut k: usize = 0;
            while k < m
                invariant
                    n == context_entries@.len(),
                    m == input_vars@.len(),
                    names == entry_names(context_entries@),
                    vars == string_views(input_vars@),
                    i < n,
                    k <= m,
                    count <= k,
                    count == count_name(vars.take(k as int), names[i as int]),
                decreases m - k,
            {
                proof {
                    lemma_count_take_step(vars, names[i as int], k as int);
                }
                if input_vars[k] == context_entries[i].0 {
                    count = count + 1;
                }
                k = k + 1;
            }
            proof {
                assert(vars.take(m as int) =~= vars);
            }
            counts.push(count);
            i = i + 1;
        }
        let mut var_circuits: Vec<Circuit<S, G>> = Vec::new();
        let mut i: usize = 0;
        while i < n
            invariant
                n == context_entries@.len(),
                sorts == entry_sort_views(context_entries@),
                counts@.len() == n,
                forall|j: int| 0 <= j < n ==> #[trigger] counts@[j] == c[j],
                i <= n,
                var_circuits@.len() == i,
                forall|j: int| 0 <= j < i ==> #[trigger] circuit_view(var_circuits@[j]) == copy_n_circuit::<S::V, G::V>(
                    sorts[j],
                    c[j],
                ),
            decreases n - i,
        {
            var_circuits.push(Circuit::copy_wire_n_times(context_entries[i].1.duplicate(), counts[i]));
            i = i + 1;
        }
        let ghost vc = var_circuits@;
        let grouped = Circuit::product_many(var_circuits);
        proof {
            lemma_view_product_all(vc);
            assert(vc.map_values(|x: Circuit<S, G>| circuit_view(x)) =~= Seq::new(
                sorts.len(),
                |j: int| copy_n_circuit::<S::V, G::V>(sorts[j], c[j]),
            ));
        }
        let mut grouped_types: Vec<S> = Vec::new();
        let mut offsets: Vec<usize> = Vec::new();
        let mut running: usize = 0;
        let mut i: usize = 0;
        while i < n
            invariant
                n == context_entries@.len(),
                sorts == entry_sort_views(context_entries@),
                c == use_counts(names, vars),
                names == entry_names(context_entries@),
                counts@.len() == n,
                forall|j: int| 0 <= j < n ==> #[trigger] counts@[j] == c[j],
                prefix_sum(c, n as int) <= usize::MAX,
                i <= n,
                running == prefix_sum(c, i as int),
                offsets@.len() == i,
                forall|j: int| 0 <= j < i ==> #[trigger] offsets@[j] == prefix_sum(c, j),
                views(grouped_types@) == repeat_sorts(sorts.take(i as int), c),
            decreases n - i,
        {
            offsets.push(running);
            let ghost before = views(grouped_types@);
            let mut j: usize = 0;
            while j < counts[i]
                invariant
                    n == context_entries@.len(),
                    sorts == entry_sort_views(context_entries@),
                    counts@.len() == n,
                    i < n,
                    j <= counts@[i as int],
                    views(grouped_types@) == before + Seq::new(j as nat, |x: int| sorts[i as int]),
                decreases counts@[i as int] - j,
            {
                let ghost gb = grouped_types@;
                let item = context_entries[i].1.duplicate();
                grouped_types.push(item);
                j = j + 1;
                proof {
                    assert(item.deep_view() == sorts[i as int]);
                    assert(views(grouped_types@) =~= views(gb).push(item.deep_view()));
                    assert(views(grouped_types@) =~= before + Seq::new(j as nat, |x: int| sorts[i as int]));
                }
            }
            proof {
                lemma_prefix_mono(c, i + 1, n as int);
                assert(sorts.take(i + 1).drop_last() =~= sorts.take(i as int));
                assert(views(grouped_types@) =~= repeat_sorts(sorts.take(i + 1), c));
            }
            running = running + counts[i];
            i = i + 1;
        }
        proof {
            assert(sorts.take(n as int) =~= sorts);
        }
        let mut seen: Vec<usize> = Vec::new();
        let mut i: usize = 0;
        while i < n
            invariant
                i <= n,
                seen@.len() == i,
                forall|j: int| 0 <= j < i ==> #[trigger] seen@[j] == 0,
            decreases n - i,
        {
            seen.push(0);
            i = i + 1;
        }
        let mut permutation: Vec<usize> = Vec::new();
        let mut k: usize = 0;
        while k < m
            invariant
                n == context_entries@.len(),
                m == input_vars@.len(),
                names == entry_names(context_entries@),
                vars == string_views(input_vars@),
                c == use_counts(names, vars),
                uses_in_context(names, vars),
                prefix_sum(c, n as int) <= usize::MAX,
                offsets@.len() == n,
                forall|j: int| 0 <= j < n ==> #[trigger] offsets@[j] == prefix_sum(c, j),
                seen@.len() == n,
                forall|j: int|
                    0 <= j < n && j == first_name(names, names[j]) ==> #[trigger] seen@[j] == count_name(
                        vars.take(k as int),
                        names[j],
                    ),
                k <= m,
                permutation@ == wiring_perm(names, vars).take(k as int),
            decreases m - k,
        {
            proof {
                assert(names.contains(vars[k as int]));
                lemma_slot(names, vars, k as int);
            }
            let idx = find_entry(context_entries, &input_vars[k]);
            let use_idx = offsets[idx] + seen[idx];
            permutation.push(use_idx);
            let ghost before = seen@;
            let next = seen[idx] + 1;
            seen.set(idx, next);
            proof {
                assert forall|j: int|
                    0 <= j < n && j == first_name(names, names[j]) implies #[trigger] seen@[j] == count_name(
                        vars.take(k + 1),
                        names[j],
                    ) by {
                    lemma_count_take_step(vars, names[j], k as int);
                    if j != idx {
                        if names[j] == vars[k as int] {
                            assert(first_name(names, names[j]) == idx);
                        }
                    }
                }
                assert(permutation@ =~= wiring_perm(names, vars).take(k + 1));
            }
            k = k + 1;
        }
        proof {
            assert(permutation@ =~= wiring_perm(names, vars));
            lemma_wiring_perm(names, vars);
            lemma_repeat_length(sorts, c);
        }
        let perm = Permutation(permutation);
        if perm.is_identity() {
            grouped
        } else {
            let permute = Circuit::permute_circuit(grouped_types.as_slice(), &perm);
            proof {
                lemma_view_seq_product(grouped, permute);
            }
            Circuit::seq(grouped, permute)
        }
    }
}

/// Facts about the slot that the wiring gives to use `k`.
pub proof fn lemma_slot_public(names: Seq<Seq<char>>, vars: Seq<Seq<char>>, k: int)
    requires
        uses_in_context(names, vars),
        0 <= k < vars.len(),
    ensures
        0 <= first_name(names, vars[k]) < names.len(),
        names[first_name(names, vars[k])] == vars[k],
        count_name(vars.take(k), vars[k]) < use_counts(names, vars)[first_name(names, vars[k])],
{
    lemma_slot(names, vars, k);
    assert(names.contains(vars[k]));
    lemma_first_name(names, vars[k]);
    assert(vars.take(vars.len() as int) =~= vars);
    lemma_count_take_mono(vars, vars[k], k, vars.len() as int);
}

/// Number of entries named `name` among the first `k`.
pub open spec fn name_hits(names: Seq<Seq<char>>, name: Seq<char>, k: int) -> nat
    decreases k,
{
    if k <= 0 {
        0
    } else {
        name_hits(names, name, k - 1) + if names[k - 1] == name { 1nat } else { 0nat }
    }
}

proof fn lemma_prefix_push(names: Seq<Seq<char>>, vars: Seq<Seq<char>>, v: Seq<char>, k: int)
    requires
        0 <= k <= names.len(),
    ensures
        prefix_sum(use_counts(names, vars.push(v)), k) == prefix_sum(use_counts(names, vars), k) + name_hits(names, v, k),
    decreases k,
{
    if k > 0 {
        lemma_prefix_push(names, vars, v, k - 1);
        assert(vars.push(v).drop_last() =~= vars);
    }
}

proof fn lemma_hits_unique(names: Seq<Seq<char>>, name: Seq<char>, k: int)
    requires
        0 <= k <= names.len(),
        forall|i: int, j: int| 0 <= i < j < names.len() ==> names[i] != names[j],
    ensures
        name_hits(names, name, k) <= 1,
        name_hits(names, name, k) == 1 <==> exists|i: int| 0 <= i < k && names[i] == name,
    decreases k,
{
    if k > 0 {
        lemma_hits_unique(names, name, k - 1);
        if names[k - 1] == name {
            if name_hits(names, name, k - 1) == 1 {
                let i = choose|i: int| 0 <= i < k - 1 && names[i] == name;
                assert(names[i] == names[k - 1]);
            }
        }
    }
}

/// Without repeated names, every use takes exactly one copy, so the wiring
/// permutation uses every copy.
pub proof fn lemma_full_wiring_support(names: Seq<Seq<char>>, vars: Seq<Seq<char>>)
    requires
        forall|i: int, j: int| 0 <= i < j < names.len() ==> names[i] != names[j],
        uses_in_context(names, vars),
        vars.len() <= usize::MAX,
    ensures
        prefix_sum(use_counts(names, vars), names.len() as int) == vars.len(),
        full_perm(wiring_perm(names, vars), vars.len()),
    decreases vars.len(),
{
    if vars.len() > 0 {
        let init = vars.drop_last();
        assert forall|k: int| 0 <= k < init.len() implies names.contains(#[trigger] init[k]) by {
            assert(init[k] == vars[k]);
        }
        lemma_full_wiring_support(names, init);
        assert(init.push(vars.last()) =~= vars);
        lemma_prefix_push(names, init, vars.last(), names.len() as int);
        lemma_hits_unique(names, vars.last(), names.len() as int);
        assert(names.contains(vars[vars.len() - 1]));
    } else {
        lemma_prefix_zero(names, vars, names.len() as int);
    }
    lemma_wiring_perm(names, vars);
}

proof fn lemma_prefix_zero(names: Seq<Seq<char>>, vars: Seq<Seq<char>>, k: int)
    requires
        vars.len() == 0,
        0 <= k <= names.len(),
    ensures
        prefix_sum(use_counts(names, vars), k) == 0,
    decreases k,
{
    if k > 0 {
        lemma_prefix_zero(names, vars, k - 1);
    }
}

impl<S, G: GeneratorShape> Circuit<S, G> {
    /// Numbers of input and output wires.
    pub fn arity(&self) -> (r: CircuitArity)
        requires
            arity_fits(*self),
        ensures
            circuit_arity(*self) == Some((r.inputs as nat, r.outputs as nat)),
        decreases self,
    {
        match self {
            Circuit::Id(_) => CircuitArity { inputs: 1, outputs: 1 },
            Circuit::IdOne => CircuitArity { inputs: 0, outputs: 0 },
            Circuit::Generator(gen) => CircuitArity { inputs: gen.arity(), outputs: gen.coarity() },
            Circuit::Swap { .. } => CircuitArity { inputs: 2, outputs: 2 },
            Circuit::Sequence(left, right) => {
                let left_ty = left.arity();
                let right_ty = right.arity();
                CircuitArity { inputs: left_ty.inputs, outputs: right_ty.outputs }
            },
            Circuit::Product(left, right) => {
                let left_ty = left.arity();
                let right_ty = right.arity();
                CircuitArity {
                    inputs: left_ty.inputs + right_ty.inputs,
                    outputs: left_ty.outputs + right_ty.outputs,
                }
            },
            Circuit::Copy(_) => CircuitArity { inputs: 1, outputs: 2 },
            Circuit::Discard(_) => CircuitArity { inputs: 1, outputs: 0 },
            Circuit::Join(_) => CircuitArity { inputs: 2, outputs: 1 },
        }
    }
}

impl<S: Label, G: GeneratorTypes<S>> Circuit<S, G> {
    /// Sorts of the input and output wires; `None` when a generator's sorts
    /// are unknown or a sequential composition joins different sorts.
    pub fn io_types(&self) -> (r: Option<(Vec<S>, Vec<S>)>)
        ensures
            match r {
                Some((i, o)) => circuit_io(*self) == Some((views(i@), views(o@))),
                None => circuit_io(*self) is None,
            },
        decreases self,
    {
        match self {
            Circuit::Id(sort) => {
                let i = vec![sort.duplicate()];
                let o = vec![sort.duplicate()];
                proof {
                    assert(views(i@) =~= seq![sort.deep_view()]);
                    assert(views(o@) =~= seq![sort.deep_view()]);
                }
                Some((i, o))
            },
            Circuit::IdOne => {
                let i: Vec<S> = Vec::new();
                let o: Vec<S> = Vec::new();
                proof {
                    assert(views(i@) =~= Seq::<S::V>::empty());
                    assert(views(o@) =~= Seq::<S::V>::empty());
                }
                Some((i, o))
            },
            Circuit::Generator(gen) => {
                let i = gen.input_types();
                let o = gen.output_types();
                match i {
                    Some(inputs) => match o {
                        Some(outputs) => {
                            proof {
                                assert(views(inputs@) =~= inputs.deep_view());
                                assert(views(outputs@) =~= outputs.deep_view());
                            }
                            Some((inputs, outputs))
                        },
                        None => None,
                    },
                    None => None,
                }
            },
            Circuit::Swap { left, right } => {
                let i = vec![left.duplicate(), right.duplicate()];
                let o = vec![right.duplicate(), left.duplicate()];
                proof {
                    assert(views(i@) =~= seq![left.deep_view(), right.deep_view()]);
                    assert(views(o@) =~= seq![right.deep_view(), left.deep_view()]);
                }
                Some((i, o))
            },
            Circuit::Sequence(left, right) => {
                let l = left.io_types();
                let r = right.io_types();
                match l {
                    None => None,
                    Some((left_in, left_out)) => match r {
                        None => None,
                        Some((right_in, right_out)) => {
                            proof {
                                assert(views(left_out@) =~= left_out.deep_view());
                                assert(views(right_in@) =~= right_in.deep_view());
                            }
                            if !all_equal(&left_out, &right_in) {
                                return None;
                            }
                            Some((left_in, right_out))
                        },
                    },
                }
            },
            Circuit::Product(left, right) => {
                let l = left.io_types();
                let r = right.io_types();
                match l {
                    None => None,
                    Some((mut inputs, mut outputs)) => match r {
                        None => None,
                        Some((mut right_in, mut right_out)) => {
                            let ghost a = inputs@;
                            let ghost b = right_in@;
                            let ghost c = outputs@;
                            let ghost d = right_out@;
                            inputs.append(&mut right_in);
                            outputs.append(&mut right_out);
                            proof {
                                assert(views(inputs@) =~= views(a) + views(b));
                                assert(views(outputs@) =~= views(c) + views(d));
                            }
                            Some((inputs, outputs))
                        },
                    },
                }
            },
            Circuit::Copy(sort) => {
                let i = vec![sort.duplicate()];
                let o = vec![sort.duplicate(), sort.duplicate()];
                proof {
                    assert(views(i@) =~= seq![sort.deep_view()]);
                    assert(views(o@) =~= seq![sort.deep_view(), sort.deep_view()]);
                }
                Some((i, o))
            },
            Circuit::Discard(sort) => {
                let i = vec![sort.duplicate()];
                let o: Vec<S> = Vec::new();
                proof {
                    assert(views(i@) =~= seq![sort.deep_view()]);
                    assert(views(o@) =~= Seq::<S::V>::empty());
                }
                Some((i, o))
            },
            Circuit::Join(sort) => {
                let i = vec![sort.duplicate(), sort.duplicate()];
                let o = vec![sort.duplicate()];
                proof {
                    assert(views(i@) =~= seq![sort.deep_view(), sort.deep_view()]);
                    assert(views(o@) =~= seq![sort.deep_view()]);
                }
                Some((i, o))
            },
        }
    }
}

/// For a circuit of wiring alone, the sorts read off its view are its sorts.
pub proof fn lemma_wire_io_is_circuit_io<S: DeepView, G: GeneratorTypes<S> + DeepView>(c: Circuit<S, G>)
    requires
        wire_io(circuit_view(c)) is Some,
    ensures
        circuit_io(c) == wire_io(circuit_view(c)),
    decreases c,
{
    match c {
        Circuit::Sequence(l, r) => {
            lemma_wire_io_is_circuit_io(*l);
            lemma_wire_io_is_circuit_io(*r);
        },
        Circuit::Product(l, r) => {
            lemma_wire_io_is_circuit_io(*l);
            lemma_wire_io_is_circuit_io(*r);
        },
        _ => {},
    }
}

impl<S: Label, G: Label> Circuit<S, G> {
    /// A copy of this circuit.
    pub fn duplicate(&self) -> (r: Self)
        ensures
            circuit_view(r) == circuit_view(*self),
        decreases self,
    {
        match self {
            Circuit::Id(s) => Circuit::Id(s.duplicate()),
            Circuit::IdOne => Circuit::IdOne,
            Circuit::Generator(g) => Circuit::Generator(g.duplicate()),
            Circuit::Swap { left, right } => Circuit::Swap { left: left.duplicate(), right: right.duplicate() },
            Circuit::Sequence(l, r) => Circuit::Sequence(Box::new(l.duplicate()), Box::new(r.duplicate())),
            Circuit::Product(l, r) => Circuit::Product(Box::new(l.duplicate()), Box::new(r.duplicate())),
            Circuit::Copy(s) => Circuit::Copy(s.duplicate()),
            Circuit::Discard(s) => Circuit::Discard(s.duplicate()),
            Circuit::Join(s) => Circuit::Join(s.duplicate()),
        }
    }

    /// Decides whether two circuits have the same view.
    pub fn same(&self, other: &Self) -> (r: bool)
        ensures
            r == (circuit_view(*self) == circuit_view(*other)),
        decreases self,
    {
        match self {
            Circuit::Id(a) => match other {
                Circuit::Id(b) => a.equals(b),
                _ => false,
            },
            Circuit::IdOne => match other {
                Circuit::IdOne => true,
                _ => false,
            },
            Circuit::Generator(a) => match other {
                Circuit::Generator(b) => a.equals(b),
                _ => false,
            },
            Circuit::Swap { left: al, right: ar } => match other {
                Circuit::Swap { left: bl, right: br } => al.equals(bl) && ar.equals(br),
                _ => false,
            },
            Circuit::Sequence(al, ar) => match other {
                Circuit::Sequence(bl, br) => al.same(bl) && ar.same(br),
                _ => false,
            },
            Circuit::Product(al, ar) => match other {
                Circuit::Product(bl, br) => al.same(bl) && ar.same(br),
                _ => false,
            },
            Circuit::Copy(a) => match other {
                Circuit::Copy(b) => a.equals(b),
                _ => false,
            },
            Circuit::Discard(a) => match other {
                Circuit::Discard(b) => a.equals(b),
                _ => false,
            },
            Circuit::Join(a) => match other {
                Circuit::Join(b) => a.equals(b),
                _ => false,
            },
        }
    }
}

impl<S: Label, G: Label> Clone for Circuit<S, G> {
    fn clone(&self) -> (r: Self)
        ensures
            circuit_view(r) == circuit_view(*self),
    {
        self.duplicate()
    }
}

impl<S: Label, G: Label> Label for Circuit<S, G> {
    fn duplicate(&self) -> (r: Self) {
        Circuit::duplicate(self)
    }

    fn equals(&self, other: &Self) -> (b: bool) {
        self.same(other)
    }
}

} // verus!
