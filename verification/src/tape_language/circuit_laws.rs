//! Interface laws of the circuit builders: which sorts each builder takes
//! and gives, wire by wire.

use vstd::prelude::*;

use super::circuit::{
    count_name, first_name, lemma_full_wiring_support, prefix_sum, repeat_sorts, use_counts, uses_in_context, wiring_circuit,
    wiring_perm,
    block_swap_perm, copy_n_circuit, copy_wires_circuit, doubled, evens_then_odds, interleave_perm,
    join_wires_circuit, bubble, covers, find_from, full_perm, id_circuit, identity_perm, ids, lemma_swap_covers, permute_circuit_spec,
    permute_from, product_all, range_seq, swap_adjacent_circuit, swap_at, Circuit,
};

verus! {

/// Sorts on the inputs and outputs of a circuit built from wiring alone
/// (identities, exchanges, copies, discards and joins); `None` when the
/// circuit holds a generator or a sequential composition does not match.
pub open spec fn wire_io<T, H>(c: Circuit<T, H>) -> Option<(Seq<T>, Seq<T>)>
    decreases c,
{
    match c {
        Circuit::Id(s) => Some((seq![s], seq![s])),
        Circuit::IdOne => Some((Seq::empty(), Seq::empty())),
        Circuit::Generator(_) => None,
        Circuit::Swap { left, right } => Some((seq![left, right], seq![right, left])),
        Circuit::Sequence(l, r) => match (wire_io(*l), wire_io(*r)) {
            (Some((li, lo)), Some((ri, ro))) => if lo == ri {
                Some((li, ro))
            } else {
                None
            },
            _ => None,
        },
        Circuit::Product(l, r) => match (wire_io(*l), wire_io(*r)) {
            (Some((li, lo)), Some((ri, ro))) => Some((li + ri, lo + ro)),
            _ => None,
        },
        Circuit::Copy(s) => Some((seq![s], seq![s, s])),
        Circuit::Discard(s) => Some((seq![s], Seq::empty())),
        Circuit::Join(s) => Some((seq![s, s], seq![s])),
    }
}

/// Parallel composition concatenates interfaces.
pub proof fn lemma_io_product<T, H>(a: Circuit<T, H>, b: Circuit<T, H>, ai: Seq<T>, ao: Seq<T>, bi: Seq<T>, bo: Seq<T>)
    requires
        wire_io(a) == Some((ai, ao)),
        wire_io(b) == Some((bi, bo)),
    ensures
        wire_io(Circuit::spec_product(a, b)) == Some((ai + bi, ao + bo)),
{
    if a is IdOne {
        assert(ai + bi =~= bi);
        assert(ao + bo =~= bo);
    } else if b is IdOne {
        assert(ai + bi =~= ai);
        assert(ao + bo =~= ao);
    }
}

/// Sequential composition of matching interfaces.
pub proof fn lemma_io_seq<T, H>(a: Circuit<T, H>, b: Circuit<T, H>, ai: Seq<T>, mid: Seq<T>, bo: Seq<T>)
    requires
        wire_io(a) == Some((ai, mid)),
        wire_io(b) == Some((mid, bo)),
    ensures
        wire_io(Circuit::spec_seq(a, b)) == Some((ai, bo)),
{
}

/// Concatenation of a list of sequences, folded from the left.
pub open spec fn joined<T>(ss: Seq<Seq<T>>) -> Seq<T>
    decreases ss.len(),
{
    if ss.len() == 0 {
        Seq::empty()
    } else {
        joined(ss.drop_last()) + ss.last()
    }
}

/// A fold of products concatenates the interfaces of its factors.
pub proof fn lemma_io_product_all<T, H>(cs: Seq<Circuit<T, H>>, ins: Seq<Seq<T>>, outs: Seq<Seq<T>>)
    requires
        ins.len() == cs.len(),
        outs.len() == cs.len(),
        forall|k: int| 0 <= k < cs.len() ==> wire_io(#[trigger] cs[k]) == Some((ins[k], outs[k])),
    ensures
        wire_io(product_all(cs)) == Some((joined(ins), joined(outs))),
    decreases cs.len(),
{
    if cs.len() == 1 {
        assert(joined(ins.drop_last()) =~= Seq::<T>::empty());
        assert(joined(outs.drop_last()) =~= Seq::<T>::empty());
        assert(joined(ins) =~= ins[0]);
        assert(joined(outs) =~= outs[0]);
    } else if cs.len() > 1 {
        lemma_io_product_all(cs.drop_last(), ins.drop_last(), outs.drop_last());
        lemma_io_product(
            product_all(cs.drop_last()),
            cs.last(),
            joined(ins.drop_last()),
            joined(outs.drop_last()),
            ins.last(),
            outs.last(),
        );
    }
}

/// Each singleton sequence, joined, gives back the sequence.
pub proof fn lemma_joined_singletons<T>(ts: Seq<T>)
    ensures
        joined(ts.map_values(|t: T| seq![t])) == ts,
    decreases ts.len(),
{
    if ts.len() > 0 {
        lemma_joined_singletons(ts.drop_last());
        assert(ts.map_values(|t: T| seq![t]).drop_last() =~= ts.drop_last().map_values(|t: T| seq![t]));
        assert(ts.drop_last() + seq![ts.last()] =~= ts);
    }
}

/// The identity on a list of sorts takes and gives that list.
pub proof fn lemma_io_id<T, H>(ts: Seq<T>)
    ensures
        wire_io(id_circuit::<T, H>(ts)) == Some((ts, ts)),
{
    let singles = ts.map_values(|t: T| seq![t]);
    lemma_io_product_all(ids::<T, H>(ts), singles, singles);
    lemma_joined_singletons(ts);
}

/// Exchanging two adjacent wires exchanges their sorts.
pub proof fn lemma_io_swap_adjacent<T, H>(ts: Seq<T>, i: int)
    requires
        0 <= i,
        i + 1 < ts.len(),
    ensures
        wire_io(swap_adjacent_circuit::<T, H>(ts, i)) == Some((ts, swap_at(ts, i))),
{
    let a = ts.subrange(0, i);
    let b = ts.subrange(i + 2, ts.len() as int);
    lemma_io_id::<T, H>(a);
    lemma_io_id::<T, H>(b);
    let mid_in = seq![ts[i], ts[i + 1]];
    let mid_out = seq![ts[i + 1], ts[i]];
    assert(a + mid_in + b =~= ts);
    assert(a + mid_out + b =~= swap_at(ts, i));
    assert(mid_in + b =~= ts.subrange(i, ts.len() as int));
    assert(a + (mid_in + b) =~= ts);
    assert(a + (mid_out + b) =~= swap_at(ts, i));
    let left = id_circuit::<T, H>(a);
    let mid = Circuit::<T, H>::Swap { left: ts[i], right: ts[i + 1] };
    let right = id_circuit::<T, H>(b);
    assert(wire_io(mid) == Some((mid_in, mid_out)));
    if i == 0 && i + 2 == ts.len() {
        assert(mid_in =~= ts);
        assert(mid_out =~= swap_at(ts, i));
    } else if i == 0 {
        assert(a =~= Seq::<T>::empty());
        assert(mid_in + b =~= ts);
        assert(mid_out + b =~= swap_at(ts, i));
    } else if i + 2 == ts.len() {
        assert(b =~= Seq::<T>::empty());
        assert(a + mid_in =~= ts);
        assert(a + mid_out =~= swap_at(ts, i));
    } else {
        let inner = Circuit::<T, H>::Product(Box::new(mid), Box::new(right));
        assert(wire_io(inner) == Some((mid_in + b, mid_out + b)));
    }
}

proof fn lemma_find_from(s: Seq<usize>, x: usize, from: int)
    requires
        0 <= from,
        exists|p: int| from <= p < s.len() && s[p] == x,
    ensures
        from <= find_from(s, x, from) < s.len(),
        s[find_from(s, x, from)] == x,
        forall|j: int| from <= j < find_from(s, x, from) ==> s[j] != x,
    decreases s.len() - from,
{
    if s[from] != x {
        let p = choose|p: int| from <= p < s.len() && s[p] == x;
        assert(from + 1 <= p);
        lemma_find_from(s, x, from + 1);
    }
}

/// Moving a wire down by adjacent exchanges keeps the composed circuit's
/// outputs in step with the order of wire indices.
proof fn lemma_bubble<T, H>(types: Seq<T>, cur: Seq<usize>, ts: Seq<T>, pos: int, target: int, acc: Circuit<T, H>)
    requires
        0 <= target <= pos < ts.len(),
        cur.len() == ts.len(),
        ts.len() == types.len(),
        wire_io(acc) == Some((types, ts)),
        covers(cur, types.len()),
        forall|p: int| 0 <= p < cur.len() ==> #[trigger] cur[p] < types.len() && ts[p] == types[cur[p] as int],
    ensures
        ({
            let (c2, t2, a2) = bubble(cur, ts, pos, target, acc);
            &&& wire_io(a2) == Some((types, t2))
            &&& c2.len() == cur.len()
            &&& t2.len() == ts.len()
            &&& covers(c2, types.len())
            &&& forall|p: int| 0 <= p < c2.len() ==> #[trigger] c2[p] < types.len() && t2[p] == types[c2[p] as int]
            &&& c2[target] == cur[pos]
            &&& forall|j: int| 0 <= j < target ==> #[trigger] c2[j] == cur[j]
        }),
    decreases pos - target,
{
    if pos > target {
        let i = pos - 1;
        let sw = swap_adjacent_circuit::<T, H>(ts, i);
        lemma_io_swap_adjacent::<T, H>(ts, i);
        lemma_io_seq(acc, sw, types, ts, swap_at(ts, i));
        lemma_swap_covers(cur, i, types.len());
        let c1 = swap_at(cur, i);
        let t1 = swap_at(ts, i);
        assert forall|p: int| 0 <= p < c1.len() implies #[trigger] c1[p] < types.len() && t1[p] == types[c1[p] as int] by {
            if p == i {
                assert(c1[p] == cur[i + 1]);
            } else if p == i + 1 {
                assert(c1[p] == cur[i]);
            } else {
                assert(c1[p] == cur[p]);
            }
        }
        lemma_bubble(types, c1, t1, i, target, Circuit::spec_seq(acc, sw));
    }
}

/// Placing wires in the order of a permutation from position `k` on ends
/// with the permuted sorts on the outputs.
proof fn lemma_permute_from<T, H>(types: Seq<T>, perm: Seq<usize>, k: int, cur: Seq<usize>, ts: Seq<T>, acc: Circuit<T, H>)
    requires
        full_perm(perm, types.len()),
        0 <= k <= perm.len(),
        cur.len() == types.len(),
        ts.len() == types.len(),
        covers(cur, types.len()),
        wire_io(acc) == Some((types, ts)),
        forall|p: int| 0 <= p < cur.len() ==> #[trigger] cur[p] < types.len() && ts[p] == types[cur[p] as int],
        forall|j: int| 0 <= j < k ==> #[trigger] cur[j] == perm[j],
    ensures
        wire_io(permute_from(perm, k, cur, ts, acc)) == Some(
            (types, perm.map_values(|i: usize| types[i as int])),
        ),
    decreases perm.len() - k,
{
    if k >= perm.len() {
        assert forall|p: int| 0 <= p < ts.len() implies ts[p] == perm.map_values(|i: usize| types[i as int])[p] by {
            assert(cur[p] == perm[p]);
            assert(ts[p] == types[cur[p] as int]);
        }
        assert(ts =~= perm.map_values(|i: usize| types[i as int]));
    } else {
        let d = perm[k];
        assert(cur.contains(d));
        let w = choose|w: int| 0 <= w < cur.len() && cur[w] == d;
        lemma_find_from(cur, d, 0);
        let pos = find_from(cur, d, 0);
        if pos < k {
            assert(cur[pos] == perm[pos]);
            assert(false);
        }
        lemma_bubble(types, cur, ts, pos, k, acc);
        let (c2, t2, a2) = bubble(cur, ts, pos, k, acc);
        lemma_permute_from(types, perm, k + 1, c2, t2, a2);
    }
}

/// A permutation circuit takes its sorts in order and gives them in the
/// order of the permutation.
pub proof fn lemma_io_permute<T, H>(types: Seq<T>, perm: Seq<usize>)
    requires
        full_perm(perm, types.len()),
        types.len() <= usize::MAX,
    ensures
        wire_io(permute_circuit_spec::<T, H>(types, perm)) == Some(
            (types, perm.map_values(|i: usize| types[i as int])),
        ),
{
    lemma_io_id::<T, H>(types);
    if identity_perm(perm) {
        assert(types =~= perm.map_values(|i: usize| types[i as int]));
    } else {
        let cur = range_seq(types.len());
        assert forall|v: usize| v < types.len() implies #[trigger] cur.contains(v) by {
            assert(cur[v as int] == v);
        }
        assert forall|p: int| 0 <= p < cur.len() implies #[trigger] cur[p] < types.len() && types[p] == types[cur[p] as int] by {
            assert(cur[p] == p);
        }
        lemma_permute_from(types, perm, 0, cur, types, id_circuit::<T, H>(types));
    }
}

/// `n` copies of one sort.
pub open spec fn copies_of<T>(t: T, n: nat) -> Seq<T> {
    Seq::new(n, |i: int| t)
}

/// Fanning out a wire of sort `t` into `n` wires takes one `t` and gives
/// `n` of them.
pub proof fn lemma_io_copy_n<T, H>(t: T, n: nat)
    ensures
        wire_io(copy_n_circuit::<T, H>(t, n)) == Some((seq![t], copies_of(t, n))),
    decreases n,
{
    if n == 0 {
        assert(copies_of(t, 0) =~= Seq::<T>::empty());
    } else if n == 1 {
        assert(copies_of(t, 1) =~= seq![t]);
    } else if n == 2 {
        assert(copies_of(t, 2) =~= seq![t, t]);
    } else {
        lemma_io_copy_n::<T, H>(t, (n - 1) as nat);
        lemma_io_product(
            Circuit::<T, H>::Id(t),
            copy_n_circuit::<T, H>(t, (n - 1) as nat),
            seq![t],
            seq![t],
            seq![t],
            copies_of(t, (n - 1) as nat),
        );
        assert(seq![t] + copies_of(t, (n - 1) as nat) =~= copies_of(t, n));
        assert(seq![t] + seq![t] =~= seq![t, t]);
        lemma_io_seq(
            Circuit::<T, H>::Copy(t),
            Circuit::spec_product(Circuit::<T, H>::Id(t), copy_n_circuit::<T, H>(t, (n - 1) as nat)),
            seq![t],
            seq![t, t],
            copies_of(t, n),
        );
    }
}

proof fn lemma_joined_pairs<T>(ts: Seq<T>)
    ensures
        joined(ts.map_values(|t: T| seq![t, t])) == doubled(ts),
    decreases ts.len(),
{
    if ts.len() > 0 {
        lemma_joined_pairs(ts.drop_last());
        assert(ts.map_values(|t: T| seq![t, t]).drop_last() =~= ts.drop_last().map_values(|t: T| seq![t, t]));
        assert(doubled(ts.drop_last()) + seq![ts.last(), ts.last()] =~= doubled(ts));
    }
}

proof fn lemma_evens_then_odds_map<T>(ts: Seq<T>)
    requires
        2 * ts.len() <= usize::MAX,
    ensures
        evens_then_odds(ts.len()).map_values(|i: usize| doubled(ts)[i as int]) == ts + ts,
{
    let n = ts.len();
    let mapped = evens_then_odds(n).map_values(|i: usize| doubled(ts)[i as int]);
    assert forall|k: int| 0 <= k < 2 * n implies #[trigger] mapped[k] == (ts + ts)[k] by {
        if k < n {
            assert((2 * k) / 2 == k);
        } else {
            assert((2 * (k - n) + 1) / 2 == k - n);
        }
    }
    assert(mapped =~= ts + ts);
}

/// Copying a list of wires gives the list twice.
pub proof fn lemma_io_copy_wires<T, H>(ts: Seq<T>)
    requires
        2 * ts.len() <= usize::MAX,
    ensures
        wire_io(copy_wires_circuit::<T, H>(ts)) == Some((ts, ts + ts)),
{
    let copies = ts.map_values(|t: T| Circuit::<T, H>::Copy(t));
    let singles = ts.map_values(|t: T| seq![t]);
    let pairs = ts.map_values(|t: T| seq![t, t]);
    lemma_io_product_all(copies, singles, pairs);
    lemma_joined_singletons(ts);
    lemma_joined_pairs(ts);
    if ts.len() <= 1 {
        if ts.len() == 0 {
            assert(doubled(ts) =~= ts + ts);
        } else {
            assert(doubled(ts) =~= ts + ts);
        }
    } else {
        let n = ts.len();
        let perm = evens_then_odds(n);
        crate::tape_language::circuit::lemma_full_evens_then_odds(n);
        lemma_io_permute::<T, H>(doubled(ts), perm);
        lemma_evens_then_odds_map(ts);
        lemma_io_seq(
            product_all(copies),
            permute_circuit_spec::<T, H>(doubled(ts), perm),
            ts,
            doubled(ts),
            ts + ts,
        );
    }
}

proof fn lemma_interleave_map<T>(ts: Seq<T>)
    requires
        2 * ts.len() <= usize::MAX,
    ensures
        interleave_perm(ts.len()).map_values(|i: usize| (ts + ts)[i as int]) == doubled(ts),
{
    let n = ts.len();
    let mapped = interleave_perm(n).map_values(|i: usize| (ts + ts)[i as int]);
    assert forall|m: int| 0 <= m < 2 * n implies #[trigger] mapped[m] == doubled(ts)[m] by {
        assert(m / 2 < n);
    }
    assert(mapped =~= doubled(ts));
}

/// Joining two copies of a list of wires gives the list once.
pub proof fn lemma_io_join_wires<T, H>(ts: Seq<T>)
    requires
        2 * ts.len() <= usize::MAX,
    ensures
        wire_io(join_wires_circuit::<T, H>(ts)) == Some((ts + ts, ts)),
{
    let joins = ts.map_values(|t: T| Circuit::<T, H>::Join(t));
    let singles = ts.map_values(|t: T| seq![t]);
    let pairs = ts.map_values(|t: T| seq![t, t]);
    lemma_io_product_all(joins, pairs, singles);
    lemma_joined_singletons(ts);
    lemma_joined_pairs(ts);
    if ts.len() <= 1 {
        assert(doubled(ts) =~= ts + ts);
    } else {
        let n = ts.len();
        let perm = interleave_perm(n);
        crate::tape_language::circuit::lemma_full_interleave_perm(n);
        lemma_io_permute::<T, H>(ts + ts, perm);
        lemma_interleave_map(ts);
        lemma_io_seq(
            permute_circuit_spec::<T, H>(ts + ts, perm),
            product_all(joins),
            ts + ts,
            doubled(ts),
            ts,
        );
    }
}

/// Exchanging two blocks of wires exchanges their sorts.
pub proof fn lemma_io_swap_blocks<T, H>(a: Seq<T>, b: Seq<T>)
    requires
        a.len() + b.len() <= usize::MAX,
    ensures
        wire_io(permute_circuit_spec::<T, H>(a + b, block_swap_perm(a.len(), b.len()))) == Some((a + b, b + a)),
{
    crate::tape_language::circuit::lemma_full_block_swap_perm(a.len(), b.len());
    lemma_io_permute::<T, H>(a + b, block_swap_perm(a.len(), b.len()));
    assert(block_swap_perm(a.len(), b.len()).map_values(|i: usize| (a + b)[i as int]) =~= b + a);
}

/// No name occurs twice.
pub open spec fn unique_names(names: Seq<Seq<char>>) -> bool {
    forall|i: int, j: int| 0 <= i < j < names.len() ==> names[i] != names[j]
}

proof fn lemma_joined_copies<T>(sorts: Seq<T>, c: Seq<nat>)
    requires
        sorts.len() <= c.len(),
    ensures
        joined(Seq::new(sorts.len(), |i: int| copies_of(sorts[i], c[i]))) == repeat_sorts(sorts, c),
    decreases sorts.len(),
{
    if sorts.len() > 0 {
        lemma_joined_copies(sorts.drop_last(), c);
        let all = Seq::new(sorts.len(), |i: int| copies_of(sorts[i], c[i]));
        assert(all.drop_last() =~= Seq::new(sorts.drop_last().len(), |i: int| copies_of(sorts.drop_last()[i], c[i])));
        assert(all.last() =~= Seq::new(c[sorts.len() - 1], |j: int| sorts.last()));
    }
}

/// Position `prefix_sum(c, i) + j` of the repeated sorts holds sort `i`.
proof fn lemma_repeat_index<T>(sorts: Seq<T>, c: Seq<nat>, i: int, j: int)
    requires
        sorts.len() <= c.len(),
        0 <= i < sorts.len(),
        0 <= j < c[i],
    ensures
        prefix_sum(c, i) + j < repeat_sorts(sorts, c).len(),
        repeat_sorts(sorts, c)[prefix_sum(c, i) + j] == sorts[i],
    decreases sorts.len(),
{
    crate::tape_language::circuit::lemma_repeat_length(sorts, c);
    crate::tape_language::circuit::lemma_repeat_length(sorts.drop_last(), c);
    if i < sorts.len() - 1 {
        lemma_repeat_index(sorts.drop_last(), c, i, j);
    }
}

/// The wiring for a context without repeated names takes the context's sorts
/// and gives, for every use, the sort of the variable used.
pub proof fn lemma_io_wiring<T, H>(names: Seq<Seq<char>>, sorts: Seq<T>, vars: Seq<Seq<char>>)
    requires
        names.len() == sorts.len(),
        unique_names(names),
        uses_in_context(names, vars),
        vars.len() <= usize::MAX,
    ensures
        wire_io(wiring_circuit::<T, H>(names, sorts, vars)) == Some(
            (sorts, vars.map_values(|v: Seq<char>| sorts[first_name(names, v)])),
        ),
{
    let c = use_counts(names, vars);
    let n = sorts.len();
    let parts = Seq::new(n, |i: int| copy_n_circuit::<T, H>(sorts[i], c[i]));
    let singles = sorts.map_values(|t: T| seq![t]);
    let outs = Seq::new(n, |i: int| copies_of(sorts[i], c[i]));
    assert forall|k: int| 0 <= k < parts.len() implies wire_io(#[trigger] parts[k]) == Some((singles[k], outs[k])) by {
        lemma_io_copy_n::<T, H>(sorts[k], c[k]);
    }
    lemma_io_product_all(parts, singles, outs);
    lemma_joined_singletons(sorts);
    lemma_joined_copies(sorts, c);
    let rep = repeat_sorts(sorts, c);
    lemma_full_wiring_support(names, vars);
    crate::tape_language::circuit::lemma_repeat_length(sorts, c);
    let perm = wiring_perm(names, vars);
    let expected = vars.map_values(|v: Seq<char>| sorts[first_name(names, v)]);
    let mapped = perm.map_values(|i: usize| rep[i as int]);
    assert forall|k: int| 0 <= k < vars.len() implies #[trigger] mapped[k] == expected[k] by {
        crate::tape_language::circuit::lemma_slot_public(names, vars, k);
        let idx = first_name(names, vars[k]);
        let seen = count_name(vars.take(k), vars[k]);
        lemma_repeat_index(sorts, c, idx, seen as int);
    }
    assert(mapped =~= expected);
    if identity_perm(perm) {
        assert forall|k: int| 0 <= k < rep.len() implies rep[k] == mapped[k] by {
            assert(perm[k] == k);
        }
        assert(rep =~= expected);
    } else {
        lemma_io_permute::<T, H>(rep, perm);
        lemma_io_seq(
            product_all(parts),
            permute_circuit_spec::<T, H>(rep, perm),
            sorts,
            rep,
            expected,
        );
    }
}

/// Copying every wire and then joining the copies back is a circuit from
/// the wires to themselves.
pub proof fn law_copy_then_join_wires<T, H>(ts: Seq<T>)
    requires
        2 * ts.len() <= usize::MAX,
    ensures
        wire_io(Circuit::spec_seq(copy_wires_circuit::<T, H>(ts), join_wires_circuit::<T, H>(ts))) == Some((ts, ts)),
{
    lemma_io_copy_wires::<T, H>(ts);
    lemma_io_join_wires::<T, H>(ts);
    lemma_io_seq(copy_wires_circuit::<T, H>(ts), join_wires_circuit::<T, H>(ts), ts, ts + ts, ts);
}

} // verus!
