//! Typing contexts: variable names bound to types, kept in name order, with
//! a counter for fresh type variables.

use vstd::prelude::*;
use vstd::string::*;

use crate::types::{type_model, TypeExpr, TypeModel, TypeVar};

verus! {

/// Strict lexicographic order on names, character by character.
pub open spec fn chars_lt(a: Seq<char>, b: Seq<char>) -> bool
    decreases a.len(),
{
    if a.len() == 0 {
        b.len() > 0
    } else if b.len() == 0 {
        false
    } else if a[0] != b[0] {
        (a[0] as int) < (b[0] as int)
    } else {
        chars_lt(a.drop_first(), b.drop_first())
    }
}

/// Names in strictly increasing order.
pub open spec fn names_sorted(names: Seq<Seq<char>>) -> bool {
    forall|i: int, j: int| 0 <= i < j < names.len() ==> chars_lt(#[trigger] names[i], #[trigger] names[j])
}

/// Decides the lexicographic order of two names.
pub fn name_less(a: &str, b: &str) -> (r: bool)
    ensures
        r == chars_lt(a@, b@),
{
    let la = a.unicode_len();
    let lb = b.unicode_len();
    let mut i: usize = 0;
    proof {
        assert(a@.skip(0) =~= a@);
        assert(b@.skip(0) =~= b@);
    }
    while i < la && i < lb
        invariant
            la == a@.len(),
            lb == b@.len(),
            i <= la,
            i <= lb,
            chars_lt(a@, b@) == chars_lt(a@.skip(i as int), b@.skip(i as int)),
        decreases la - i,
    {
        let ca = a.get_char(i);
        let cb = b.get_char(i);
        if ca != cb {
            return (ca as u32) < (cb as u32);
        }
        proof {
            assert(a@.skip(i as int).drop_first() =~= a@.skip(i + 1));
            assert(b@.skip(i as int).drop_first() =~= b@.skip(i + 1));
        }
        i = i + 1;
    }
    i == la && i < lb
}

/// Lexicographic order on names is irreflexive and total on distinct names.
pub proof fn lemma_chars_lt_total(a: Seq<char>, b: Seq<char>)
    ensures
        !chars_lt(a, a),
        a != b ==> (chars_lt(a, b) || chars_lt(b, a)),
        !(chars_lt(a, b) && chars_lt(b, a)),
    decreases a.len(),
{
    if a.len() > 0 {
        lemma_chars_lt_total(a.drop_first(), a.drop_first());
    }
    if a.len() == 0 && b.len() == 0 {
        assert(a =~= b);
    }
    if a.len() > 0 && b.len() > 0 {
        lemma_chars_lt_total(a.drop_first(), b.drop_first());
        if a[0] == b[0] && a != b {
            assert(a.drop_first() != b.drop_first()) by {
                if a.drop_first() == b.drop_first() {
                    assert(a =~= seq![a[0]] + a.drop_first());
                    assert(b =~= seq![b[0]] + b.drop_first());
                }
            }
        }
    }
}

/// Lexicographic order on names is transitive.
pub proof fn lemma_chars_lt_transitive(a: Seq<char>, b: Seq<char>, c: Seq<char>)
    requires
        chars_lt(a, b),
        chars_lt(b, c),
    ensures
        chars_lt(a, c),
    decreases a.len(),
{
    if a.len() > 0 && b.len() > 0 && c.len() > 0 && a[0] == b[0] && b[0] == c[0] {
        lemma_chars_lt_transitive(a.drop_first(), b.drop_first(), c.drop_first());
    }
}

/// A typing context: variable names bound to types, in name order.
#[derive(Debug)]
pub struct Context {
    vars: Vec<(String, TypeExpr)>,
    next_var: usize,
}

/// The model of a context entry.
pub open spec fn entry_model(e: (String, TypeExpr)) -> (Seq<char>, TypeModel) {
    (e.0@, type_model(e.1))
}

impl Context {
    /// The entries of the context in name order, by model.
    pub closed spec fn entries_model(&self) -> Seq<(Seq<char>, TypeModel)> {
        self.vars@.map_values(|e: (String, TypeExpr)| entry_model(e))
    }

    /// The number of type variables handed out so far.
    pub closed spec fn next_var_spec(&self) -> nat {
        self.next_var as nat
    }

    /// The counter of type variables is a `usize`.
    pub proof fn lemma_next_var_bounded(&self)
        ensures
            self.next_var_spec() <= usize::MAX,
    {
    }

    /// The names of the context in order.
    pub open spec fn names(&self) -> Seq<Seq<char>> {
        self.entries_model().map_values(|e: (Seq<char>, TypeModel)| e.0)
    }

    /// The type bound to `name`, if any.
    pub open spec fn lookup(&self, name: Seq<char>) -> Option<TypeModel> {
        if exists|k: int| 0 <= k < self.names().len() && self.names()[k] == name {
            Some(self.entries_model()[choose|k: int| 0 <= k < self.names().len() && self.names()[k] == name].1)
        } else {
            None
        }
    }

    /// The bindings of the context as a map from names to types.
    pub open spec fn bindings(&self) -> Map<Seq<char>, TypeModel> {
        Map::new(|n: Seq<char>| self.lookup(n) is Some, |n: Seq<char>| self.lookup(n)->Some_0)
    }

    /// The bindings together with the counter of type variables.
    pub open spec fn binding_state(&self) -> (Map<Seq<char>, TypeModel>, nat) {
        (self.bindings(), self.next_var_spec())
    }

    #[verifier::type_invariant]
    closed spec fn well_formed(&self) -> bool {
        names_sorted(self.names())
    }

    /// The position of `name` among the names, or where it would go.
    fn position(&self, name: &str) -> (r: (usize, bool))
        ensures
            r.0 <= self.names().len(),
            r.1 ==> r.0 < self.names().len() && self.names()[r.0 as int] == name@,
            !r.1 ==> forall|k: int| 0 <= k < self.names().len() ==> self.names()[k] != name@,
            forall|k: int| 0 <= k < r.0 ==> chars_lt(#[trigger] self.names()[k], name@),
            !r.1 ==> forall|k: int| r.0 <= k < self.names().len() ==> chars_lt(name@, #[trigger] self.names()[k]),
    {
        proof {
            use_type_invariant(self);
        }
        let mut i: usize = 0;
        while i < self.vars.len()
            invariant
                i <= self.vars@.len(),
                self.names().len() == self.vars@.len(),
                names_sorted(self.names()),
                forall|k: int| 0 <= k < i ==> chars_lt(#[trigger] self.names()[k], name@),
            decreases self.vars@.len() - i,
        {
            let entry_name = self.vars[i].0.as_str();
            proof {
                assert(self.names()[i as int] == entry_name@);
            }
            if !name_less(entry_name, name) {
                proof {
                    lemma_chars_lt_total(entry_name@, name@);
                }
                if name_less(name, entry_name) {
                    proof {
                        assert forall|k: int| i <= k < self.names().len() implies chars_lt(
                            name@,
                            #[trigger] self.names()[k],
                        ) by {
                            if k > i {
                                lemma_chars_lt_transitive(name@, self.names()[i as int], self.names()[k]);
                            }
                        }
                        assert forall|k: int| 0 <= k < self.names().len() implies self.names()[k] != name@ by {
                            if k < i {
                                lemma_chars_lt_total(name@, name@);
                            } else {
                                lemma_chars_lt_total(name@, name@);
                            }
                        }
                    }
                    return (i, false);
                }
                return (i, true);
            }
            i = i + 1;
        }
        proof {
            assert forall|k: int| 0 <= k < self.names().len() implies self.names()[k] != name@ by {
                lemma_chars_lt_total(name@, name@);
            }
        }
        (i, false)
    }
}

/// `after` is `before` with the entry inserted at some position.
pub open spec fn inserted(
    before: Seq<(Seq<char>, TypeModel)>,
    after: Seq<(Seq<char>, TypeModel)>,
    entry: (Seq<char>, TypeModel),
) -> bool {
    exists|p: int| 0 <= p <= before.len() && after == before.insert(p, entry)
}

/// `after` is `before` with the entry at some position replaced.
pub open spec fn replaced(
    before: Seq<(Seq<char>, TypeModel)>,
    after: Seq<(Seq<char>, TypeModel)>,
    entry: (Seq<char>, TypeModel),
) -> bool {
    exists|p: int| 0 <= p < before.len() && before[p].0 == entry.0 && after == before.update(p, entry)
}

/// In a sorted list of names, a name occurs at most at one position.
proof fn lemma_sorted_unique(names: Seq<Seq<char>>, i: int, j: int)
    requires
        names_sorted(names),
        0 <= i < names.len(),
        0 <= j < names.len(),
        names[i] == names[j],
    ensures
        i == j,
{
    lemma_chars_lt_total(names[i], names[i]);
    if i < j {
        assert(chars_lt(names[i], names[j]));
    } else if j < i {
        assert(chars_lt(names[j], names[i]));
    }
}

/// The type bound to `name` by the first entry that binds it.
pub open spec fn entries_lookup(entries: Seq<(Seq<char>, TypeModel)>, name: Seq<char>) -> Option<TypeModel>
    decreases entries.len(),
{
    if entries.len() == 0 {
        None
    } else if entries[0].0 == name {
        Some(entries[0].1)
    } else {
        entries_lookup(entries.drop_first(), name)
    }
}

/// An entry that no earlier entry shadows is the one looked up.
pub proof fn lemma_entries_lookup_at(entries: Seq<(Seq<char>, TypeModel)>, i: int, name: Seq<char>)
    requires
        0 <= i < entries.len(),
        entries[i].0 == name,
        forall|k: int| 0 <= k < i ==> #[trigger] entries[k].0 != name,
    ensures
        entries_lookup(entries, name) == Some(entries[i].1),
    decreases i,
{
    if i > 0 {
        assert forall|k: int| 0 <= k < i - 1 implies #[trigger] entries.drop_first()[k].0 != name by {
            assert(entries.drop_first()[k] == entries[k + 1]);
        }
        lemma_entries_lookup_at(entries.drop_first(), i - 1, name);
    }
}

/// A name no entry binds is looked up as unbound.
pub proof fn lemma_entries_lookup_none(entries: Seq<(Seq<char>, TypeModel)>, name: Seq<char>)
    requires
        forall|k: int| 0 <= k < entries.len() ==> #[trigger] entries[k].0 != name,
    ensures
        entries_lookup(entries, name) is None,
    decreases entries.len(),
{
    if entries.len() > 0 {
        assert forall|k: int| 0 <= k < entries.len() - 1 implies #[trigger] entries.drop_first()[k].0 != name by {
            assert(entries.drop_first()[k] == entries[k + 1]);
        }
        lemma_entries_lookup_none(entries.drop_first(), name);
    }
}

/// In a context whose names are in order, looking a name up finds the
/// first entry that binds it.
pub proof fn lemma_lookup_first_entry(c: Context, name: Seq<char>)
    requires
        names_sorted(c.names()),
    ensures
        c.lookup(name) == entries_lookup(c.entries_model(), name),
{
    let names = c.names();
    if exists|k: int| 0 <= k < names.len() && names[k] == name {
        let k = choose|k: int| 0 <= k < names.len() && names[k] == name;
        assert forall|j: int| 0 <= j < k implies #[trigger] c.entries_model()[j].0 != name by {
            assert(names[j] == c.entries_model()[j].0);
            if names[j] == name {
                lemma_sorted_unique(names, j, k);
            }
        }
        assert(names[k] == c.entries_model()[k].0);
        lemma_entries_lookup_at(c.entries_model(), k, name);
        assert forall|i: int| 0 <= i < names.len() && #[trigger] names[i] == name implies i == k by {
            lemma_sorted_unique(names, i, k);
        }
    } else {
        assert forall|j: int| 0 <= j < c.entries_model().len() implies #[trigger] c.entries_model()[j].0 != name by {
            assert(names[j] == c.entries_model()[j].0);
        }
        lemma_entries_lookup_none(c.entries_model(), name);
        assert(c.lookup(name) is None);
    }
}

/// Entries as `get_or_insert_var` leaves them from the empty context: one
/// per variable handed out, each bound to a different type variable below
/// `next`.
pub open spec fn fresh_bindings(es: Seq<(Seq<char>, TypeModel)>, next: nat) -> bool {
    &&& es.len() == next
    &&& forall|i: int| 0 <= i < es.len() ==> (#[trigger] es[i]).1 is Var && es[i].1->Var_0 < next
    &&& forall|i: int, j: int| 0 <= i < j < es.len() ==> (#[trigger] es[i]).1 != (#[trigger] es[j]).1
}

/// Starting from the empty context, each binding that `get_or_insert_var`
/// adds (the next type variable, inserted among the entries) keeps the
/// entries fresh: the counter is the number of names, and distinct names
/// are bound to distinct type variables.
pub proof fn law_fresh_variables_distinct(
    before: Seq<(Seq<char>, TypeModel)>,
    after: Seq<(Seq<char>, TypeModel)>,
    name: Seq<char>,
    next: nat,
)
    requires
        fresh_bindings(before, next),
        next < usize::MAX,
        inserted(before, after, (name, TypeModel::Var(next as usize))),
    ensures
        fresh_bindings(after, next + 1),
        fresh_bindings(Seq::<(Seq<char>, TypeModel)>::empty(), 0),
{
    let p = choose|p: int| 0 <= p <= before.len() && after == #[trigger] before.insert(p, (name, TypeModel::Var(next as usize)));
    assert forall|i: int| 0 <= i < after.len() implies (#[trigger] after[i]).1 is Var && after[i].1->Var_0 < next + 1 by {
        if i < p {
            assert(after[i] == before[i]);
        } else if i > p {
            assert(after[i] == before[i - 1]);
        }
    }
    assert forall|i: int, j: int| 0 <= i < j < after.len() implies (#[trigger] after[i]).1 != (#[trigger] after[j]).1 by {
        if i < p && j < p {
            assert(after[i] == before[i] && after[j] == before[j]);
        } else if i < p && j == p {
            assert(after[i] == before[i]);
        } else if i < p && j > p {
            assert(after[i] == before[i] && after[j] == before[j - 1]);
        } else if i == p {
            assert(after[j] == before[j - 1]);
        } else {
            assert(after[i] == before[i - 1] && after[j] == before[j - 1]);
        }
    }
}

impl Context {
    /// The empty context.
    pub fn new() -> (r: Context)
        ensures
            r.entries_model() == Seq::<(Seq<char>, TypeModel)>::empty(),
            r.next_var_spec() == 0,
            fresh_bindings(r.entries_model(), r.next_var_spec()),
    {
        let r = Context { vars: Vec::new(), next_var: 0 };
        proof {
            assert(r.entries_model() =~= Seq::<(Seq<char>, TypeModel)>::empty());
        }
        r
    }

    /// The type bound to `name`.
    pub fn get(&self, name: &str) -> (r: Option<&TypeExpr>)
        ensures
            match r {
                Some(t) => self.lookup(name@) == Some(type_model(*t)) && entries_lookup(
                    self.entries_model(),
                    name@,
                ) == Some(type_model(*t)),
                None => self.lookup(name@) is None && entries_lookup(self.entries_model(), name@) is None,
            },
    {
        proof {
            use_type_invariant(self);
        }
        let (p, found) = self.position(name);
        if found {
            proof {
                let k = choose|k: int| 0 <= k < self.names().len() && self.names()[k] == name@;
                lemma_sorted_unique(self.names(), k, p as int);
                assert(self.entries_model()[p as int] == entry_model(self.vars@[p as int]));
                assert forall|j: int| 0 <= j < p implies #[trigger] self.entries_model()[j].0 != name@ by {
                    assert(self.names()[j] == self.entries_model()[j].0);
                    assert(chars_lt(self.names()[j], name@));
                    lemma_chars_lt_total(name@, name@);
                }
                lemma_entries_lookup_at(self.entries_model(), p as int, name@);
            }
            Some(&self.vars[p].1)
        } else {
            proof {
                assert forall|j: int| 0 <= j < self.entries_model().len() implies #[trigger] self.entries_model()[j].0
                    != name@ by {
                    assert(self.names()[j] == self.entries_model()[j].0);
                }
                lemma_entries_lookup_none(self.entries_model(), name@);
            }
            None
        }
    }

    /// Binds `name` to `ty`, replacing its former type if it had one.
    pub fn set_var(&mut self, name: &str, ty: TypeExpr)
        ensures
            final(self).next_var_spec() == old(self).next_var_spec(),
            names_sorted(final(self).names()),
            final(self).lookup(name@) == Some(type_model(ty)),
            forall|other: Seq<char>| other != name@ ==> #[trigger] final(self).lookup(other) == old(self).lookup(other),
            old(self).lookup(name@) is Some ==> replaced(
                old(self).entries_model(),
                final(self).entries_model(),
                (name@, type_model(ty)),
            ),
            old(self).lookup(name@) is None ==> inserted(
                old(self).entries_model(),
                final(self).entries_model(),
                (name@, type_model(ty)),
            ),
    {
        proof {
            use_type_invariant(&*self);
        }
        let (p, found) = self.position(name);
        let mut vars: Vec<(String, TypeExpr)> = Vec::new();
        std::mem::swap(&mut vars, &mut self.vars);
        let ghost before = vars@;
        let ghost old_model = before.map_values(|e: (String, TypeExpr)| entry_model(e));
        let entry = (String::from_str(name), ty);
        if found {
            vars.remove(p);
            vars.insert(p, entry);
            proof {
                assert(vars@ =~= before.update(p as int, entry));
                assert(vars@.map_values(|e: (String, TypeExpr)| entry_model(e)) =~= old_model.update(
                    p as int,
                    entry_model(entry),
                ));
            }
        } else {
            vars.insert(p, entry);
            proof {
                assert(vars@.map_values(|e: (String, TypeExpr)| entry_model(e)) =~= old_model.insert(
                    p as int,
                    entry_model(entry),
                ));
            }
        }
        proof {
            let names = vars@.map_values(|e: (String, TypeExpr)| entry_model(e)).map_values(
                |e: (Seq<char>, TypeModel)| e.0,
            );
            let old_names = old_model.map_values(|e: (Seq<char>, TypeModel)| e.0);
            assert forall|i: int, j: int| 0 <= i < j < names.len() implies chars_lt(
                #[trigger] names[i],
                #[trigger] names[j],
            ) by {
                if found {
                    if i == p {
                        assert(names[j] == old_names[j]);
                    } else if j == p {
                        assert(names[i] == old_names[i]);
                    } else {
                        assert(names[i] == old_names[i]);
                        assert(names[j] == old_names[j]);
                    }
                } else {
                    if j < p {
                        assert(names[i] == old_names[i]);
                        assert(names[j] == old_names[j]);
                    } else if i > p {
                        assert(names[i] == old_names[i - 1]);
                        assert(names[j] == old_names[j - 1]);
                    } else if i == p {
                        assert(names[j] == old_names[j - 1]);
                    } else if j == p {
                        assert(names[i] == old_names[i]);
                    } else {
                        assert(names[i] == old_names[i]);
                        assert(names[j] == old_names[j - 1]);
                        lemma_chars_lt_transitive(names[i], name@, names[j]);
                    }
                }
            }
            if found {
                assert(old(self).lookup(name@) is Some);
            } else {
                assert(old(self).lookup(name@) is None);
            }
        }
        self.vars = vars;
        proof {
            let names = self.names();
            let old_names = old(self).names();
            assert(names[p as int] == name@);
            let k = choose|k: int| 0 <= k < names.len() && names[k] == name@;
            lemma_sorted_unique(names, k, p as int);
            assert forall|other: Seq<char>| other != name@ implies #[trigger] self.lookup(other) == old(
                self,
            ).lookup(other) by {
                if exists|k: int| 0 <= k < old_names.len() && old_names[k] == other {
                    let k = choose|k: int| 0 <= k < old_names.len() && old_names[k] == other;
                    let k2 = if found || k < p { k } else { k + 1 };
                    assert(names[k2] == other);
                    let c = choose|c: int| 0 <= c < names.len() && names[c] == other;
                    lemma_sorted_unique(names, c, k2);
                    assert(self.entries_model()[k2] == old(self).entries_model()[k]);
                } else {
                    if exists|c: int| 0 <= c < names.len() && names[c] == other {
                        let c = choose|c: int| 0 <= c < names.len() && names[c] == other;
                        if found || c < p {
                            assert(old_names[c] == other);
                        } else {
                            assert(old_names[c - 1] == other);
                        }
                    }
                }
            }
        }
    }

    /// The type bound to `name`; an unbound name is bound to a fresh type
    /// variable first.
    pub fn get_or_insert_var(&mut self, name: &str) -> (r: TypeExpr)
        requires
            old(self).lookup(name@) is None ==> old(self).next_var_spec() < usize::MAX,
        ensures
            names_sorted(final(self).names()),
            final(self).lookup(name@) == Some(type_model(r)),
            forall|other: Seq<char>| other != name@ ==> #[trigger] final(self).lookup(other) == old(self).lookup(other),
            final(self).next_var_spec() <= old(self).next_var_spec() + 1,
            fresh_bindings(old(self).entries_model(), old(self).next_var_spec()) ==> fresh_bindings(
                final(self).entries_model(),
                final(self).next_var_spec(),
            ),
            match old(self).lookup(name@) {
                Some(t) => type_model(r) == t && final(self).entries_model() == old(self).entries_model()
                    && final(self).next_var_spec() == old(self).next_var_spec(),
                None => r == TypeExpr::Var(TypeVar(old(self).next_var_spec() as usize))
                    && final(self).next_var_spec() == old(self).next_var_spec() + 1 && inserted(
                    old(self).entries_model(),
                    final(self).entries_model(),
                    (name@, type_model(r)),
                ),
            },
    {
        proof {
            use_type_invariant(&*self);
        }
        match self.get(name) {
            Some(ty) => {
                return ty.copy();
            },
            None => {},
        }
        let ghost before = *self;
        let var = TypeExpr::Var(TypeVar(self.next_var));
        self.next_var = self.next_var + 1;
        self.set_var(name, var.copy());
        proof {
            if fresh_bindings(before.entries_model(), before.next_var_spec()) {
                law_fresh_variables_distinct(
                    before.entries_model(),
                    self.entries_model(),
                    name@,
                    before.next_var_spec(),
                );
            }
        }
        var
    }

    /// The entries of the context, in name order.
    pub fn entries(&self) -> (r: Vec<(String, TypeExpr)>)
        ensures
            r@.map_values(|e: (String, TypeExpr)| entry_model(e)) == self.entries_model(),
            names_sorted(self.names()),
    {
        proof {
            use_type_invariant(self);
        }
        let mut out: Vec<(String, TypeExpr)> = Vec::new();
        let mut i: usize = 0;
        while i < self.vars.len()
            invariant
                i <= self.vars@.len(),
                out@.len() == i,
                out@.map_values(|e: (String, TypeExpr)| entry_model(e)) == self.entries_model().subrange(0, i as int),
            decreases self.vars@.len() - i,
        {
            let name = self.vars[i].0.clone();
            let ty = self.vars[i].1.copy();
            let ghost before = out@;
            out.push((name, ty));
            proof {
                assert(entry_model(out@[i as int]) == self.entries_model()[i as int]);
                assert(out@.map_values(|e: (String, TypeExpr)| entry_model(e)) =~= before.map_values(
                    |e: (String, TypeExpr)| entry_model(e),
                ).push(self.entries_model()[i as int]));
            }
            i = i + 1;
            proof {
                assert(out@.map_values(|e: (String, TypeExpr)| entry_model(e)) =~= self.entries_model().subrange(
                    0,
                    i as int,
                ));
            }
        }
        proof {
            assert(self.entries_model().subrange(0, self.vars@.len() as int) =~= self.entries_model());
        }
        out
    }
}

impl Context {
    /// The number of the next fresh type variable.
    pub(crate) fn next_var_value(&self) -> (r: usize)
        ensures
            r == self.next_var_spec(),
    {
        self.next_var
    }
}

impl Context {
    /// A copy of the context.
    pub fn duplicate(&self) -> (r: Context)
        ensures
            r.entries_model() == self.entries_model(),
            r.next_var_spec() == self.next_var_spec(),
            forall|n: Seq<char>| #[trigger] r.lookup(n) == self.lookup(n),
    {
        proof {
            use_type_invariant(self);
        }
        let entries = self.entries();
        let r = Context { vars: entries, next_var: self.next_var };
        proof {
            assert(r.entries_model() =~= self.entries_model());
        }
        r
    }
}

impl Clone for Context {
    fn clone(&self) -> (r: Context)
        ensures
            r.entries_model() == self.entries_model(),
            r.next_var_spec() == self.next_var_spec(),
    {
        self.duplicate()
    }
}

impl Default for Context {
    fn default() -> (r: Context)
        ensures
            r.entries_model() == Seq::<(Seq<char>, TypeModel)>::empty(),
            r.next_var_spec() == 0,
    {
        Context::new()
    }
}

} // verus!
