//! The text forms of sorts, monomials, polynomials, circuits and tapes, and
//! the indented trees that show a circuit or a tape with the sorts of its
//! parts.

use vstd::prelude::*;
use vstd::string::*;

use crate::expression_circuit::{generator_text, generator_to_string, ExprGenerator};
use crate::label::Label;
use crate::syntax::{type_text, type_to_string};
use crate::tape_language::circuit::{circuit_io, Circuit};
use crate::tape_language::monomial_tape::{MonomialHyperNode, MonomialTapeEdge, TensorKind};
use crate::tape_language::tape::{tape_io, Tape};
use crate::tape_language::{
    lemma_view_sorts, lemma_view_terms, monomial_view, monomial_views, polynomial_view, views, GeneratorTypes, Monomial,
    Polynomial,
};
use crate::types::TypeExpr;

verus! {

/// Labels with a text form, which depends on their view only.
pub trait Text: DeepView + Sized {
    spec fn view_text(v: Self::V) -> Seq<char>;

    fn to_text(&self) -> (r: String)
        ensures
            r@ == Self::view_text(self.deep_view()),
    ;
}

impl Text for TypeExpr {
    open spec fn view_text(v: crate::types::TypeModel) -> Seq<char> {
        type_text(v)
    }

    fn to_text(&self) -> (r: String) {
        type_to_string(self)
    }
}

impl Text for ExprGenerator {
    open spec fn view_text(v: crate::expression_circuit::ExprGeneratorModel) -> Seq<char> {
        generator_text(v)
    }

    fn to_text(&self) -> (r: String) {
        generator_to_string(self)
    }
}

/// The parts, with `sep` between each two.
pub open spec fn joined_with(parts: Seq<Seq<char>>, sep: Seq<char>) -> Seq<char>
    decreases parts.len(),
{
    if parts.len() == 0 {
        Seq::empty()
    } else if parts.len() == 1 {
        parts[0]
    } else {
        joined_with(parts.drop_last(), sep) + sep + parts.last()
    }
}

/// The texts of labels given by their views.
pub open spec fn texts<S: Text>(vs: Seq<S::V>) -> Seq<Seq<char>> {
    vs.map_values(|v: S::V| S::view_text(v))
}

/// The text of a list of sorts: `1` for none, else the sorts joined by ` * `.
pub open spec fn sorts_text<S: Text>(vs: Seq<S::V>) -> Seq<char> {
    if vs.len() == 0 {
        "1"@
    } else {
        joined_with(texts::<S>(vs), " * "@)
    }
}

/// The text of a monomial: `1` for `One`, the sort for an atom, the sorts
/// of a product joined by ` * `.
pub open spec fn monomial_text<S: Text>(m: Monomial<S::V>) -> Seq<char> {
    match m {
        Monomial::One => "1"@,
        Monomial::Atom(v) => S::view_text(v),
        Monomial::Product(_, _) => joined_with(texts::<S>(m.sorts()), " * "@),
    }
}

/// The text of a list of monomials: `0` for none, else their texts joined
/// by ` + `.
pub open spec fn monomials_text<S: Text>(ms: Seq<Monomial<S::V>>) -> Seq<char> {
    if ms.len() == 0 {
        "0"@
    } else {
        joined_with(ms.map_values(|m: Monomial<S::V>| monomial_text::<S>(m)), " + "@)
    }
}

/// Joins texts with a separator.
fn join_texts(parts: &Vec<String>, sep: &str) -> (r: String)
    ensures
        r@ == joined_with(parts@.map_values(|s: String| s@), sep@),
{
    let ghost ps = parts@.map_values(|s: String| s@);
    let mut out = String::new();
    let mut i: usize = 0;
    while i < parts.len()
        invariant
            ps == parts@.map_values(|s: String| s@),
            i <= parts@.len(),
            out@ == joined_with(ps.subrange(0, i as int), sep@),
        decreases parts@.len() - i,
    {
        if i > 0 {
            out = out.concat(sep);
        }
        out = out.concat(parts[i].as_str());
        proof {
            let sub = ps.subrange(0, i + 1);
            assert(sub.drop_last() =~= ps.subrange(0, i as int));
            assert(sub.last() == parts@[i as int]@);
            if i == 0 {
                assert(ps.subrange(0, 0) =~= Seq::<Seq<char>>::empty());
                assert(out@ =~= joined_with(sub, sep@));
            }
        }
        i = i + 1;
    }
    proof {
        assert(ps.subrange(0, parts@.len() as int) =~= ps);
    }
    out
}

/// The texts of the labels, in order.
fn label_texts<S: Text>(items: &[S]) -> (r: Vec<String>)
    ensures
        r@.map_values(|s: String| s@) == texts::<S>(views(items@)),
{
    let mut out: Vec<String> = Vec::new();
    let mut i: usize = 0;
    while i < items.len()
        invariant
            i <= items@.len(),
            out@.len() == i,
            forall|k: int| 0 <= k < i ==> (#[trigger] out@[k])@ == S::view_text(items@[k].deep_view()),
        decreases items@.len() - i,
    {
        out.push(items[i].to_text());
        i = i + 1;
    }
    proof {
        assert(out@.map_values(|s: String| s@) =~= texts::<S>(views(items@)));
    }
    out
}

/// The text of a list of sorts (see `sorts_text`).
pub fn format_sorts<S: Text>(sorts: &[S]) -> (r: String)
    ensures
        r@ == sorts_text::<S>(views(sorts@)),
{
    if sorts.len() == 0 {
        return String::from_str("1");
    }
    let parts = label_texts(sorts);
    join_texts(&parts, " * ")
}

impl<S: Text + Label> Monomial<S> {
    /// The text of the monomial (see `monomial_text`).
    pub fn to_text(&self) -> (r: String)
        ensures
            r@ == monomial_text::<S>(monomial_view(*self)),
    {
        match self {
            Monomial::One => String::from_str("1"),
            Monomial::Atom(s) => s.to_text(),
            Monomial::Product(_, _) => {
                let sorts = self.sorts_vec();
                proof {
                    lemma_view_sorts(*self);
                }
                let parts = label_texts(sorts.as_slice());
                proof {
                    assert(sorts@.map_values(|x: S| x.deep_view()) =~= sorts.deep_view());
                }
                join_texts(&parts, " * ")
            },
        }
    }
}

/// The text of a list of monomials (see `monomials_text`).
pub fn format_monomials<S: Text + Label>(monos: &[Monomial<S>]) -> (r: String)
    ensures
        r@ == monomials_text::<S>(monomial_views(monos@)),
{
    if monos.len() == 0 {
        return String::from_str("0");
    }
    let mut parts: Vec<String> = Vec::new();
    let mut i: usize = 0;
    while i < monos.len()
        invariant
            i <= monos@.len(),
            parts@.len() == i,
            forall|k: int| 0 <= k < i ==> (#[trigger] parts@[k])@ == monomial_text::<S>(monomial_view(monos@[k])),
        decreases monos@.len() - i,
    {
        parts.push(monos[i].to_text());
        i = i + 1;
    }
    proof {
        assert(parts@.map_values(|s: String| s@) =~= monomial_views(monos@).map_values(
            |m: Monomial<S::V>| monomial_text::<S>(m),
        ));
    }
    join_texts(&parts, " + ")
}

impl<S: Text + Label> Polynomial<S> {
    /// The text of the polynomial: its terms as `format_monomials` writes
    /// them, `0` for none.
    pub fn to_text(&self) -> (r: String)
        ensures
            r@ == monomials_text::<S>(polynomial_view(*self).terms()),
    {
        let terms = self.terms_vec();
        proof {
            lemma_view_terms(*self);
        }
        format_monomials(terms.as_slice())
    }
}

/// The name of a tensor: `add` or `mul`.
pub open spec fn tensor_text(kind: TensorKind) -> Seq<char> {
    match kind {
        TensorKind::Additive => "add"@,
        TensorKind::Multiplicative => "mul"@,
    }
}

impl TensorKind {
    /// The name of the tensor (see `tensor_text`).
    pub fn to_text(self) -> (r: String)
        ensures
            r@ == tensor_text(self),
    {
        match self {
            TensorKind::Additive => String::from_str("add"),
            TensorKind::Multiplicative => String::from_str("mul"),
        }
    }
}

impl<S: Text + Label> MonomialHyperNode<S> {
    /// `tensor:context`.
    pub fn to_text(&self) -> (r: String)
        ensures
            r@ == tensor_text(self.tensor_kind) + ":"@ + monomial_text::<S>(monomial_view(self.context)),
    {
        self.tensor_kind.to_text().concat(":").concat(self.context.to_text().as_str())
    }
}

/// The text of an edge of a monomial drawing: the generator, the name of a
/// structural box, or a change of tensor with its context.
pub open spec fn monomial_edge_text<S: Text, G: Text>(e: MonomialTapeEdge<S, G>) -> Seq<char> {
    match e {
        MonomialTapeEdge::Generator(g) => G::view_text(g.deep_view()),
        MonomialTapeEdge::CircuitCopy => "copy"@,
        MonomialTapeEdge::CircuitDiscard => "discard"@,
        MonomialTapeEdge::CircuitJoin => "join"@,
        MonomialTapeEdge::TapeDiscard => "tape-discard"@,
        MonomialTapeEdge::TapeSplit => "split"@,
        MonomialTapeEdge::TapeCreate => "create"@,
        MonomialTapeEdge::TapeMerge => "merge"@,
        MonomialTapeEdge::FromAddToMul(m) => "from-add-to-mul("@ + monomial_text::<S>(monomial_view(m)) + ")"@,
        MonomialTapeEdge::FromMulToAdd(m) => "from-mul-to-add("@ + monomial_text::<S>(monomial_view(m)) + ")"@,
    }
}

impl<S: Text + Label, G: Text> MonomialTapeEdge<S, G> {
    /// The text of the edge (see `monomial_edge_text`).
    pub fn to_text(&self) -> (r: String)
        ensures
            r@ == monomial_edge_text(*self),
    {
        match self {
            MonomialTapeEdge::Generator(g) => g.to_text(),
            MonomialTapeEdge::CircuitCopy => String::from_str("copy"),
            MonomialTapeEdge::CircuitDiscard => String::from_str("discard"),
            MonomialTapeEdge::CircuitJoin => String::from_str("join"),
            MonomialTapeEdge::TapeDiscard => String::from_str("tape-discard"),
            MonomialTapeEdge::TapeSplit => String::from_str("split"),
            MonomialTapeEdge::TapeCreate => String::from_str("create"),
            MonomialTapeEdge::TapeMerge => String::from_str("merge"),
            MonomialTapeEdge::FromAddToMul(m) => String::from_str("from-add-to-mul(").concat(m.to_text().as_str()).concat(
                ")",
            ),
            MonomialTapeEdge::FromMulToAdd(m) => String::from_str("from-mul-to-add(").concat(m.to_text().as_str()).concat(
                ")",
            ),
        }
    }
}

/// The text of a circuit: `id(s)`, `id(1)`, the generator, `swap(l, r)`,
/// `l; r` for a sequence, `l ⊗ r` for a product, `copy(s)`, `discard(s)`,
/// `join(s)`.
pub open spec fn circuit_text<S: Text, G: Text>(c: Circuit<S, G>) -> Seq<char>
    decreases c,
{
    match c {
        Circuit::Id(s) => "id("@ + S::view_text(s.deep_view()) + ")"@,
        Circuit::IdOne => "id(1)"@,
        Circuit::Generator(g) => G::view_text(g.deep_view()),
        Circuit::Swap { left, right } => "swap("@ + S::view_text(left.deep_view()) + ", "@ + S::view_text(
            right.deep_view(),
        ) + ")"@,
        Circuit::Sequence(l, r) => circuit_text(*l) + "; "@ + circuit_text(*r),
        Circuit::Product(l, r) => circuit_text(*l) + " ⊗ "@ + circuit_text(*r),
        Circuit::Copy(s) => "copy("@ + S::view_text(s.deep_view()) + ")"@,
        Circuit::Discard(s) => "discard("@ + S::view_text(s.deep_view()) + ")"@,
        Circuit::Join(s) => "join("@ + S::view_text(s.deep_view()) + ")"@,
    }
}

impl<S: Text, G: Text> Circuit<S, G> {
    /// The text of the circuit (see `circuit_text`).
    pub fn to_text(&self) -> (r: String)
        ensures
            r@ == circuit_text(*self),
        decreases self,
    {
        match self {
            Circuit::Id(s) => String::from_str("id(").concat(s.to_text().as_str()).concat(")"),
            Circuit::IdOne => String::from_str("id(1)"),
            Circuit::Generator(g) => g.to_text(),
            Circuit::Swap { left, right } => String::from_str("swap(").concat(left.to_text().as_str()).concat(", ").concat(
                right.to_text().as_str(),
            ).concat(")"),
            Circuit::Sequence(l, r) => l.to_text().concat("; ").concat(r.to_text().as_str()),
            Circuit::Product(l, r) => l.to_text().concat(" ⊗ ").concat(r.to_text().as_str()),
            Circuit::Copy(s) => String::from_str("copy(").concat(s.to_text().as_str()).concat(")"),
            Circuit::Discard(s) => String::from_str("discard(").concat(s.to_text().as_str()).concat(")"),
            Circuit::Join(s) => String::from_str("join(").concat(s.to_text().as_str()).concat(")"),
        }
    }
}

/// ` [in: inputs, out: outputs]` for known sorts, ` [in: ?, out: ?]` else.
pub open spec fn circuit_io_text<S: Text, G: GeneratorTypes<S>>(c: Circuit<S, G>) -> Seq<char> {
    match circuit_io(c) {
        Some((i, o)) => " [in: "@ + sorts_text::<S>(i) + ", out: "@ + sorts_text::<S>(o) + "]"@,
        None => " [in: ?, out: ?]"@,
    }
}

/// The circuit as an indented tree, every line starting with `pad`: the
/// kind of the node with its labels and its sorts, then, for a sequence or
/// a product, its two parts with two more spaces. No line feed follows the
/// last line.
pub open spec fn circuit_tree_text<S: Text, G: Text + GeneratorTypes<S>>(c: Circuit<S, G>, pad: Seq<char>) -> Seq<
    char,
>
    decreases c,
{
    let io = circuit_io_text(c);
    match c {
        Circuit::Id(s) => pad + "Id("@ + S::view_text(s.deep_view()) + ")"@ + io,
        Circuit::IdOne => pad + "IdOne"@ + io,
        Circuit::Generator(g) => pad + "Gen("@ + G::view_text(g.deep_view()) + ")"@ + io,
        Circuit::Swap { left, right } => pad + "Swap("@ + S::view_text(left.deep_view()) + ", "@ + S::view_text(
            right.deep_view(),
        ) + ")"@ + io,
        Circuit::Copy(s) => pad + "Copy("@ + S::view_text(s.deep_view()) + ")"@ + io,
        Circuit::Discard(s) => pad + "Discard("@ + S::view_text(s.deep_view()) + ")"@ + io,
        Circuit::Join(s) => pad + "Join("@ + S::view_text(s.deep_view()) + ")"@ + io,
        Circuit::Sequence(l, r) => pad + "Seq"@ + io + "\n"@ + circuit_tree_text(*l, pad + "  "@) + "\n"@
            + circuit_tree_text(*r, pad + "  "@),
        Circuit::Product(l, r) => pad + "Product"@ + io + "\n"@ + circuit_tree_text(*l, pad + "  "@) + "\n"@
            + circuit_tree_text(*r, pad + "  "@),
    }
}

impl<S: Text + Label, G: Text + GeneratorTypes<S>> Circuit<S, G> {
    fn io_text(&self) -> (r: String)
        ensures
            r@ == circuit_io_text(*self),
    {
        match self.io_types() {
            Some((i, o)) => String::from_str(" [in: ").concat(format_sorts(i.as_slice()).as_str()).concat(", out: ").concat(
                format_sorts(o.as_slice()).as_str(),
            ).concat("]"),
            None => String::from_str(" [in: ?, out: ?]"),
        }
    }

    fn tree_text_with_pad(&self, pad: &String) -> (r: String)
        ensures
            r@ == circuit_tree_text(*self, pad@),
        decreases self,
    {
        let io = self.io_text();
        let p = pad.clone();
        match self {
            Circuit::Id(s) => p.concat("Id(").concat(s.to_text().as_str()).concat(")").concat(io.as_str()),
            Circuit::IdOne => p.concat("IdOne").concat(io.as_str()),
            Circuit::Generator(g) => p.concat("Gen(").concat(g.to_text().as_str()).concat(")").concat(io.as_str()),
            Circuit::Swap { left, right } => p.concat("Swap(").concat(left.to_text().as_str()).concat(", ").concat(
                right.to_text().as_str(),
            ).concat(")").concat(io.as_str()),
            Circuit::Copy(s) => p.concat("Copy(").concat(s.to_text().as_str()).concat(")").concat(io.as_str()),
            Circuit::Discard(s) => p.concat("Discard(").concat(s.to_text().as_str()).concat(")").concat(io.as_str()),
            Circuit::Join(s) => p.concat("Join(").concat(s.to_text().as_str()).concat(")").concat(io.as_str()),
            Circuit::Sequence(l, r) => {
                let inner = pad.clone().concat("  ");
                p.concat("Seq").concat(io.as_str()).concat("\n").concat(l.tree_text_with_pad(&inner).as_str()).concat(
                    "\n",
                ).concat(r.tree_text_with_pad(&inner).as_str())
            },
            Circuit::Product(l, r) => {
                let inner = pad.clone().concat("  ");
                p.concat("Product").concat(io.as_str()).concat("\n").concat(l.tree_text_with_pad(&inner).as_str()).concat(
                    "\n",
                ).concat(r.tree_text_with_pad(&inner).as_str())
            },
        }
    }
}

/// The circuit as an indented tree (see `circuit_tree_text`), indented by
/// `indent` times two spaces.
pub fn format_circuit_tree<S: Text + Label, G: Text + GeneratorTypes<S>>(circuit: &Circuit<S, G>, indent: usize) -> (r:
    String)
    ensures
        r@ == circuit_tree_text(*circuit, crate::typing::indent_text(indent as nat)),
{
    let pad = crate::typing::indentation(indent);
    circuit.tree_text_with_pad(&pad)
}

/// ` [in: inputs, out: outputs]` for known interfaces, ` [in: ?, out: ?]`
/// else.
pub open spec fn tape_io_text<S: Text, G: GeneratorTypes<S>>(t: Tape<S, G>) -> Seq<char> {
    match tape_io(t) {
        Some((i, o)) => " [in: "@ + monomials_text::<S>(i) + ", out: "@ + monomials_text::<S>(o) + "]"@,
        None => " [in: ?, out: ?]"@,
    }
}

/// The tape as an indented tree, every line starting with `pad`: the kind of
/// the node with its monomials and its interfaces, then its parts with two
/// more spaces (an embedded circuit as a circuit tree). No line feed
/// follows the last line.
pub open spec fn tape_tree_text<S: Text, G: Text + GeneratorTypes<S>>(t: Tape<S, G>, pad: Seq<char>) -> Seq<char>
    decreases t,
{
    let io = tape_io_text(t);
    match t {
        Tape::Id(m) => pad + "Id("@ + monomial_text::<S>(monomial_view(m)) + ")"@ + io,
        Tape::IdZero => pad + "IdZero"@ + io,
        Tape::EmbedCircuit(c) => pad + "EmbedCircuit"@ + io + "\n"@ + circuit_tree_text(*c, pad + "  "@),
        Tape::Swap { left, right } => pad + "Swap("@ + monomial_text::<S>(monomial_view(left)) + ", "@
            + monomial_text::<S>(monomial_view(right)) + ")"@ + io,
        Tape::Trace { around, tape } => pad + "Trace("@ + monomial_text::<S>(monomial_view(around)) + ")"@ + io + "\n"@
            + tape_tree_text(*tape, pad + "  "@),
        Tape::Discard(m) => pad + "Discard("@ + monomial_text::<S>(monomial_view(m)) + ")"@ + io,
        Tape::Split(m) => pad + "Split("@ + monomial_text::<S>(monomial_view(m)) + ")"@ + io,
        Tape::Create(m) => pad + "Create("@ + monomial_text::<S>(monomial_view(m)) + ")"@ + io,
        Tape::Merge(m) => pad + "Merge("@ + monomial_text::<S>(monomial_view(m)) + ")"@ + io,
        Tape::Sequence(l, r) => pad + "Seq"@ + io + "\n"@ + tape_tree_text(*l, pad + "  "@) + "\n"@ + tape_tree_text(
            *r,
            pad + "  "@,
        ),
        Tape::Product(l, r) => pad + "Product"@ + io + "\n"@ + tape_tree_text(*l, pad + "  "@) + "\n"@ + tape_tree_text(
            *r,
            pad + "  "@,
        ),
        Tape::Sum(l, r) => pad + "Sum"@ + io + "\n"@ + tape_tree_text(*l, pad + "  "@) + "\n"@ + tape_tree_text(
            *r,
            pad + "  "@,
        ),
    }
}

impl<S: Text + Label, G: Text + GeneratorTypes<S>> Tape<S, G> {
    fn io_text(&self) -> (r: String)
        ensures
            r@ == tape_io_text(*self),
    {
        match self.io_types() {
            Some((i, o)) => String::from_str(" [in: ").concat(format_monomials(i.as_slice()).as_str()).concat(
                ", out: ",
            ).concat(format_monomials(o.as_slice()).as_str()).concat("]"),
            None => String::from_str(" [in: ?, out: ?]"),
        }
    }

    fn tree_text_with_pad(&self, pad: &String) -> (r: String)
        ensures
            r@ == tape_tree_text(*self, pad@),
        decreases self,
    {
        let io = self.io_text();
        let p = pad.clone();
        match self {
            Tape::Id(m) => p.concat("Id(").concat(m.to_text().as_str()).concat(")").concat(io.as_str()),
            Tape::IdZero => p.concat("IdZero").concat(io.as_str()),
            Tape::EmbedCircuit(c) => {
                let inner = pad.clone().concat("  ");
                p.concat("EmbedCircuit").concat(io.as_str()).concat("\n").concat(c.tree_text_with_pad(&inner).as_str())
            },
            Tape::Swap { left, right } => p.concat("Swap(").concat(left.to_text().as_str()).concat(", ").concat(
                right.to_text().as_str(),
            ).concat(")").concat(io.as_str()),
            Tape::Trace { around, tape } => {
                let inner = pad.clone().concat("  ");
                p.concat("Trace(").concat(around.to_text().as_str()).concat(")").concat(io.as_str()).concat("\n").concat(
                    tape.tree_text_with_pad(&inner).as_str(),
                )
            },
            Tape::Discard(m) => p.concat("Discard(").concat(m.to_text().as_str()).concat(")").concat(io.as_str()),
            Tape::Split(m) => p.concat("Split(").concat(m.to_text().as_str()).concat(")").concat(io.as_str()),
            Tape::Create(m) => p.concat("Create(").concat(m.to_text().as_str()).concat(")").concat(io.as_str()),
            Tape::Merge(m) => p.concat("Merge(").concat(m.to_text().as_str()).concat(")").concat(io.as_str()),
            Tape::Sequence(l, r) => {
                let inner = pad.clone().concat("  ");
                p.concat("Seq").concat(io.as_str()).concat("\n").concat(l.tree_text_with_pad(&inner).as_str()).concat(
                    "\n",
                ).concat(r.tree_text_with_pad(&inner).as_str())
            },
            Tape::Product(l, r) => {
                let inner = pad.clone().concat("  ");
                p.concat("Product").concat(io.as_str()).concat("\n").concat(l.tree_text_with_pad(&inner).as_str()).concat(
                    "\n",
                ).concat(r.tree_text_with_pad(&inner).as_str())
            },
            Tape::Sum(l, r) => {
                let inner = pad.clone().concat("  ");
                p.concat("Sum").concat(io.as_str()).concat("\n").concat(l.tree_text_with_pad(&inner).as_str()).concat(
                    "\n",
                ).concat(r.tree_text_with_pad(&inner).as_str())
            },
        }
    }
}

/// The tape as an indented tree (see `tape_tree_text`), indented by
/// `indent` times two spaces.
pub fn format_tape_tree<S: Text + Label, G: Text + GeneratorTypes<S>>(tape: &Tape<S, G>, indent: usize) -> (r: String)
    ensures
        r@ == tape_tree_text(*tape, crate::typing::indent_text(indent as nat)),
{
    let pad = crate::typing::indentation(indent);
    tape.tree_text_with_pad(&pad)
}

} // verus!
