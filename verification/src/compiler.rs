//! The compiler back end: from the derivation tree of a program to its
//! tape, the drawing of the tape over monomial nodes, the types of that
//! drawing, and the drawing's text in the DOT language.

use vstd::prelude::*;

use open_hypergraphs::lax::{Hyperedge, Hypergraph, NodeId, OpenHypergraph};
use open_hypergraphs_dot::{generate_dot_with, Options};
use graphviz_rust::printer::{DotPrinter, PrinterContext};

use crate::command_tape::{command_tape, tape_from_command};
use crate::label::Label;
use crate::command_typing::{collect_tree_constraints, tree_constraints, CommandDerivationTree};
use crate::expression_circuit::ExprGenerator;
use crate::program_tape::{
    apply_substitution_to_monomial, graph_equations, graph_types, monomial_substituted, solve_program_tape_with_subst,
    TapeGraph,
};
use crate::solver::{all_hold, all_primitive, first_solution, solvable, TypeSubstitution};
use crate::strictify::{classes_agree, node_classes, strictified, strictify_drawing};
use crate::tape_language::drawing::{drawn, tape_counts_fit, tape_drawing, tape_fresh, tape_wires};
use crate::tape_language::tape::{tape_view, Tape};
use crate::tape_language::lax_graph::{below, edge_views, HyperEdge, LaxGraph, LaxGraphModel};
use crate::tape_language::monomial_tape::{
    edge_same, monomial_drawing_view, tape_monomial_drawing, MonomialDrawing, MonomialHyperNode, MonomialTape,
    MonomialTapeEdge, TensorKind,
};
use crate::tape_language::text::{monomial_edge_text, monomial_text};
use crate::tape_language::monomial_view;
use crate::types::{TypeConstraint, TypeExpr, TypeModel};

verus! {

/// A front end: turns the text of a program into its derivation tree.
pub trait CompilerFrontend {
    type Error;

    /// Whether `r` is an answer of this front end for the program text
    /// `source` named `source_name`; a front end that says nothing of its
    /// answers keeps the default, under which any answer is one.
    closed spec fn answers(&self, source_name: Seq<char>, source: Seq<char>, r: Result<CommandDerivationTree, Self::Error>) -> bool {
        true
    }

    fn compile(&self, source_name: &str, source: &str) -> (r: Result<CommandDerivationTree, Self::Error>)
        ensures
            self.answers(source_name@, source@, r),
    ;
}

/// How to compile: `raw_tape` skips solving the types of the drawing.
#[derive(Debug, Clone, Copy)]
pub struct CompileOptions {
    pub raw_tape: bool,
}

/// What compiling produces: the drawing of the program in the DOT language.
#[derive(Debug)]
pub struct CompileArtifacts {
    pub ir_dot: String,
}

/// Why compiling failed: the front end's error, or a message of the back
/// end.
#[derive(Debug)]
pub enum CompileError<E> {
    Frontend(E),
    Backend(String),
}

/// The DOT text that `open-hypergraphs-dot` gives for a lax open hypergraph
/// with these node labels, edge labels, hyperedges, identified pairs and
/// interfaces, printed by `graphviz-rust`.
pub uninterp spec fn dot_text(
    nodes: Seq<Seq<char>>,
    edges: Seq<Seq<char>>,
    adjacency: Seq<(Seq<usize>, Seq<usize>)>,
    quotient: Seq<(usize, usize)>,
    sources: Seq<usize>,
    targets: Seq<usize>,
) -> Seq<char>;

pub open spec fn texts(s: Seq<String>) -> Seq<Seq<char>> {
    s.map_values(|t: String| t@)
}

/// `open_hypergraphs_dot::generate_dot_with`, with labels shown as they
/// are, on the graph moved into the crate's lax open hypergraph, and the
/// result printed with `graphviz_rust`'s `DotPrinter`. The text is named,
/// not stated.
#[verifier::external_body]
fn render_dot(graph: LaxGraph<String, String>) -> (r: String)
    requires
        graph.adjacency@.len() >= graph.edges@.len(),
    ensures
        r@ == dot_text(
            texts(graph.nodes@),
            texts(graph.edges@),
            edge_views(graph.adjacency@),
            graph.quotient@,
            graph.sources@,
            graph.targets@,
        ),
{
    let n = |v: Vec<usize>| -> Vec<NodeId> { v.into_iter().map(NodeId).collect() };
    let adjacency = graph.adjacency.into_iter().map(|e| Hyperedge { sources: n(e.sources), targets: n(e.targets) }).collect();
    let (left, right): (Vec<usize>, Vec<usize>) = graph.quotient.into_iter().unzip();
    let hypergraph = Hypergraph { nodes: graph.nodes, edges: graph.edges, adjacency, quotient: (n(left), n(right)) };
    let g = OpenHypergraph { sources: n(graph.sources), targets: n(graph.targets), hypergraph };
    generate_dot_with(&g, &Options::default().display()).print(&mut PrinterContext::default())
}

/// The node texts of a monomial drawing.
pub open spec fn node_texts(nodes: Seq<MonomialHyperNode<TypeExpr>>) -> Seq<Seq<char>> {
    nodes.map_values(|n: MonomialHyperNode<TypeExpr>| monomial_text::<TypeExpr>(monomial_view(n.context)))
}

/// The edge texts of a monomial drawing.
pub open spec fn edge_texts(edges: Seq<MonomialTapeEdge<TypeExpr, ExprGenerator>>) -> Seq<Seq<char>> {
    edges.map_values(|e: MonomialTapeEdge<TypeExpr, ExprGenerator>| monomial_edge_text(e))
}

fn copy_ids(ids: &Vec<usize>) -> (r: Vec<usize>)
    ensures
        r@ == ids@,
{
    let mut out: Vec<usize> = Vec::new();
    let mut i: usize = 0;
    while i < ids.len()
        invariant
            i <= ids@.len(),
            out@ =~= ids@.subrange(0, i as int),
        decreases ids@.len() - i,
    {
        out.push(ids[i]);
        i = i + 1;
    }
    out
}

/// The DOT text of a monomial drawing: nodes are labelled by the text of
/// their context and edges by their own text.
pub fn render_drawing_dot(graph: &MonomialDrawing<TypeExpr, ExprGenerator>) -> (r: String)
    requires
        graph@.wf(),
    ensures
        r@ == dot_text(
            node_texts(graph.nodes@),
            edge_texts(graph.edges@),
            graph@.adjacency,
            graph@.quotient,
            graph@.sources,
            graph@.targets,
        ),
{
    let mut nodes: Vec<String> = Vec::new();
    let mut i: usize = 0;
    while i < graph.nodes.len()
        invariant
            i <= graph.nodes@.len(),
            texts(nodes@) =~= node_texts(graph.nodes@.subrange(0, i as int)),
        decreases graph.nodes@.len() - i,
    {
        let t = graph.nodes[i].context.to_text();
        let ghost before = nodes@;
        nodes.push(t);
        proof {
            assert(texts(nodes@) =~= texts(before).push(t@));
            assert(graph.nodes@.subrange(0, i + 1) =~= graph.nodes@.subrange(0, i as int).push(graph.nodes@[i as int]));
        }
        i = i + 1;
    }
    let mut edges: Vec<String> = Vec::new();
    let mut e: usize = 0;
    while e < graph.edges.len()
        invariant
            e <= graph.edges@.len(),
            texts(edges@) =~= edge_texts(graph.edges@.subrange(0, e as int)),
        decreases graph.edges@.len() - e,
    {
        let t = graph.edges[e].to_text();
        let ghost before = edges@;
        edges.push(t);
        proof {
            assert(texts(edges@) =~= texts(before).push(t@));
            assert(graph.edges@.subrange(0, e + 1) =~= graph.edges@.subrange(0, e as int).push(graph.edges@[e as int]));
        }
        e = e + 1;
    }
    let mut adjacency: Vec<HyperEdge> = Vec::new();
    let mut k: usize = 0;
    while k < graph.adjacency.len()
        invariant
            k <= graph.adjacency@.len(),
            edge_views(adjacency@) =~= edge_views(graph.adjacency@.subrange(0, k as int)),
        decreases graph.adjacency@.len() - k,
    {
        let h = HyperEdge { sources: copy_ids(&graph.adjacency[k].sources), targets: copy_ids(&graph.adjacency[k].targets) };
        let ghost before = adjacency@;
        adjacency.push(h);
        proof {
            assert(edge_views(adjacency@) =~= edge_views(before).push((h.sources@, h.targets@)));
            assert(graph.adjacency@.subrange(0, k + 1) =~= graph.adjacency@.subrange(0, k as int).push(graph.adjacency@[k as int]));
        }
        k = k + 1;
    }
    let mut quotient: Vec<(usize, usize)> = Vec::new();
    let mut q: usize = 0;
    while q < graph.quotient.len()
        invariant
            q <= graph.quotient@.len(),
            quotient@ =~= graph.quotient@.subrange(0, q as int),
        decreases graph.quotient@.len() - q,
    {
        quotient.push(graph.quotient[q]);
        q = q + 1;
    }
    proof {
        assert(graph.nodes@.subrange(0, graph.nodes@.len() as int) =~= graph.nodes@);
        assert(graph.edges@.subrange(0, graph.edges@.len() as int) =~= graph.edges@);
        assert(graph.adjacency@.subrange(0, graph.adjacency@.len() as int) =~= graph.adjacency@);
        assert(graph.quotient@.subrange(0, graph.quotient@.len() as int) =~= graph.quotient@);
    }
    let labelled = LaxGraph {
        nodes,
        edges,
        adjacency,
        quotient,
        sources: copy_ids(&graph.sources),
        targets: copy_ids(&graph.targets),
    };
    render_dot(labelled)
}

/// The node with the substitution applied to its context.
pub fn apply_substitution_to_monomial_node(node: &MonomialHyperNode<TypeExpr>, subst: &TypeSubstitution) -> (r:
    MonomialHyperNode<TypeExpr>)
    ensures
        node_substituted(*node, r, subst.bindings()),
{
    MonomialHyperNode::new(node.tensor_kind, apply_substitution_to_monomial(&node.context, subst))
}

/// `b` is `a` with the substitution `s` applied to its context.
pub open spec fn node_substituted(a: MonomialHyperNode<TypeExpr>, b: MonomialHyperNode<TypeExpr>, s: Seq<(usize, TypeModel)>) -> bool {
    b.tensor_kind == a.tensor_kind && monomial_view(b.context) == monomial_substituted(monomial_view(a.context), s)
}

/// `b` is `a` with the substitution `s` applied to the context of a change
/// of tensor; any other edge is copied.
pub open spec fn monomial_edge_substituted<G: DeepView>(
    a: MonomialTapeEdge<TypeExpr, G>,
    b: MonomialTapeEdge<TypeExpr, G>,
    s: Seq<(usize, TypeModel)>,
) -> bool {
    match a {
        MonomialTapeEdge::FromAddToMul(m) => b matches MonomialTapeEdge::FromAddToMul(m2) && monomial_view(m2)
            == monomial_substituted(monomial_view(m), s),
        MonomialTapeEdge::FromMulToAdd(m) => b matches MonomialTapeEdge::FromMulToAdd(m2) && monomial_view(m2)
            == monomial_substituted(monomial_view(m), s),
        _ => edge_same(b, a),
    }
}

/// The edge with the substitution applied to the context of a change of
/// tensor; any other edge is copied.
pub fn apply_substitution_to_monomial_edge<G: Label>(edge: &MonomialTapeEdge<TypeExpr, G>, subst: &TypeSubstitution) -> (r:
    MonomialTapeEdge<TypeExpr, G>)
    ensures
        monomial_edge_substituted(*edge, r, subst.bindings()),
{
    match edge {
        MonomialTapeEdge::FromAddToMul(m) => MonomialTapeEdge::FromAddToMul(apply_substitution_to_monomial(m, subst)),
        MonomialTapeEdge::FromMulToAdd(m) => MonomialTapeEdge::FromMulToAdd(apply_substitution_to_monomial(m, subst)),
        other => other.duplicate(),
    }
}

/// `h` is `graph` with the substitution `s` applied to the context of
/// every node and of every change of tensor; the structure stays.
pub open spec fn drawing_substituted(
    graph: MonomialDrawing<TypeExpr, ExprGenerator>,
    h: MonomialDrawing<TypeExpr, ExprGenerator>,
    s: Seq<(usize, TypeModel)>,
) -> bool {
    &&& h@.wf()
    &&& h@.adjacency == graph@.adjacency
    &&& h@.quotient == graph@.quotient
    &&& h@.sources == graph@.sources
    &&& h@.targets == graph@.targets
    &&& h@.nodes.len() == graph@.nodes.len()
    &&& h@.edges.len() == graph@.edges.len()
    &&& forall|k: int| 0 <= k < h@.nodes.len() ==> node_substituted(graph.nodes@[k], #[trigger] h.nodes@[k], s)
    &&& forall|k: int| 0 <= k < h@.edges.len() ==> monomial_edge_substituted(graph.edges@[k], #[trigger] h.edges@[k], s)
}

/// The DOT text of a monomial drawing.
pub open spec fn drawing_dot(g: MonomialDrawing<TypeExpr, ExprGenerator>) -> Seq<char> {
    dot_text(node_texts(g.nodes@), edge_texts(g.edges@), g@.adjacency, g@.quotient, g@.sources, g@.targets)
}

/// `text` is what compiling the derivation `tree` gives: the DOT text of the
/// drawing over monomial nodes of the program's tape, with made-up sorts
/// numbered from zero; unless `raw`, with the types of the first solution
/// applied and the identified nodes merged, a solution being a substitution
/// that satisfies the equations of the tape's drawing and the derivation's
/// constraints and makes every type of that drawing primitive.
pub open spec fn compiled_text(tree: CommandDerivationTree, raw: bool, text: Seq<char>) -> bool {
    exists|t: Tape<TypeExpr, ExprGenerator>, g: MonomialDrawing<TypeExpr, ExprGenerator>|
        #![trigger tape_view(t), monomial_drawing_view(g@)]
        {
            &&& command_tape(tree) == Some(tape_view(t))
            &&& monomial_drawing_view(g@) == tape_monomial_drawing(t, TensorKind::Multiplicative, 0)
            &&& raw ==> text == drawing_dot(g)
            &&& !raw ==> exists|
                term: TapeGraph,
                s: TypeSubstitution,
                g2: MonomialDrawing<TypeExpr, ExprGenerator>,
                h: MonomialDrawing<TypeExpr, ExprGenerator>,
            |
                #![trigger tape_drawing(t, 0nat, term), drawing_substituted(g, g2, s.bindings()), strictified(g2, h)]
                {
                    &&& tape_drawing(t, 0nat, term)
                    &&& all_hold(graph_equations(term), s.bindings())
                    &&& all_hold(tree_constraints(tree), s.bindings())
                    &&& all_primitive(graph_types(term), s.bindings())
                    &&& first_solution(graph_types(term), graph_equations(term) + tree_constraints(tree), s.bindings())
                    &&& drawing_substituted(g, g2, s.bindings())
                    &&& strictified(g2, h)
                    &&& text == drawing_dot(h)
                }
        }
}

/// The drawing with the substitution applied to every context, in the
/// nodes and in the edges that change a context's tensor.
pub fn substitute_monomial_drawing(graph: MonomialDrawing<TypeExpr, ExprGenerator>, subst: &TypeSubstitution) -> (r:
    MonomialDrawing<TypeExpr, ExprGenerator>)
    requires
        graph@.wf(),
    ensures
        r@.wf(),
        r@.adjacency == graph@.adjacency,
        r@.quotient == graph@.quotient,
        r@.sources == graph@.sources,
        r@.targets == graph@.targets,
        r@.nodes.len() == graph@.nodes.len(),
        r@.edges.len() == graph@.edges.len(),
        forall|k: int| 0 <= k < r@.nodes.len() ==> node_substituted(graph.nodes@[k], #[trigger] r.nodes@[k], subst.bindings()),
        forall|k: int|
            0 <= k < r@.edges.len() ==> monomial_edge_substituted(graph.edges@[k], #[trigger] r.edges@[k], subst.bindings()),
        drawing_substituted(graph, r, subst.bindings()),
{
    let ghost gm = graph@;
    let ghost old_nodes = graph.nodes@;
    let ghost old_edges = graph.edges@;
    let LaxGraph { nodes, edges, adjacency, quotient, sources, targets } = graph;
    let mut new_nodes: Vec<MonomialHyperNode<TypeExpr>> = Vec::new();
    let mut i: usize = 0;
    while i < nodes.len()
        invariant
            i <= nodes@.len(),
            new_nodes@.len() == i,
            forall|k: int| 0 <= k < i ==> node_substituted(nodes@[k], #[trigger] new_nodes@[k], subst.bindings()),
        decreases nodes@.len() - i,
    {
        new_nodes.push(apply_substitution_to_monomial_node(&nodes[i], subst));
        i = i + 1;
    }
    let mut new_edges: Vec<MonomialTapeEdge<TypeExpr, ExprGenerator>> = Vec::new();
    let mut e: usize = 0;
    while e < edges.len()
        invariant
            e <= edges@.len(),
            new_edges@.len() == e,
            forall|k: int| 0 <= k < e ==> monomial_edge_substituted(edges@[k], #[trigger] new_edges@[k], subst.bindings()),
        decreases edges@.len() - e,
    {
        new_edges.push(apply_substitution_to_monomial_edge(&edges[e], subst));
        e = e + 1;
    }
    let r = LaxGraph { nodes: new_nodes, edges: new_edges, adjacency, quotient, sources, targets };
    proof {
        assert(r@ == (LaxGraphModel { nodes: r@.nodes, edges: r@.edges, ..gm }));
        assert(r@.nodes.len() == gm.nodes.len());
        assert forall|k: int| 0 <= k < r@.adjacency.len() implies below(#[trigger] r@.adjacency[k].0, r@.nodes.len() as int)
            && below(r@.adjacency[k].1, r@.nodes.len() as int) by {
            assert(below(gm.adjacency[k].0, gm.nodes.len() as int));
            assert(below(gm.adjacency[k].1, gm.nodes.len() as int));
        }
    }
    r
}

/// Whether every tape that the derivation tree describes can be drawn with
/// all its wire counts and made-up sorts fitting in `usize`.
pub open spec fn command_tape_fits(tree: CommandDerivationTree) -> bool {
    forall|t: Tape<TypeExpr, ExprGenerator>|
        #![trigger tape_view(t)]
        command_tape(tree) == Some(tape_view(t)) ==> {
            &&& tape_wires(t) is Some
            &&& tape_counts_fit(t)
            &&& tape_fresh(t) <= usize::MAX
        }
}

/// The types of the program settle: for every tape the derivation gives
/// and every drawing of it, the equations of the drawing and the
/// derivation's constraints have a solution, and under the first solution
/// the nodes that the monomial drawing identifies carry equal types.
pub open spec fn types_settle(tree: CommandDerivationTree) -> bool {
    &&& forall|t: Tape<TypeExpr, ExprGenerator>, term: TapeGraph|
        #![trigger tape_view(t), tape_drawing(t, 0nat, term)]
        command_tape(tree) == Some(tape_view(t)) && tape_drawing(t, 0nat, term) ==> solvable(
            graph_types(term),
            graph_equations(term) + tree_constraints(tree),
        )
    &&& forall|
        t: Tape<TypeExpr, ExprGenerator>,
        term: TapeGraph,
        g: MonomialDrawing<TypeExpr, ExprGenerator>,
        s: TypeSubstitution,
        g2: MonomialDrawing<TypeExpr, ExprGenerator>,
    |
        #![trigger tape_drawing(t, 0nat, term), monomial_drawing_view(g@), drawing_substituted(g, g2, s.bindings())]
        {
            &&& command_tape(tree) == Some(tape_view(t))
            &&& tape_drawing(t, 0nat, term)
            &&& monomial_drawing_view(g@) == tape_monomial_drawing(t, TensorKind::Multiplicative, 0)
            &&& first_solution(graph_types(term), graph_equations(term) + tree_constraints(tree), s.bindings())
            &&& drawing_substituted(g, g2, s.bindings())
        } ==> classes_agree(g2.nodes@, node_classes(g2@).0)
}

/// What the back end gives for the derivation `tree`: an error when the
/// program has no tape; a result when it has one that fits and either
/// `raw` is set or its types settle; an error on such a tape only when
/// types are solved and do not settle; and on success the DOT text of
/// `compiled_text`.
pub open spec fn backend_outcome(tree: CommandDerivationTree, raw: bool, r: Result<CompileArtifacts, String>) -> bool {
    &&& command_tape(tree) is None ==> r is Err
    &&& command_tape(tree) is Some && command_tape_fits(tree) && (raw || types_settle(tree)) ==> r is Ok
    &&& r is Err && command_tape(tree) is Some && command_tape_fits(tree) ==> !raw && !types_settle(tree)
    &&& r matches Ok(a) ==> compiled_text(tree, raw, a.ir_dot@)
}

/// The back end's result with its error marked as the back end's.
pub open spec fn as_backend<E>(r: Result<CompileArtifacts, String>) -> Result<CompileArtifacts, CompileError<E>> {
    match r {
        Ok(a) => Ok(a),
        Err(m) => Err(CompileError::Backend(m)),
    }
}

/// The back end: the program's tape, its drawing over monomial nodes with
/// the solved types applied and the identified nodes merged (unless
/// `raw_tape`), as DOT text. Fails when the tape cannot be built, when its
/// parts do not fit together, when the types of its drawing have no
/// solution, or when two identified nodes end up with different types.
pub fn compile_program(tree: &CommandDerivationTree, options: &CompileOptions) -> (r: Result<CompileArtifacts, String>)
    ensures
        command_tape(*tree) is None ==> r is Err,
        command_tape(*tree) is Some && command_tape_fits(*tree) && (options.raw_tape || types_settle(*tree)) ==> r is Ok,
        r is Err && command_tape(*tree) is Some && command_tape_fits(*tree) ==> !options.raw_tape && !types_settle(*tree),
        r matches Ok(a) ==> compiled_text(*tree, options.raw_tape, a.ir_dot@),
        backend_outcome(*tree, options.raw_tape, r),
{
    let tape = match tape_from_command(tree) {
        Ok(t) => t,
        Err(_) => return Err(String::from_str("the program's tape cannot be built")),
    };
    proof {
        assert(command_tape(*tree) == Some(tape_view(tape)));
    }
    let fits = match (tape.wire_counts(), tape.fresh_count()) {
        (Some(_), Some(n)) => n,
        _ => return Err(String::from_str("the parts of the program's tape do not fit together")),
    };
    let ghost mut term_w: TapeGraph = arbitrary();
    let subst = if options.raw_tape {
        None
    } else {
        let mut next: usize = 0;
        let term = tape.to_hypergraph(&mut next);
        let mut constraints: Vec<crate::types::TypeConstraint> = Vec::new();
        collect_tree_constraints(tree, &mut constraints);
        proof {
            term_w = term;
            assert(constraints@.map_values(|c: TypeConstraint| c.deep_view()) =~= tree_constraints(*tree));
        }
        match solve_program_tape_with_subst(&term, constraints.as_slice()) {
            Ok((_, s)) => Some(s),
            Err(_) => {
                proof {
                    assert(command_tape(*tree) == Some(tape_view(tape)));
                    assert(tape_drawing(tape, 0nat, term));
                    assert(!solvable(graph_types(term), graph_equations(term) + tree_constraints(*tree)));
                }
                return Err(String::from_str("type solving failed for program tape"));
            },
        }
    };
    let ghost tape_w = tape;
    let monomial_tape = match MonomialTape::try_from_tape(tape) {
        Ok(m) => m,
        Err(_) => return Err(String::from_str("monomial tape conversion failed")),
    };
    let mut mono_next: usize = 0;
    let graph = monomial_tape.to_hypergraph(&mut mono_next);
    let ghost g_w = graph;
    let ghost mut g2_w: MonomialDrawing<TypeExpr, ExprGenerator> = arbitrary();
    let graph = match subst {
        Some(s) => {
            let substituted = substitute_monomial_drawing(graph, &s);
            proof {
                g2_w = substituted;
            }
            match strictify_drawing(substituted) {
                Some(h) => h,
                None => {
                    proof {
                        assert(command_tape(*tree) == Some(tape_view(tape_w)));
                        assert(tape_drawing(tape_w, 0nat, term_w));
                        assert(monomial_drawing_view(g_w@) == tape_monomial_drawing(
                            tape_w,
                            TensorKind::Multiplicative,
                            0,
                        ));
                        assert(drawing_substituted(g_w, g2_w, s.bindings()));
                        assert(!classes_agree(g2_w.nodes@, node_classes(g2_w@).0));
                    }
                    return Err(String::from_str("identified nodes of the drawing carry different types"));
                },
            }
        },
        None => graph,
    };
    let ir_dot = render_drawing_dot(&graph);
    proof {
        assert(graph@.wf());
        assert(command_tape(*tree) == Some(tape_view(tape_w)));
        assert(monomial_drawing_view(g_w@) == tape_monomial_drawing(tape_w, TensorKind::Multiplicative, 0));
        if !options.raw_tape {
            let s = subst->Some_0;
            assert(tape_drawing(tape_w, 0nat, term_w));
            assert(drawing_substituted(g_w, g2_w, s.bindings()));
            assert(strictified(g2_w, graph));
            assert(ir_dot@ == drawing_dot(graph));
        } else {
            assert(ir_dot@ == drawing_dot(g_w));
        }
        assert(compiled_text(*tree, options.raw_tape, ir_dot@));
    }
    Ok(CompileArtifacts { ir_dot })
}

/// What compiling gives once the front end has answered: the front end's
/// error comes back as `Frontend`; a derivation tree goes to the back end,
/// whose result comes back with its error marked as `Backend`.
pub fn finish_compile<E>(front: Result<CommandDerivationTree, E>, options: &CompileOptions) -> (r: Result<
    CompileArtifacts,
    CompileError<E>,
>)
    ensures
        front matches Err(e) ==> r == Err::<CompileArtifacts, CompileError<E>>(CompileError::Frontend(e)),
        front matches Ok(tree) ==> exists|b: Result<CompileArtifacts, String>|
            #![trigger backend_outcome(tree, options.raw_tape, b)]
            backend_outcome(tree, options.raw_tape, b) && r == as_backend::<E>(b),
{
    match front {
        Err(e) => Err(CompileError::Frontend(e)),
        Ok(tree) => {
            let b = compile_program(&tree, options);
            let ghost bg = b;
            let r = match b {
                Ok(artifacts) => Ok(artifacts),
                Err(message) => Err(CompileError::Backend(message)),
            };
            proof {
                assert(r == as_backend::<E>(bg));
                assert(backend_outcome(tree, options.raw_tape, bg));
            }
            r
        },
    }
}

/// Compiles a program's text with a front end and the back end above: the
/// front end is asked once, with exactly the given name and text; its error
/// comes back as `Frontend`, and a derivation tree goes on as in
/// `finish_compile`.
pub fn compile<F: CompilerFrontend>(frontend: &F, source_name: &str, source: &str, options: &CompileOptions) -> (r:
    Result<CompileArtifacts, CompileError<F::Error>>)
    ensures
        exists|front: Result<CommandDerivationTree, F::Error>|
            #![trigger frontend.answers(source_name@, source@, front)]
            {
                &&& frontend.answers(source_name@, source@, front)
                &&& front matches Err(e) ==> r == Err::<CompileArtifacts, CompileError<F::Error>>(
                    CompileError::Frontend(e),
                )
                &&& front matches Ok(tree) ==> exists|b: Result<CompileArtifacts, String>|
                    #![trigger backend_outcome(tree, options.raw_tape, b)]
                    backend_outcome(tree, options.raw_tape, b) && r == as_backend::<F::Error>(b)
            },
{
    let front = frontend.compile(source_name, source);
    let ghost fg = front;
    let r = finish_compile(front, options);
    proof {
        assert(frontend.answers(source_name@, source@, fg));
    }
    r
}

} // verus!
