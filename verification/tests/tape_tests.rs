use tapepy::tape_language::tape::swap_sum_blocks;
use tapepy::tape_language::Polynomial;
use tapepy::expression_circuit::ExprGenerator;
use tapepy::tape_language::circuit::Circuit;
use tapepy::tape_language::tape::Tape;
use tapepy::tape_language::Monomial;
use tapepy::types::TypeExpr;

#[test]
fn tape_copy_wires_embeds_copy_circuit() {
    let mono = Monomial::product(Monomial::atom(TypeExpr::Int), Monomial::atom(TypeExpr::Bool));
    let tape: Tape<TypeExpr, ExprGenerator> = Tape::copy_wires(mono.clone());

    let expected_circuit = Circuit::copy_wires(vec![TypeExpr::Int, TypeExpr::Bool]);
    match tape {
        Tape::EmbedCircuit(circuit) => assert_eq!(*circuit, expected_circuit),
        _ => panic!("expected embedded circuit from copy_wires"),
    }
}

#[test]
fn tape_embed_circuit_roundtrip_id() {
    let tape: Tape<TypeExpr, ExprGenerator> =
        Tape::EmbedCircuit(Box::new(Circuit::Id(TypeExpr::Int)));

    match tape {
        Tape::EmbedCircuit(circuit) => assert_eq!(*circuit, Circuit::Id(TypeExpr::Int)),
        _ => panic!("expected embedded circuit"),
    }
}

#[test]
fn tape_sum_builds_tensor_like_structure() {
    let left: Tape<TypeExpr, ExprGenerator> = Tape::Id(Monomial::atom(TypeExpr::Int));
    let right: Tape<TypeExpr, ExprGenerator> = Tape::Id(Monomial::atom(TypeExpr::Bool));

    let sum = Tape::Sum(Box::new(left), Box::new(right));
    match sum {
        Tape::Sum(_, _) => {}
        _ => panic!("expected sum tape"),
    }
}

#[test]
fn tape_seq_composes_two_tapes() {
    let left: Tape<TypeExpr, ExprGenerator> = Tape::Discard(Monomial::atom(TypeExpr::Int));
    let right: Tape<TypeExpr, ExprGenerator> = Tape::Create(Monomial::atom(TypeExpr::Bool));

    let seq = Tape::Sequence(Box::new(left), Box::new(right));
    match seq {
        Tape::Sequence(_, _) => {}
        _ => panic!("expected seq tape"),
    }
}

#[test]
fn swap_sum_blocks_reorders_atoms() {
    let u_sort = TypeExpr::Named("U".to_string());
    let u2_sort = TypeExpr::Named("U2".to_string());
    let v_sort = TypeExpr::Named("V".to_string());
    let w_sort = TypeExpr::Named("W".to_string());

    let u = Monomial::atom(u_sort.clone());
    let u2 = Monomial::atom(u2_sort.clone());
    let v = Monomial::atom(v_sort.clone());
    let w = Monomial::atom(w_sort.clone());

    let left = Polynomial::sum(
        Polynomial::monomial(Monomial::product(u.clone(), v.clone())),
        Polynomial::monomial(Monomial::product(u2.clone(), v.clone())),
    );
    let right = Polynomial::monomial(Monomial::product(u.clone(), w.clone()));

    let tape: Tape<TypeExpr, ExprGenerator> = swap_sum_blocks(&left, &right);
    let (inputs, outputs) = tape.io_types().expect("expected io types");

    let expected_inputs = vec![Monomial::from_sorts(vec![
        u_sort.clone(),
        v_sort.clone(),
        u2_sort.clone(),
        v_sort.clone(),
        u_sort.clone(),
        w_sort.clone(),
    ])];
    let expected_outputs = vec![Monomial::from_sorts(vec![
        u_sort.clone(),
        w_sort,
        u_sort.clone(),
        v_sort.clone(),
        u2_sort,
        v_sort,
    ])];

    assert_eq!(inputs, expected_inputs);
    assert_eq!(outputs, expected_outputs);
}
