use hexpr::{
    parse, translate_expr_with_signatures, Expr, HExprParser, HObject, HOperation,
    OperationSignature, PipelineError, SignatureTable, TranslationErrorKind, Translator, Variable,
};
use open_hypergraphs::lax::{Hyperedge, NodeId, OpenHypergraph};

fn reals() -> HObject {
    HObject::from("ℝ")
}

fn arithmetic() -> SignatureTable<HObject> {
    let mut signatures = SignatureTable::new();
    signatures.insert(
        "add".to_string(),
        OperationSignature::new(vec![reals(), reals()], vec![reals()]),
    );
    signatures.insert(
        "+".to_string(),
        OperationSignature::new(vec![reals(), reals()], vec![reals()]),
    );
    signatures.insert(
        "copy".to_string(),
        OperationSignature::new(vec![reals()], vec![reals(), reals()]),
    );
    signatures.insert(
        "neg".to_string(),
        OperationSignature::new(vec![reals()], vec![reals()]),
    );
    signatures
}

fn translate(text: &str) -> OpenHypergraph<HObject, HOperation> {
    let expr = HExprParser::parse_expr(text).unwrap();
    translate_expr_with_signatures(&expr, arithmetic()).unwrap()
}

fn classes(graph: &OpenHypergraph<HObject, HOperation>) -> Vec<usize> {
    graph.hypergraph.coequalizer().table.0
}

fn ids(numbers: &[usize]) -> Vec<NodeId> {
    numbers.iter().map(|n| NodeId(*n)).collect()
}

#[test]
fn operation_becomes_one_edge_of_its_arity() {
    let graph = translate("add");
    assert_eq!(graph.hypergraph.edges, vec![HOperation::from("add")]);
    assert_eq!(graph.hypergraph.nodes, vec![reals(), reals(), reals()]);
    assert_eq!(
        graph.hypergraph.adjacency,
        vec![Hyperedge {
            sources: ids(&[0, 1]),
            targets: ids(&[2]),
        }]
    );
    assert_eq!(graph.sources, ids(&[0, 1]));
    assert_eq!(graph.targets, ids(&[2]));
    assert!(graph.hypergraph.quotient.0.is_empty());
    assert!(graph.hypergraph.quotient.1.is_empty());
}

#[test]
fn every_edge_has_the_arity_of_its_signature() {
    let graph = translate("({copy neg} {neg add} +)");
    let signatures = arithmetic();
    assert_eq!(graph.hypergraph.edges.len(), 5);
    assert_eq!(graph.hypergraph.edges.len(), graph.hypergraph.adjacency.len());
    for (label, edge) in graph
        .hypergraph
        .edges
        .iter()
        .zip(graph.hypergraph.adjacency.iter())
    {
        let signature = signatures.get(&label.0).unwrap();
        assert_eq!(edge.sources.len(), signature.inputs.len());
        assert_eq!(edge.targets.len(), signature.outputs.len());
    }
}

#[test]
fn composition_identifies_outputs_with_inputs() {
    let graph = translate("(copy +)");
    assert_eq!(
        graph.hypergraph.edges,
        vec![HOperation::from("copy"), HOperation::from("+")]
    );
    assert_eq!(graph.hypergraph.nodes.len(), 6);
    assert_eq!(graph.hypergraph.quotient.0, ids(&[1, 2]));
    assert_eq!(graph.hypergraph.quotient.1, ids(&[3, 4]));
    assert_eq!(graph.sources, ids(&[0]));
    assert_eq!(graph.targets, ids(&[5]));
    assert_eq!(graph.hypergraph.nodes[0], reals());
    assert_eq!(graph.hypergraph.nodes[5], reals());
    let table = classes(&graph);
    assert_eq!(table[1], table[3]);
    assert_eq!(table[2], table[4]);
    assert_ne!(table[1], table[2]);
}

#[test]
fn composition_is_sensitive_to_order() {
    let mut signatures = SignatureTable::new();
    signatures.insert(
        "swap".to_string(),
        OperationSignature::new(
            vec![HObject::from("a"), HObject::from("b")],
            vec![HObject::from("b"), HObject::from("a")],
        ),
    );
    let expr = HExprParser::parse_expr("(swap swap)").unwrap();
    let graph = translate_expr_with_signatures(&expr, signatures).unwrap();
    // outputs 2, 3 of the first meet inputs 4, 5 of the second, in this order
    assert_eq!(graph.hypergraph.quotient.0, ids(&[2, 3]));
    assert_eq!(graph.hypergraph.quotient.1, ids(&[4, 5]));
    assert_eq!(graph.sources, ids(&[0, 1]));
    assert_eq!(graph.targets, ids(&[6, 7]));
}

#[test]
fn frobenius_join_is_one_unresolved_class() {
    let expr = HExprParser::parse_expr("[x x . x]").unwrap();
    let graph = translate_expr_with_signatures(&expr, SignatureTable::new()).unwrap();
    assert_eq!(
        graph.hypergraph.nodes,
        vec![HObject::Unknown, HObject::Unknown, HObject::Unknown]
    );
    assert!(graph.hypergraph.edges.is_empty());
    assert!(graph.hypergraph.adjacency.is_empty());
    assert_eq!(graph.sources, ids(&[0, 1]));
    assert_eq!(graph.targets, ids(&[2]));
    assert_eq!(graph.hypergraph.quotient.0, ids(&[1, 2]));
    assert_eq!(graph.hypergraph.quotient.1, ids(&[0, 0]));
    assert_eq!(classes(&graph), vec![0, 0, 0]);

    let result = parse("[x x . x]", SignatureTable::new());
    match result {
        Err(PipelineError::Translation(error)) => {
            assert_eq!(error.kind, TranslationErrorKind::UnresolvedType);
            assert_eq!(error.message, "Unknown object type remains after inference");
        }
        _ => panic!("the wires have no type"),
    }
}

#[test]
fn composition_mismatch_cites_both_counts() {
    let expr = HExprParser::parse_expr("({copy neg} +)").unwrap();
    let error = translate_expr_with_signatures(&expr, arithmetic()).unwrap_err();
    assert_eq!(error.kind, TranslationErrorKind::CompositionArityMismatch(3, 2));
    assert_eq!(error.message, "Composition mismatch: 3 outputs to 2 inputs");
    assert_eq!(
        error.to_string(),
        "Translation error: Composition mismatch: 3 outputs to 2 inputs"
    );
}

#[test]
fn composition_fails_at_the_first_mismatch() {
    // neg to add is 1 to 2; add to copy would fit; copy to neg is 2 to 1
    let expr = HExprParser::parse_expr("(neg add copy neg)").unwrap();
    let error = translate_expr_with_signatures(&expr, arithmetic()).unwrap_err();
    assert_eq!(error.kind, TranslationErrorKind::CompositionArityMismatch(1, 2));
}

#[test]
fn composition_succeeds_where_all_counts_agree() {
    let graph = translate("(copy add neg copy {neg neg})");
    assert_eq!(graph.hypergraph.edges.len(), 6);
    assert_eq!(graph.sources.len(), 1);
    assert_eq!(graph.targets.len(), 2);
}

#[test]
fn a_part_that_fails_comes_before_a_mismatch() {
    let expr = HExprParser::parse_expr("(copy nothing)").unwrap();
    let error = translate_expr_with_signatures(&expr, arithmetic()).unwrap_err();
    assert_eq!(
        error.kind,
        TranslationErrorKind::UnknownOperation("nothing".to_string())
    );
    assert_eq!(error.message, "Unknown operation: 'nothing'");
}

#[test]
fn empty_composition_fails() {
    let expr = HExprParser::parse_expr("()").unwrap();
    assert_eq!(expr, Expr::Composition(vec![]));
    let error = translate_expr_with_signatures(&expr, arithmetic()).unwrap_err();
    assert_eq!(error.kind, TranslationErrorKind::EmptyComposition);
    assert_eq!(error.message, "Empty composition");
}

#[test]
fn composition_of_one_is_that_one() {
    let graph = translate("(add)");
    assert_eq!(graph, translate("add"));
}

#[test]
fn empty_tensor_is_the_empty_diagram() {
    let graph = translate("{}");
    assert_eq!(graph, OpenHypergraph::empty());
}

#[test]
fn tensor_lays_interfaces_end_to_end() {
    let graph = translate("{copy add}");
    assert_eq!(graph.sources, ids(&[0, 3, 4]));
    assert_eq!(graph.targets, ids(&[1, 2, 5]));
    assert!(graph.hypergraph.quotient.0.is_empty());
}

#[test]
fn tensor_keeps_its_sides_apart() {
    let graph = translate("{([x . x x] +) ([y . y y] +)}");
    let table = classes(&graph);
    // the first side made nodes 0 to 5, the second 6 to 11
    assert_eq!(graph.hypergraph.nodes.len(), 12);
    for a in 0..6 {
        for b in 6..12 {
            assert_ne!(table[a], table[b]);
        }
    }
}

#[test]
fn a_name_used_on_both_sides_of_a_tensor_is_one_wire() {
    let graph = translate("{[x] [x]}");
    assert_eq!(classes(&graph), vec![0, 0, 0, 0]);
}

#[test]
fn a_named_variable_is_one_wire_across_the_diagram() {
    let graph = translate("([x y .] ([. y] neg [z .]) [. x z] add)");
    let table = classes(&graph);
    // x: nodes 0 and 6; y: nodes 1 and 2; z: nodes 5 and 7
    assert_eq!(table[0], table[6]);
    assert_eq!(table[1], table[2]);
    assert_eq!(table[5], table[7]);
    assert_ne!(table[0], table[1]);
    assert_ne!(table[0], table[5]);
    assert_ne!(table[1], table[5]);
}

#[test]
fn anonymous_variables_are_wires_of_their_own() {
    let expr = Expr::Frobenius {
        inputs: vec![Variable::Anonymous, Variable::Anonymous],
        outputs: vec![Variable::Anonymous, Variable::Named("x".to_string())],
    };
    let graph = translate_expr_with_signatures(&expr, SignatureTable::new()).unwrap();
    assert!(graph.hypergraph.quotient.0.is_empty());
    assert!(graph.hypergraph.quotient.1.is_empty());
    assert_eq!(classes(&graph), vec![0, 1, 2, 3]);
}

#[test]
fn frobenius_split_takes_the_type_of_the_operation() {
    let mut signature = SignatureTable::new();
    signature.insert(
        "+".to_string(),
        OperationSignature::new(vec!["ℝ".to_string(), "ℝ".to_string()], vec!["ℝ".to_string()]),
    );
    let graph = parse("([x . x x] +)", signature).unwrap();
    assert_eq!(graph.hypergraph.nodes, vec!["ℝ".to_string(); 6]);
    assert_eq!(graph.hypergraph.edges, vec!["+".to_string()]);
    assert_eq!(graph.sources, ids(&[0]));
    assert_eq!(graph.targets, ids(&[5]));
    assert_eq!(
        graph.hypergraph.adjacency,
        vec![Hyperedge {
            sources: ids(&[3, 4]),
            targets: ids(&[5]),
        }]
    );
    // x is bound to node 0; its two outputs meet the inputs of the operation
    assert_eq!(graph.hypergraph.quotient.0, ids(&[1, 2, 1, 2]));
    assert_eq!(graph.hypergraph.quotient.1, ids(&[0, 0, 3, 4]));
}

#[test]
fn translator_learns_operations() {
    let mut translator = Translator::new(SignatureTable::new());
    translator.add_operation(
        "neg".to_string(),
        OperationSignature::new(vec![reals()], vec![reals()]),
    );
    translator.add_operation(
        "neg".to_string(),
        OperationSignature::new(vec![reals(), reals()], vec![]),
    );
    let expr = HExprParser::parse_expr("neg").unwrap();
    let graph = translator.translate(&expr).unwrap();
    assert_eq!(graph.sources, ids(&[0, 1]));
    assert_eq!(graph.targets, ids(&[]));
}

#[test]
fn unknown_operation_fails_inside_a_tensor() {
    let expr = HExprParser::parse_expr("{add mul}").unwrap();
    let error = translate_expr_with_signatures(&expr, arithmetic()).unwrap_err();
    assert_eq!(
        error.kind,
        TranslationErrorKind::UnknownOperation("mul".to_string())
    );
}
