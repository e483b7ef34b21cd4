use hexpr::{
    propagate_object_labels, translate_expr_with_signatures, HExprParser, HObject,
    OperationSignature, SignatureTable, TranslationErrorKind,
};
use open_hypergraphs::lax::OpenHypergraph;

#[test]
fn test_propagate_unknown_to_known() {
    // Create a hypergraph where Unknown nodes should get labels from Named nodes
    let mut signature = SignatureTable::new();
    let obj = HObject::from("ℝ");
    signature.insert(
        "+".to_string(),
        OperationSignature::new(vec![obj.clone(), obj.clone()], vec![obj.clone()]),
    );

    // Parse an expression that mixes frobenius (Unknown) with operations (Named)
    let expr = HExprParser::parse_expr("([x . x x] +)").unwrap();
    let mut graph = translate_expr_with_signatures(&expr, signature).unwrap();

    // Before propagation, we should have both Unknown and Named nodes
    let has_unknown = graph
        .hypergraph
        .nodes
        .iter()
        .any(|n| matches!(n, HObject::Unknown));
    let has_named = graph
        .hypergraph
        .nodes
        .iter()
        .any(|n| matches!(n, HObject::Named(_)));
    assert!(has_unknown && has_named);

    // Apply label propagation
    propagate_object_labels(&mut graph).unwrap();

    // After propagation, Unknown nodes in the same equivalence class should be Named
    assert!(graph.hypergraph.nodes.iter().all(|n| *n == obj));
}

#[test]
fn test_all_unknown_stays_unknown() {
    // Test that if all nodes in an equivalence class are Unknown, they stay Unknown
    let expr = HExprParser::parse_expr("[x x . x]").unwrap();
    let mut graph = translate_expr_with_signatures(&expr, SignatureTable::new()).unwrap();

    // All nodes should be Unknown before propagation
    let all_unknown = graph
        .hypergraph
        .nodes
        .iter()
        .all(|n| matches!(n, HObject::Unknown));
    assert!(all_unknown);

    propagate_object_labels(&mut graph).unwrap();

    // Should still be all Unknown after propagation
    let still_all_unknown = graph
        .hypergraph
        .nodes
        .iter()
        .all(|n| matches!(n, HObject::Unknown));
    assert!(still_all_unknown);
}

#[test]
fn test_type_conflict_error() {
    // Test that conflicting types in the same equivalence class cause an error
    let mut signature = SignatureTable::new();
    let r_obj = HObject::from("ℝ");
    let n_obj = HObject::from("ℕ");
    signature.insert(
        "+".to_string(),
        OperationSignature::new(vec![r_obj.clone(), r_obj.clone()], vec![r_obj.clone()]),
    );
    signature.insert(
        "nat_zero".to_string(),
        OperationSignature::new(vec![], vec![n_obj.clone()]),
    );

    // Create a direct type conflict by manually building a graph
    // where the same variable appears in contexts requiring different types
    let mut graph = OpenHypergraph::empty();

    // Create nodes manually to force the type conflict
    let nat_node = graph.new_node(n_obj.clone()); // ℕ node
    let real_node = graph.new_node(r_obj.clone()); // ℝ node

    // Manually unify them in the quotient (this simulates what would happen
    // if a frobenius relation connected operations of different types)
    graph.unify(nat_node, real_node);

    // This should fail with a type conflict error
    let result = propagate_object_labels(&mut graph);
    assert!(result.is_err());

    if let Err(e) = result {
        assert!(e.message.contains("Type conflict"));
        assert!(e.message.contains("ℕ") && e.message.contains("ℝ"));
        assert_eq!(
            e.kind,
            TranslationErrorKind::TypeConflict("ℕ".to_string(), "ℝ".to_string())
        );
        assert_eq!(
            e.message,
            "Type conflict: cannot unify ℕ with ℝ in the same equivalence class"
        );
    }
}
