use hexpr::{
    apply_quotient_if_needed, finalize, propagate_object_labels, translate_expr_with_signatures,
    HExprParser, HObject, HOperation, OperationSignature, SignatureTable, TranslationErrorKind,
};
use open_hypergraphs::lax::{Hyperedge, NodeId, OpenHypergraph};

fn named(name: &str) -> HObject {
    HObject::from(name)
}

fn graph_of(labels: Vec<HObject>, pairs: &[(usize, usize)]) -> OpenHypergraph<HObject, HOperation> {
    let mut graph = OpenHypergraph::empty();
    for label in labels {
        graph.new_node(label);
    }
    for (v, w) in pairs {
        graph.unify(NodeId(*v), NodeId(*w));
    }
    graph
}

#[test]
fn a_class_takes_the_type_found_in_it() {
    let mut graph = graph_of(
        vec![
            HObject::Unknown,
            HObject::Unknown,
            named("ℝ"),
            HObject::Unknown,
            named("ℕ"),
            HObject::Unknown,
        ],
        &[(0, 1), (2, 1), (4, 3)],
    );
    propagate_object_labels(&mut graph).unwrap();
    assert_eq!(
        graph.hypergraph.nodes,
        vec![
            named("ℝ"),
            named("ℝ"),
            named("ℝ"),
            named("ℕ"),
            named("ℕ"),
            HObject::Unknown
        ]
    );
    // the classes themselves are left as they were
    assert_eq!(graph.hypergraph.quotient.0.len(), 3);
}

#[test]
fn conflict_is_found_whichever_way_the_nodes_were_unified() {
    let one_way = propagate_object_labels(&mut graph_of(vec![named("ℕ"), named("ℝ")], &[(0, 1)]))
        .unwrap_err();
    let other_way = propagate_object_labels(&mut graph_of(vec![named("ℕ"), named("ℝ")], &[(1, 0)]))
        .unwrap_err();
    let expected = TranslationErrorKind::TypeConflict("ℕ".to_string(), "ℝ".to_string());
    assert_eq!(one_way.kind, expected);
    assert_eq!(other_way.kind, expected);
}

#[test]
fn conflict_is_found_across_several_steps() {
    let labels = vec![
        named("a"),
        HObject::Unknown,
        HObject::Unknown,
        named("b"),
        named("a"),
    ];
    let error = propagate_object_labels(&mut graph_of(labels, &[(3, 2), (1, 2), (0, 1), (4, 0)]))
        .unwrap_err();
    assert_eq!(
        error.kind,
        TranslationErrorKind::TypeConflict("a".to_string(), "b".to_string())
    );
    assert_eq!(
        error.message,
        "Type conflict: cannot unify a with b in the same equivalence class"
    );
}

#[test]
fn the_lowest_conflicting_node_is_reported() {
    let labels = vec![named("a"), named("b"), named("c"), named("d")];
    let error = propagate_object_labels(&mut graph_of(labels, &[(2, 3), (0, 1)])).unwrap_err();
    assert_eq!(
        error.kind,
        TranslationErrorKind::TypeConflict("a".to_string(), "b".to_string())
    );
}

#[test]
fn conflict_leaves_the_graph_as_it_was() {
    let labels = vec![HObject::Unknown, named("a"), HObject::Unknown, named("b")];
    let mut graph = graph_of(labels, &[(0, 1), (2, 3), (1, 3)]);
    let before = graph.clone();
    assert!(propagate_object_labels(&mut graph).is_err());
    assert_eq!(graph, before);
}

#[test]
fn equal_types_in_one_class_are_no_conflict() {
    let mut graph = graph_of(vec![named("a"), named("a"), HObject::Unknown], &[(0, 1), (2, 1)]);
    propagate_object_labels(&mut graph).unwrap();
    assert_eq!(graph.hypergraph.nodes, vec![named("a"), named("a"), named("a")]);
}

#[test]
fn inference_twice_gives_the_labels_of_once() {
    let mut signature = SignatureTable::new();
    signature.insert(
        "+".to_string(),
        OperationSignature::new(vec![named("ℝ"), named("ℝ")], vec![named("ℝ")]),
    );
    let expr = HExprParser::parse_expr("{([x . x x] +) [y . _ y]}").unwrap();
    let mut graph = translate_expr_with_signatures(&expr, signature).unwrap();
    propagate_object_labels(&mut graph).unwrap();
    let once = graph.clone();
    propagate_object_labels(&mut graph).unwrap();
    assert_eq!(graph, once);
    assert_eq!(once.hypergraph.nodes[0], named("ℝ"));
    assert_eq!(once.hypergraph.nodes[6], HObject::Unknown);
}

#[test]
fn graph_without_nodes_resolves() {
    let mut graph: OpenHypergraph<HObject, HOperation> = OpenHypergraph::empty();
    propagate_object_labels(&mut graph).unwrap();
    assert_eq!(graph, OpenHypergraph::empty());
}

#[test]
fn finalize_takes_the_wrappers_off() {
    let mut graph = graph_of(vec![named("a"), named("b")], &[]);
    graph.new_edge(
        HOperation::from("f"),
        Hyperedge {
            sources: vec![NodeId(0)],
            targets: vec![NodeId(1)],
        },
    );
    graph.sources = vec![NodeId(0)];
    graph.targets = vec![NodeId(1)];
    let plain = finalize(graph).unwrap();
    assert_eq!(plain.hypergraph.nodes, vec!["a".to_string(), "b".to_string()]);
    assert_eq!(plain.hypergraph.edges, vec!["f".to_string()]);
    assert_eq!(plain.sources, vec![NodeId(0)]);
    assert_eq!(plain.targets, vec![NodeId(1)]);
    assert_eq!(
        plain.hypergraph.adjacency,
        vec![Hyperedge {
            sources: vec![NodeId(0)],
            targets: vec![NodeId(1)],
        }]
    );
}

#[test]
fn finalize_fails_on_an_unresolved_node() {
    let graph = graph_of(vec![named("a"), HObject::Unknown], &[]);
    let error = finalize(graph).unwrap_err();
    assert_eq!(error.kind, TranslationErrorKind::UnresolvedType);
}

#[test]
fn quotient_makes_each_class_one_node() {
    let mut signature = SignatureTable::new();
    signature.insert(
        "+".to_string(),
        OperationSignature::new(vec![named("ℝ"), named("ℝ")], vec![named("ℝ")]),
    );
    let expr = HExprParser::parse_expr("([x . x x] +)").unwrap();
    let graph = translate_expr_with_signatures(&expr, signature).unwrap();
    let collapsed = apply_quotient_if_needed(graph, true).unwrap();
    // all of x and both inputs of the operation are one node; the output is another
    assert_eq!(collapsed.hypergraph.nodes, vec![named("ℝ"), named("ℝ")]);
    assert_eq!(collapsed.sources, vec![NodeId(0)]);
    assert_eq!(collapsed.targets, vec![NodeId(1)]);
    assert_eq!(
        collapsed.hypergraph.adjacency,
        vec![Hyperedge {
            sources: vec![NodeId(0), NodeId(0)],
            targets: vec![NodeId(1)],
        }]
    );
    assert!(collapsed.hypergraph.quotient.0.is_empty());
    assert!(collapsed.hypergraph.quotient.1.is_empty());
}

#[test]
fn quotient_is_not_taken_unless_asked_for() {
    let graph = graph_of(vec![named("a"), named("b")], &[(0, 1)]);
    let same = apply_quotient_if_needed(graph.clone(), false).unwrap();
    assert_eq!(same, graph);
    let error = apply_quotient_if_needed(graph, true).unwrap_err();
    assert_eq!(
        error.kind,
        TranslationErrorKind::TypeConflict("a".to_string(), "b".to_string())
    );
}
