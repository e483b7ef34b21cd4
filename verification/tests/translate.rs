use hexpr::{
    translate_expr_with_signatures, HExprParser, HObject, OperationSignature, SignatureTable,
    TranslationErrorKind,
};

#[test]
fn test_translate_simple_operation() {
    let mut signatures = SignatureTable::new();
    let obj = HObject::from("ℝ");
    signatures.insert(
        "add".to_string(),
        OperationSignature::new(vec![obj.clone(), obj.clone()], vec![obj.clone()]),
    );

    let expr = HExprParser::parse_expr("add").unwrap();
    let result = translate_expr_with_signatures(&expr, signatures);
    assert!(result.is_ok());
}

#[test]
fn test_translate_frobenius_join() {
    let expr = HExprParser::parse_expr("[x x . x]").unwrap();
    let result = translate_expr_with_signatures(&expr, SignatureTable::new());
    assert!(result.is_ok());
}

#[test]
fn test_translate_composition() {
    let mut signatures = SignatureTable::new();
    let obj = HObject::from("ℝ");
    // copy: 1->2, add: 2->1, so they can compose
    signatures.insert(
        "copy".to_string(),
        OperationSignature::new(vec![obj.clone()], vec![obj.clone(), obj.clone()]),
    );
    signatures.insert(
        "add".to_string(),
        OperationSignature::new(vec![obj.clone(), obj.clone()], vec![obj.clone()]),
    );

    let expr = HExprParser::parse_expr("(copy add)").unwrap();
    let result = translate_expr_with_signatures(&expr, signatures);
    assert!(result.is_ok());
}

#[test]
fn test_translate_tensor() {
    let mut signatures = SignatureTable::new();
    let obj = HObject::from("ℝ");
    signatures.insert(
        "add".to_string(),
        OperationSignature::new(vec![obj.clone(), obj.clone()], vec![obj.clone()]),
    );
    signatures.insert(
        "sub".to_string(),
        OperationSignature::new(vec![obj.clone(), obj.clone()], vec![obj.clone()]),
    );

    let expr = HExprParser::parse_expr("{add sub}").unwrap();
    let result = translate_expr_with_signatures(&expr, signatures);
    assert!(result.is_ok());
}

#[test]
fn test_translate_with_proper_signatures() {
    let mut signatures = SignatureTable::new();
    let obj = HObject::from("ℝ");
    signatures.insert(
        "copy".to_string(),
        OperationSignature::new(vec![obj.clone()], vec![obj.clone(), obj.clone()]),
    ); // 1->2
    signatures.insert(
        "+".to_string(),
        OperationSignature::new(vec![obj.clone(), obj.clone()], vec![obj.clone()]),
    ); // 2->1

    let expr = HExprParser::parse_expr("(copy +)").unwrap();
    let result = translate_expr_with_signatures(&expr, signatures);
    assert!(result.is_ok());

    let hypergraph = result.unwrap();
    // copy is 1->2, + is 2->1, so they should compose properly
    assert_eq!(hypergraph.hypergraph.edges.len(), 2);
}

#[test]
fn test_proper_composition_signatures() {
    let mut signatures = SignatureTable::new();
    let obj = HObject::from("ℝ");
    signatures.insert(
        "copy".to_string(),
        OperationSignature::new(vec![obj.clone()], vec![obj.clone(), obj.clone()]),
    ); // 1->2
    signatures.insert(
        "+".to_string(),
        OperationSignature::new(vec![obj.clone(), obj.clone()], vec![obj.clone()]),
    ); // 2->1
    signatures.insert(
        "neg".to_string(),
        OperationSignature::new(vec![obj.clone()], vec![obj.clone()]),
    ); // 1->1

    // Test that copy (1->2) followed by + (2->1) works properly
    let expr = HExprParser::parse_expr("(copy +)").unwrap();
    let result = translate_expr_with_signatures(&expr, signatures.clone());
    assert!(result.is_ok());

    // Test a composition mismatch - this should fail
    let expr = HExprParser::parse_expr("({copy neg} +)").unwrap();
    let result = translate_expr_with_signatures(&expr, signatures);
    // copy (1->2) tensored with neg (1->1) = 3 outputs, but + expects 2 inputs
    assert!(result.is_err());

    if let Err(e) = result {
        assert!(e.message.contains("Composition mismatch"));
        assert_eq!(e.kind, TranslationErrorKind::CompositionArityMismatch(3, 2));
        assert_eq!(e.message, "Composition mismatch: 3 outputs to 2 inputs");
    }
}

#[test]
fn test_custom_signatures() {
    let mut signatures = SignatureTable::new();
    let obj = HObject::from("ℝ");
    signatures.insert(
        "triple".to_string(),
        OperationSignature::new(
            vec![obj.clone()],
            vec![obj.clone(), obj.clone(), obj.clone()],
        ),
    );
    signatures.insert(
        "merge3".to_string(),
        OperationSignature::new(
            vec![obj.clone(), obj.clone(), obj.clone()],
            vec![obj.clone()],
        ),
    );

    let expr = HExprParser::parse_expr("(triple merge3)").unwrap();
    let result = translate_expr_with_signatures(&expr, signatures);
    assert!(result.is_ok());
}

#[test]
fn test_unknown_operation_error() {
    let signatures = SignatureTable::new(); // Empty signatures

    let expr = HExprParser::parse_expr("unknown_op").unwrap();
    let result = translate_expr_with_signatures(&expr, signatures);
    assert!(result.is_err());

    if let Err(e) = result {
        assert!(e.message.contains("Unknown operation: 'unknown_op'"));
        assert_eq!(e.message, "Unknown operation: 'unknown_op'");
        assert_eq!(
            e.kind,
            TranslationErrorKind::UnknownOperation("unknown_op".to_string())
        );
    }
}
