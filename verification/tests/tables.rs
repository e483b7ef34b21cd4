use hexpr::pipeline::object_signatures;
use hexpr::table::NameTable;
use hexpr::{HObject, OperationSignature, SignatureTable};

#[test]
fn a_table_holds_the_last_value_stored_under_a_name() {
    let mut table = NameTable::new();
    assert_eq!(table.get("a"), None);
    table.insert("a".to_string(), 1);
    table.insert("b".to_string(), 2);
    table.insert("a".to_string(), 3);
    assert_eq!(table.get("a"), Some(&3));
    assert_eq!(table.get("b"), Some(&2));
    assert_eq!(table.get("c"), None);
    assert_eq!(table.get(""), None);
    assert_eq!(table.entries.len(), 2);
}

#[test]
fn type_names_become_resolved_labels() {
    let mut names = SignatureTable::new();
    names.insert(
        "f".to_string(),
        OperationSignature::new(vec!["a".to_string()], vec!["b".to_string(), "a".to_string()]),
    );
    names.insert("unit".to_string(), OperationSignature::new(vec![], vec![]));
    let objects = object_signatures(&names);
    let f = objects.get("f").unwrap();
    assert_eq!(f.inputs, vec![HObject::from("a")]);
    assert_eq!(f.outputs, vec![HObject::from("b"), HObject::from("a")]);
    let unit = objects.get("unit").unwrap();
    assert!(unit.inputs.is_empty() && unit.outputs.is_empty());
    assert!(objects.get("g").is_none());
}
