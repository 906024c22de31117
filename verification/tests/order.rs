use target_cloudberry::order::{is_name_less, order_by_name, order_by_number};
use target_cloudberry::source::QualifiedName;

fn name(schema: &str, table: &str) -> QualifiedName {
    QualifiedName::new(schema, table).unwrap()
}

#[test]
fn names_are_ordered_by_schema_and_then_by_table() {
    let names = [name("b", "a"), name("a", "z"), name("a", "b"), name("B", "z")];
    let borrowed: Vec<&QualifiedName> = names.iter().collect();
    assert_eq!(order_by_name(&borrowed), [3, 2, 1, 0]);
    assert!(is_name_less(&names[2], &names[1]));
    assert!(!is_name_less(&names[1], &names[1]));
    assert!(order_by_name(&Vec::new()).is_empty());
}

#[test]
fn equal_numbers_keep_their_order() {
    assert_eq!(order_by_number(&vec![3, -1, 3, 0]), [1, 3, 0, 2]);
    assert!(order_by_number(&Vec::new()).is_empty());
}
