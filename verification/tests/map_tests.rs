use restify::method::OperationType;
use restify::models::Operation;
use restify::operation_map::OperationMap;
use restify::paths::{PathItem, Paths};

fn named(id: &str) -> Operation {
    Operation { operation_id: Some(id.to_string()), ..Operation::default() }
}

fn kinds(map: &OperationMap) -> Vec<(OperationType, Option<String>)> {
    (0..map.len())
        .map(|i| {
            let (kind, operation) = map.get_index(i).unwrap();
            (kind, operation.operation_id.clone())
        })
        .collect()
}

fn keys(paths: &Paths) -> Vec<String> {
    (0..paths.len()).map(|i| paths.get_index(i).unwrap().0.to_string()).collect()
}

#[test]
fn a_new_map_holds_nothing() {
    let map = OperationMap::new();
    assert_eq!(map.len(), 0);
    assert!(map.is_empty());
    assert!(map.get(OperationType::Get).is_none());
    assert!(map.get_index(0).is_none());
}

#[test]
fn operations_keep_the_order_of_first_insertion() {
    let mut map = OperationMap::new();
    map.insert(OperationType::Post, named("a"));
    map.insert(OperationType::Get, named("b"));
    map.insert(OperationType::Delete, named("c"));
    assert_eq!(
        kinds(&map),
        vec![
            (OperationType::Post, Some("a".to_string())),
            (OperationType::Get, Some("b".to_string())),
            (OperationType::Delete, Some("c".to_string())),
        ]
    );
    assert!(!map.is_empty());
    assert!(map.get_index(3).is_none());
}

#[test]
fn a_later_operation_of_a_known_kind_wins_and_keeps_the_place() {
    let mut map = OperationMap::new();
    map.insert(OperationType::Post, named("a"));
    map.insert(OperationType::Get, named("b"));
    map.insert(OperationType::Post, named("c"));
    assert_eq!(
        kinds(&map),
        vec![(OperationType::Post, Some("c".to_string())), (OperationType::Get, Some("b".to_string()))]
    );
    assert_eq!(map.get(OperationType::Post).unwrap().operation_id, Some("c".to_string()));
    assert!(map.get(OperationType::Put).is_none());
}

#[test]
fn extending_registers_each_operation_in_order() {
    let mut map = OperationMap::new();
    map.insert(OperationType::Get, named("old get"));
    map.insert(OperationType::Put, named("old put"));
    let mut other = OperationMap::new();
    other.insert(OperationType::Delete, named("new delete"));
    other.insert(OperationType::Get, named("new get"));
    map.extend(&other);
    assert_eq!(
        kinds(&map),
        vec![
            (OperationType::Get, Some("new get".to_string())),
            (OperationType::Put, Some("old put".to_string())),
            (OperationType::Delete, Some("new delete".to_string())),
        ]
    );
    assert_eq!(other.len(), 2);
}

#[test]
fn a_cloned_map_holds_the_same_operations() {
    let mut map = OperationMap::new();
    map.insert(OperationType::Trace, named("t"));
    map.insert(OperationType::Head, named("h"));
    let copy = map.clone();
    map.insert(OperationType::Trace, named("changed"));
    assert_eq!(
        kinds(&copy),
        vec![(OperationType::Trace, Some("t".to_string())), (OperationType::Head, Some("h".to_string()))]
    );
}

#[test]
fn paths_keep_the_order_of_first_insertion() {
    let mut paths = Paths::new();
    assert!(paths.is_empty());
    paths.insert("/b".to_string(), PathItem::default());
    paths.insert("/a".to_string(), PathItem::default());
    let mut item = PathItem::default();
    item.operations.insert(OperationType::Get, named("x"));
    paths.insert("/b".to_string(), item);
    assert_eq!(keys(&paths), vec!["/b".to_string(), "/a".to_string()]);
    assert_eq!(paths.len(), 2);
    assert_eq!(paths.get("/b").unwrap().operations.len(), 1);
    assert_eq!(paths.get("/a").unwrap().operations.len(), 0);
    assert!(paths.get("/c").is_none());
    assert!(paths.get_index(2).is_none());
}

#[test]
fn operations_merge_into_the_item_of_their_path() {
    let mut paths = Paths::new();
    let mut first = OperationMap::new();
    first.insert(OperationType::Get, named("one"));
    first.insert(OperationType::Post, named("two"));
    paths.merge_operations("/todo", &first);
    let mut second = OperationMap::new();
    second.insert(OperationType::Post, named("three"));
    second.insert(OperationType::Delete, named("four"));
    paths.merge_operations("/todo", &second);
    paths.merge_operations("/order", &second);
    assert_eq!(keys(&paths), vec!["/todo".to_string(), "/order".to_string()]);
    assert_eq!(
        kinds(&paths.get("/todo").unwrap().operations),
        vec![
            (OperationType::Get, Some("one".to_string())),
            (OperationType::Post, Some("three".to_string())),
            (OperationType::Delete, Some("four".to_string())),
        ]
    );
    assert_eq!(
        kinds(&paths.get("/order").unwrap().operations),
        vec![
            (OperationType::Post, Some("three".to_string())),
            (OperationType::Delete, Some("four".to_string())),
        ]
    );
}

#[test]
fn cloned_paths_hold_the_same_items() {
    let mut paths = Paths::new();
    let mut operations = OperationMap::new();
    operations.insert(OperationType::Get, named("one"));
    paths.merge_operations("/todo", &operations);
    paths.merge_operations("/order", &operations);
    let copy = paths.clone();
    paths.insert("/late".to_string(), PathItem::default());
    assert_eq!(keys(&copy), vec!["/todo".to_string(), "/order".to_string()]);
    assert_eq!(
        kinds(&copy.get("/order").unwrap().operations),
        vec![(OperationType::Get, Some("one".to_string()))]
    );
}
