use restify::digest::{digest_of, to_lower_hex};
use restify::method::OperationType;
use restify::operation_id::{build_operation_id, compose_operation_id};
use restify::pattern::find_resource;

#[test]
fn digest_is_the_md5_of_the_text() {
    assert_eq!(to_lower_hex(&digest_of("/todo/{id}")), "037b0e6eb304dba70ab8c8a78602f6bb");
    assert_eq!(to_lower_hex(&digest_of("abc")), "900150983cd24fb0d6963f7d28e17f72");
    assert_eq!(to_lower_hex(&digest_of("/")), "6666cd76f96956469e7be39d750cc7d9");
}

#[test]
fn hex_has_two_lower_case_digits_for_each_byte() {
    assert_eq!(to_lower_hex(&[]), "");
    assert_eq!(to_lower_hex(&[0x00, 0x0f, 0xf0, 0xff, 0xa9, 0x1b]), "000ff0ffa91b");
    assert_eq!(to_lower_hex(&[0x01, 0x23, 0x45, 0x67, 0x89, 0xab, 0xcd, 0xef]), "0123456789abcdef");
}

#[test]
fn resource_is_what_stands_before_the_first_braced_parameter() {
    assert_eq!(find_resource("/todo/{id}"), Some("todo".to_string()));
    assert_eq!(find_resource("/api/todo/{id}"), Some("api/todo".to_string()));
    assert_eq!(find_resource("/todo/{id}/notes/{note}"), Some("todo".to_string()));
    assert_eq!(find_resource("/todo"), None);
    assert_eq!(find_resource("/todo/:id"), None);
    assert_eq!(find_resource("/{id}"), None);
    assert_eq!(find_resource(""), None);
}

#[test]
fn operation_id_of_a_templated_path() {
    assert_eq!(
        build_operation_id("/todo/{id}", &OperationType::Get),
        "get_todo-037b0e6eb304dba70ab8c8a78602f6bb"
    );
}

#[test]
fn operation_id_is_stable_across_builds() {
    let first = build_operation_id("/todo/{id}", &OperationType::Get);
    let second = build_operation_id("/todo/{id}", &OperationType::Get);
    assert_eq!(first, second);
}

#[test]
fn operation_ids_of_different_paths_differ() {
    let todo = build_operation_id("/todo/{id}", &OperationType::Get);
    let order = build_operation_id("/order/{id}", &OperationType::Get);
    assert_eq!(order, "get_order-2fa2d868687b1f285c1da7a9a567dbac");
    assert_ne!(todo, order);
}

#[test]
fn operation_id_takes_the_whole_path_where_no_parameter_is_braced() {
    assert_eq!(
        build_operation_id("/todo", &OperationType::Post),
        "post_todo-b18fa0240f10475845bd69f02d5333ab"
    );
    assert_eq!(
        build_operation_id("/todo/:id", &OperationType::Delete),
        "delete_todo-:id-7cd69400326b6b5865ac93a1dea37062"
    );
    assert_eq!(
        build_operation_id("/", &OperationType::Get),
        "get_-6666cd76f96956469e7be39d750cc7d9"
    );
}

#[test]
fn operation_id_dashes_the_separators_inside_the_resource() {
    assert_eq!(
        build_operation_id("/api/todo/{id}", &OperationType::Patch),
        "patch_api-todo-550bfdc6099e2101f4e3ca3bcd17c0c6"
    );
}

#[test]
fn operation_id_keeps_the_case_of_the_resource() {
    assert_eq!(
        build_operation_id("/Todo/{id}", &OperationType::Get),
        "get_Todo-450c9cb02de917bf4318e3ba73132637"
    );
}

#[test]
fn operation_ids_with_the_same_resource_differ_by_the_digest() {
    let one = build_operation_id("/todo/{id}", &OperationType::Get);
    let other = build_operation_id("/todo/{id}/notes/{note}", &OperationType::Get);
    assert!(one.starts_with("get_todo-"));
    assert!(other.starts_with("get_todo-"));
    assert_ne!(one, other);
}

#[test]
fn operation_id_is_composed_of_kind_resource_and_digest() {
    let digest = [0xabu8; 16];
    assert_eq!(
        compose_operation_id(&OperationType::Head, "/ignored/{x}", Some("/a/b/"), &digest),
        "head_a-b-abababababababababababababababab"
    );
    assert_eq!(
        compose_operation_id(&OperationType::Trace, "//whole/path//", None, &digest),
        "trace_whole-path-abababababababababababababababab"
    );
    assert_eq!(
        compose_operation_id(&OperationType::Options, "", None, &[]),
        "options_-"
    );
}
