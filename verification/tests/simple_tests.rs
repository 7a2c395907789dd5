use restify::api_component::ApiComponent;
use restify::models::{ReferenceOr, Schema};

fn json_of(schema: Option<ReferenceOr<Schema>>) -> serde_json::Value {
    match schema {
        Some(ReferenceOr::Object(schema)) => serde_json::from_str(&schema.document).unwrap(),
        _ => panic!("a simple type has a schema of its own"),
    }
}

fn object(entries: Vec<(&str, serde_json::Value)>) -> serde_json::Value {
    let mut map = serde_json::Map::new();
    for (key, value) in entries {
        map.insert(key.to_string(), value);
    }
    serde_json::Value::Object(map)
}

fn text(value: &str) -> serde_json::Value {
    serde_json::Value::String(value.to_string())
}

#[test]
fn simple_types_have_a_schema_of_their_own() {
    assert_eq!(
        json_of(<String as ApiComponent>::raw_schema()),
        object(vec![("title", text("String")), ("type", text("string"))])
    );
    assert_eq!(json_of(<bool as ApiComponent>::raw_schema())["type"], text("boolean"));
    let signed = json_of(<i32 as ApiComponent>::raw_schema());
    assert_eq!(signed["type"], text("integer"));
    assert_eq!(signed["format"], text("int32"));
    let long = json_of(<i64 as ApiComponent>::raw_schema());
    assert_eq!(long["type"], text("integer"));
    assert_eq!(long["format"], text("int64"));
    let character = json_of(<char as ApiComponent>::raw_schema());
    assert_eq!(character["type"], text("string"));
    assert_eq!(character["minLength"].as_u64(), Some(1));
    assert_eq!(character["maxLength"].as_u64(), Some(1));
    let unsigned = json_of(<u8 as ApiComponent>::raw_schema());
    assert_eq!(unsigned["type"], text("integer"));
    assert_eq!(unsigned["format"], text("uint8"));
    assert_eq!(unsigned["minimum"].as_f64(), Some(0.0));
}

#[test]
fn simple_types_have_no_name_and_no_children() {
    assert_eq!(<u32 as ApiComponent>::schema(), None);
    assert_eq!(<String as ApiComponent>::schema(), None);
    assert!(<u32 as ApiComponent>::child_schemas().is_empty());
    assert!(<usize as ApiComponent>::child_schemas().is_empty());
    assert_eq!(<u32 as ApiComponent>::request_body(), None);
    assert!(<u32 as ApiComponent>::required());
    assert_eq!(<Vec<u32> as ApiComponent>::schema(), None);
    assert!(<Vec<u32> as ApiComponent>::child_schemas().is_empty());
    assert!(<Option<i128> as ApiComponent>::raw_schema().is_some());
    assert!(<Vec<isize> as ApiComponent>::raw_schema().is_some());
}

#[test]
fn every_simple_type_is_described() {
    assert!(<char as ApiComponent>::raw_schema().is_some());
    assert!(<i8 as ApiComponent>::raw_schema().is_some());
    assert!(<i16 as ApiComponent>::raw_schema().is_some());
    assert!(<u16 as ApiComponent>::raw_schema().is_some());
    assert!(<u32 as ApiComponent>::raw_schema().is_some());
    assert!(<i128 as ApiComponent>::raw_schema().is_some());
    assert!(<isize as ApiComponent>::raw_schema().is_some());
    assert!(<u64 as ApiComponent>::raw_schema().is_some());
    assert!(<u128 as ApiComponent>::raw_schema().is_some());
    assert!(<usize as ApiComponent>::raw_schema().is_some());
}
