//! The simple types: values without parts. Each has a schema of its own, no
//! name in the registry, and no schemas that it refers to.

use vstd::prelude::*;
use vstd::string::*;
use crate::api_component::ApiComponent;
use crate::models::{ReferenceOr, Schema};

verus! {

/// `schemars::gen::SchemaSettings::openapi3`, its generator and
/// `SchemaGenerator::into_root_schema_for` for the type `T`: the schema of
/// the type, serialised with `serde_json::to_string`.
#[verifier::external_body]
fn reflect<T: schemars::JsonSchema>() -> (document: String) {
    let generator = schemars::gen::SchemaSettings::openapi3().into_generator();
    let schema = schemars::schema::Schema::Object(generator.into_root_schema_for::<T>().schema);
    serde_json::to_string(&schema).unwrap_or_default()
}

impl ApiComponent for char {
    open spec fn raw_schema_is_default() -> bool {
        false
    }

    fn child_schemas() -> (r: Vec<(String, ReferenceOr<Schema>)>)
        ensures
            r@.len() == 0,
    {
        Vec::new()
    }

    fn raw_schema() -> (r: Option<ReferenceOr<Schema>>)
        ensures
            r matches Some(ReferenceOr::Object(_)),
    {
        Some(ReferenceOr::Object(Schema { document: reflect::<char>() }))
    }

    fn schema() -> (r: Option<(String, ReferenceOr<Schema>)>)
        ensures
            r is None,
    {
        None
    }
}

impl ApiComponent for String {
    open spec fn raw_schema_is_default() -> bool {
        false
    }

    fn child_schemas() -> (r: Vec<(String, ReferenceOr<Schema>)>)
        ensures
            r@.len() == 0,
    {
        Vec::new()
    }

    fn raw_schema() -> (r: Option<ReferenceOr<Schema>>)
        ensures
            r matches Some(ReferenceOr::Object(_)),
    {
        Some(ReferenceOr::Object(Schema { document: reflect::<String>() }))
    }

    fn schema() -> (r: Option<(String, ReferenceOr<Schema>)>)
        ensures
            r is None,
    {
        None
    }
}

impl ApiComponent for bool {
    open spec fn raw_schema_is_default() -> bool {
        false
    }

    fn child_schemas() -> (r: Vec<(String, ReferenceOr<Schema>)>)
        ensures
            r@.len() == 0,
    {
        Vec::new()
    }

    fn raw_schema() -> (r: Option<ReferenceOr<Schema>>)
        ensures
            r matches Some(ReferenceOr::Object(_)),
    {
        Some(ReferenceOr::Object(Schema { document: reflect::<bool>() }))
    }

    fn schema() -> (r: Option<(String, ReferenceOr<Schema>)>)
        ensures
            r is None,
    {
        None
    }
}

impl ApiComponent for i8 {
    open spec fn raw_schema_is_default() -> bool {
        false
    }

    fn child_schemas() -> (r: Vec<(String, ReferenceOr<Schema>)>)
        ensures
            r@.len() == 0,
    {
        Vec::new()
    }

    fn raw_schema() -> (r: Option<ReferenceOr<Schema>>)
        ensures
            r matches Some(ReferenceOr::Object(_)),
    {
        Some(ReferenceOr::Object(Schema { document: reflect::<i8>() }))
    }

    fn schema() -> (r: Option<(String, ReferenceOr<Schema>)>)
        ensures
            r is None,
    {
        None
    }
}

impl ApiComponent for i16 {
    open spec fn raw_schema_is_default() -> bool {
        false
    }

    fn child_schemas() -> (r: Vec<(String, ReferenceOr<Schema>)>)
        ensures
            r@.len() == 0,
    {
        Vec::new()
    }

    fn raw_schema() -> (r: Option<ReferenceOr<Schema>>)
        ensures
            r matches Some(ReferenceOr::Object(_)),
    {
        Some(ReferenceOr::Object(Schema { document: reflect::<i16>() }))
    }

    fn schema() -> (r: Option<(String, ReferenceOr<Schema>)>)
        ensures
            r is None,
    {
        None
    }
}

impl ApiComponent for i32 {
    open spec fn raw_schema_is_default() -> bool {
        false
    }

    fn child_schemas() -> (r: Vec<(String, ReferenceOr<Schema>)>)
        ensures
            r@.len() == 0,
    {
        Vec::new()
    }

    fn raw_schema() -> (r: Option<ReferenceOr<Schema>>)
        ensures
            r matches Some(ReferenceOr::Object(_)),
    {
        Some(ReferenceOr::Object(Schema { document: reflect::<i32>() }))
    }

    fn schema() -> (r: Option<(String, ReferenceOr<Schema>)>)
        ensures
            r is None,
    {
        None
    }
}

impl ApiComponent for u8 {
    open spec fn raw_schema_is_default() -> bool {
        false
    }

    fn child_schemas() -> (r: Vec<(String, ReferenceOr<Schema>)>)
        ensures
            r@.len() == 0,
    {
        Vec::new()
    }

    fn raw_schema() -> (r: Option<ReferenceOr<Schema>>)
        ensures
            r matches Some(ReferenceOr::Object(_)),
    {
        Some(ReferenceOr::Object(Schema { document: reflect::<u8>() }))
    }

    fn schema() -> (r: Option<(String, ReferenceOr<Schema>)>)
        ensures
            r is None,
    {
        None
    }
}

impl ApiComponent for u16 {
    open spec fn raw_schema_is_default() -> bool {
        false
    }

    fn child_schemas() -> (r: Vec<(String, ReferenceOr<Schema>)>)
        ensures
            r@.len() == 0,
    {
        Vec::new()
    }

    fn raw_schema() -> (r: Option<ReferenceOr<Schema>>)
        ensures
            r matches Some(ReferenceOr::Object(_)),
    {
        Some(ReferenceOr::Object(Schema { document: reflect::<u16>() }))
    }

    fn schema() -> (r: Option<(String, ReferenceOr<Schema>)>)
        ensures
            r is None,
    {
        None
    }
}

impl ApiComponent for u32 {
    open spec fn raw_schema_is_default() -> bool {
        false
    }

    fn child_schemas() -> (r: Vec<(String, ReferenceOr<Schema>)>)
        ensures
            r@.len() == 0,
    {
        Vec::new()
    }

    fn raw_schema() -> (r: Option<ReferenceOr<Schema>>)
        ensures
            r matches Some(ReferenceOr::Object(_)),
    {
        Some(ReferenceOr::Object(Schema { document: reflect::<u32>() }))
    }

    fn schema() -> (r: Option<(String, ReferenceOr<Schema>)>)
        ensures
            r is None,
    {
        None
    }
}

impl ApiComponent for i64 {
    open spec fn raw_schema_is_default() -> bool {
        false
    }

    fn child_schemas() -> (r: Vec<(String, ReferenceOr<Schema>)>)
        ensures
            r@.len() == 0,
    {
        Vec::new()
    }

    fn raw_schema() -> (r: Option<ReferenceOr<Schema>>)
        ensures
            r matches Some(ReferenceOr::Object(_)),
    {
        Some(ReferenceOr::Object(Schema { document: reflect::<i64>() }))
    }

    fn schema() -> (r: Option<(String, ReferenceOr<Schema>)>)
        ensures
            r is None,
    {
        None
    }
}

impl ApiComponent for i128 {
    open spec fn raw_schema_is_default() -> bool {
        false
    }

    fn child_schemas() -> (r: Vec<(String, ReferenceOr<Schema>)>)
        ensures
            r@.len() == 0,
    {
        Vec::new()
    }

    fn raw_schema() -> (r: Option<ReferenceOr<Schema>>)
        ensures
            r matches Some(ReferenceOr::Object(_)),
    {
        Some(ReferenceOr::Object(Schema { document: reflect::<i128>() }))
    }

    fn schema() -> (r: Option<(String, ReferenceOr<Schema>)>)
        ensures
            r is None,
    {
        None
    }
}

impl ApiComponent for isize {
    open spec fn raw_schema_is_default() -> bool {
        false
    }

    fn child_schemas() -> (r: Vec<(String, ReferenceOr<Schema>)>)
        ensures
            r@.len() == 0,
    {
        Vec::new()
    }

    fn raw_schema() -> (r: Option<ReferenceOr<Schema>>)
        ensures
            r matches Some(ReferenceOr::Object(_)),
    {
        Some(ReferenceOr::Object(Schema { document: reflect::<isize>() }))
    }

    fn schema() -> (r: Option<(String, ReferenceOr<Schema>)>)
        ensures
            r is None,
    {
        None
    }
}

impl ApiComponent for u64 {
    open spec fn raw_schema_is_default() -> bool {
        false
    }

    fn child_schemas() -> (r: Vec<(String, ReferenceOr<Schema>)>)
        ensures
            r@.len() == 0,
    {
        Vec::new()
    }

    fn raw_schema() -> (r: Option<ReferenceOr<Schema>>)
        ensures
            r matches Some(ReferenceOr::Object(_)),
    {
        Some(ReferenceOr::Object(Schema { document: reflect::<u64>() }))
    }

    fn schema() -> (r: Option<(String, ReferenceOr<Schema>)>)
        ensures
            r is None,
    {
        None
    }
}

impl ApiComponent for u128 {
    open spec fn raw_schema_is_default() -> bool {
        false
    }

    fn child_schemas() -> (r: Vec<(String, ReferenceOr<Schema>)>)
        ensures
            r@.len() == 0,
    {
        Vec::new()
    }

    fn raw_schema() -> (r: Option<ReferenceOr<Schema>>)
        ensures
            r matches Some(ReferenceOr::Object(_)),
    {
        Some(ReferenceOr::Object(Schema { document: reflect::<u128>() }))
    }

    fn schema() -> (r: Option<(String, ReferenceOr<Schema>)>)
        ensures
            r is None,
    {
        None
    }
}

impl ApiComponent for usize {
    open spec fn raw_schema_is_default() -> bool {
        false
    }

    fn child_schemas() -> (r: Vec<(String, ReferenceOr<Schema>)>)
        ensures
            r@.len() == 0,
    {
        Vec::new()
    }

    fn raw_schema() -> (r: Option<ReferenceOr<Schema>>)
        ensures
            r matches Some(ReferenceOr::Object(_)),
    {
        Some(ReferenceOr::Object(Schema { document: reflect::<usize>() }))
    }

    fn schema() -> (r: Option<(String, ReferenceOr<Schema>)>)
        ensures
            r is None,
    {
        None
    }
}

} // verus!
