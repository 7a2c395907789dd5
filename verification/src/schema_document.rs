//! Schema fragments that this library writes itself.

use vstd::prelude::*;
use vstd::string::*;

verus! {

/// The serialised schema of an array whose items are the component that
/// `reference` refers to.
pub uninterp spec fn array_schema_document(reference: Seq<char>) -> Seq<char>;

/// Builds, with `schemars::schema::Schema::new_ref` and the fields of
/// `schemars::schema::SchemaObject`, the schema of an array whose items are
/// a reference to `reference`, and serialises it with
/// `serde_json::to_string`.
#[verifier::external_body]
fn serialise_array_of(reference: &str) -> (document: String)
    ensures
        document@ == array_schema_document(reference@),
{
    let items = schemars::schema::Schema::new_ref(reference.to_owned());
    let array = schemars::schema::ArrayValidation { items: Some(items.into()), ..Default::default() };
    let schema = schemars::schema::SchemaObject {
        instance_type: Some(schemars::schema::InstanceType::Array.into()),
        array: Some(Box::new(array)),
        ..Default::default()
    };
    serde_json::to_string(&schemars::schema::Schema::Object(schema)).unwrap_or_default()
}

/// The serialised schema of an array of the component that `reference`
/// refers to.
pub fn array_of_reference(reference: &str) -> (document: String)
    ensures
        document@ == array_schema_document(reference@),
{
    serialise_array_of(reference)
}

} // verus!
