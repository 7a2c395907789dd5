//! What a type says of itself for the API description, and what follows from
//! it for the types built around it.

use vstd::prelude::*;
use vstd::string::*;
use crate::error_component::{ApiErrorComponent, ErrorSchema};
use crate::models::{MediaType, MediaTypeView, Parameter, ReferenceOr, ReferenceOrView, RequestBody, RequestBodyView, Response, Responses, Schema, SecurityScheme};
use crate::schema_document::{array_of_reference, array_schema_document};

verus! {

/// The reference to the schema component called `name`.
pub open spec fn component_reference(name: Seq<char>) -> Seq<char> {
    "#/components/schemas/"@ + name
}

/// The reference to the schema component called `name`.
pub fn reference_to(name: &str) -> (r: String)
    ensures
        r@ == component_reference(name@),
{
    String::from_str("#/components/schemas/").concat(name)
}

/// What a named schema stands for.
pub open spec fn named_view(entry: (String, ReferenceOr<Schema>)) -> (Seq<char>, ReferenceOrView<Seq<char>>) {
    (entry.0@, entry.1.deep_view())
}

/// The request body of a type with the schema `schema`: none for a type
/// without a schema; else one body in the content type `content_type` that
/// refers to the schema by its name.
pub open spec fn request_body_of(
    schema: Option<(String, ReferenceOr<Schema>)>,
    content_type: Seq<char>,
    required: bool,
) -> Option<RequestBodyView> {
    match schema {
        Some((name, _)) => Some(
            RequestBodyView {
                content: seq![
                    MediaTypeView {
                        content_type,
                        schema: Some(ReferenceOrView::Reference(component_reference(name@))),
                    },
                ],
                required: Some(required),
            },
        ),
        None => None,
    }
}

/// The request body of a type with the schema `schema`.
pub fn request_body_for(
    schema: Option<(String, ReferenceOr<Schema>)>,
    content_type: String,
    required: bool,
) -> (r: Option<RequestBody>)
    ensures
        r.deep_view() == request_body_of(schema, content_type@, required),
{
    match schema {
        Some((name, _)) => {
            let media = MediaType {
                content_type,
                schema: Some(ReferenceOr::Reference { _ref: reference_to(name.as_str()) }),
            };
            let mut content: Vec<MediaType> = Vec::new();
            content.push(media);
            assert(content.deep_view() =~= seq![media.deep_view()]);
            Some(RequestBody { content, required: Some(required) })
        },
        None => None,
    }
}

/// The reference by which an array refers to its items: the reference
/// itself where the item's schema is one, else the reference to the
/// component of the item's name.
pub open spec fn item_reference(schema: (String, ReferenceOr<Schema>)) -> Seq<char> {
    match schema.1 {
        ReferenceOr::Reference { _ref } => _ref@,
        ReferenceOr::Object(_) => component_reference(schema.0@),
    }
}

/// The schema of a list of a type with the schema `schema`: under the name
/// of the item, an array whose items are a reference to the item.
pub open spec fn array_schema_of(schema: Option<(String, ReferenceOr<Schema>)>) -> Option<
    (Seq<char>, ReferenceOrView<Seq<char>>),
> {
    match schema {
        Some(item) => Some(
            (item.0@, ReferenceOrView::Object(array_schema_document(item_reference(item)))),
        ),
        None => None,
    }
}

/// What an optional named schema stands for.
pub open spec fn optional_named_view(schema: Option<(String, ReferenceOr<Schema>)>) -> Option<
    (Seq<char>, ReferenceOrView<Seq<char>>),
> {
    match schema {
        Some(entry) => Some(named_view(entry)),
        None => None,
    }
}

/// The schema of a list of a type with the schema `schema`.
pub fn array_schema_for(schema: Option<(String, ReferenceOr<Schema>)>) -> (r: Option<
    (String, ReferenceOr<Schema>),
>)
    ensures
        optional_named_view(r) == array_schema_of(schema),
{
    match schema {
        Some((name, item)) => {
            let reference: String = match item {
                ReferenceOr::Reference { _ref } => _ref,
                ReferenceOr::Object(_) => reference_to(name.as_str()),
            };
            let document = array_of_reference(reference.as_str());
            Some((name, ReferenceOr::Object(Schema { document })))
        },
        None => None,
    }
}

/// The schemas that a list of a type brings along: the type's own schema,
/// where it has one, and then the schemas that the type brings along.
pub fn with_own_schema(
    schema: Option<(String, ReferenceOr<Schema>)>,
    children: Vec<(String, ReferenceOr<Schema>)>,
) -> (r: Vec<(String, ReferenceOr<Schema>)>)
    ensures
        r@ == match schema {
            Some(own) => seq![own] + children@,
            None => children@,
        },
{
    let mut schemas: Vec<(String, ReferenceOr<Schema>)> = Vec::new();
    let mut children = children;
    let ghost theirs = children@;
    match schema {
        Some(own) => {
            schemas.push(own);
        },
        None => {},
    }
    schemas.append(&mut children);
    assert(schemas@ =~= match schema {
        Some(own) => seq![own] + theirs,
        None => theirs,
    });
    schemas
}

/// A type that describes itself. A type that says nothing more than its
/// schemas is required, travels as JSON, and has no securities, error
/// responses or parameters.
///
/// Each method that has a default says what the default gives. A type that
/// gives something else says so by the spec function that stands before the
/// method.
pub trait ApiComponent {
    /// Whether this type travels as JSON.
    open spec fn content_type_is_default() -> bool {
        true
    }

    fn content_type() -> (r: String)
        ensures
            Self::content_type_is_default() ==> r@ == "application/json"@,
    {
        String::from_str("application/json")
    }

    /// Whether this type is required, as a type is unless it says otherwise.
    open spec fn required_is_default() -> bool {
        true
    }

    fn required() -> (r: bool)
        ensures
            Self::required_is_default() ==> r,
    {
        true
    }

    /// The schemas that this type's schema refers to, each with the schemas
    /// that it refers to in turn.
    fn child_schemas() -> Vec<(String, ReferenceOr<Schema>)>;

    /// Whether this type has no schema without a name.
    open spec fn raw_schema_is_default() -> bool {
        true
    }

    fn raw_schema() -> (r: Option<ReferenceOr<Schema>>)
        ensures
            Self::raw_schema_is_default() ==> r is None,
    {
        None
    }

    fn schema() -> Option<(String, ReferenceOr<Schema>)>;

    /// Whether this type names no security scheme.
    open spec fn securities_are_default() -> bool {
        true
    }

    fn securities() -> (r: Vec<SecurityScheme>)
        ensures
            Self::securities_are_default() ==> r@.len() == 0,
    {
        Vec::new()
    }

    /// Whether this type requires no security scheme.
    open spec fn security_requirement_name_is_default() -> bool {
        true
    }

    fn security_requirement_name() -> (r: Option<String>)
        ensures
            Self::security_requirement_name_is_default() ==> r is None,
    {
        None
    }

    /// Whether the request body of this type is made of its schema, its
    /// content type and whether it is required.
    open spec fn request_body_is_default() -> bool {
        true
    }

    /// The request body of this type: none for a type without a schema; else
    /// one body, in the content type of the type, that refers to the schema
    /// by its name and is required as the type is.
    fn request_body() -> (r: Option<RequestBody>)
        ensures
            Self::request_body_is_default() ==> exists|
                schema: Option<(String, ReferenceOr<Schema>)>,
                content_type: String,
                required: bool,
            |
                #![trigger request_body_of(schema, content_type@, required)]
                {
                    &&& call_ensures(Self::schema, (), schema)
                    &&& call_ensures(Self::content_type, (), content_type)
                    &&& call_ensures(Self::required, (), required)
                    &&& r.deep_view() == request_body_of(schema, content_type@, required)
                },
    {
        let schema = Self::schema();
        let content_type = Self::content_type();
        let required = Self::required();
        let ghost named = content_type;
        let r = request_body_for(schema, content_type, required);
        assert(call_ensures(Self::schema, (), schema) && call_ensures(
            Self::content_type,
            (),
            named,
        ) && call_ensures(Self::required, (), required) && r.deep_view() == request_body_of(
            schema,
            named@,
            required,
        ));
        r
    }

    /// Whether this type has no error responses.
    open spec fn error_responses_are_default() -> bool {
        true
    }

    fn error_responses() -> (r: Vec<(String, Response)>)
        ensures
            Self::error_responses_are_default() ==> r@.len() == 0,
    {
        Vec::new()
    }

    /// Whether this type has no error schemas.
    open spec fn error_schemas_are_default() -> bool {
        true
    }

    fn error_schemas() -> (r: Vec<ErrorSchema>)
        ensures
            Self::error_schemas_are_default() ==> r@.len() == 0,
    {
        Vec::new()
    }

    /// Whether this type describes no responses, in whatever content type.
    open spec fn responses_are_default() -> bool {
        true
    }

    fn responses(_content_type: Option<String>) -> (r: Option<Responses>)
        ensures
            Self::responses_are_default() ==> r is None,
    {
        None
    }

    /// Whether this type has no parameters.
    open spec fn parameters_are_default() -> bool {
        true
    }

    fn parameters() -> (r: Vec<Parameter>)
        ensures
            Self::parameters_are_default() ==> r@.len() == 0,
    {
        Vec::new()
    }
}

/// An optional value is described as what it wraps, and is not required.
impl<T> ApiComponent for Option<T> where T: ApiComponent {
    open spec fn required_is_default() -> bool {
        false
    }

    open spec fn raw_schema_is_default() -> bool {
        T::raw_schema_is_default()
    }

    open spec fn securities_are_default() -> bool {
        T::securities_are_default()
    }

    open spec fn security_requirement_name_is_default() -> bool {
        T::security_requirement_name_is_default()
    }

    fn required() -> (r: bool)
        ensures
            !r,
    {
        assert(!<Option<T> as ApiComponent>::required_is_default());
        false
    }

    fn child_schemas() -> (r: Vec<(String, ReferenceOr<Schema>)>)
        ensures
            call_ensures(T::child_schemas, (), r),
    {
        T::child_schemas()
    }

    fn raw_schema() -> (r: Option<ReferenceOr<Schema>>)
        ensures
            call_ensures(T::raw_schema, (), r),
    {
        T::raw_schema()
    }

    fn schema() -> (r: Option<(String, ReferenceOr<Schema>)>)
        ensures
            call_ensures(T::schema, (), r),
    {
        T::schema()
    }

    fn securities() -> (r: Vec<SecurityScheme>)
        ensures
            call_ensures(T::securities, (), r),
    {
        T::securities()
    }

    fn security_requirement_name() -> (r: Option<String>)
        ensures
            call_ensures(T::security_requirement_name, (), r),
    {
        T::security_requirement_name()
    }
}

/// A list is described by an array of what it holds, and is required.
impl<T> ApiComponent for Vec<T> where T: ApiComponent {
    open spec fn raw_schema_is_default() -> bool {
        T::raw_schema_is_default()
    }

    fn required() -> (r: bool)
        ensures
            r,
    {
        true
    }

    /// The schema of the item, where it has one, and then the schemas that
    /// the item refers to.
    fn child_schemas() -> (r: Vec<(String, ReferenceOr<Schema>)>)
        ensures
            exists|
                own: Option<(String, ReferenceOr<Schema>)>,
                children: Vec<(String, ReferenceOr<Schema>)>,
            |
                {
                    &&& #[trigger] call_ensures(T::schema, (), own)
                    &&& #[trigger] call_ensures(T::child_schemas, (), children)
                    &&& r@ == match own {
                        Some(schema) => seq![schema] + children@,
                        None => children@,
                    }
                },
    {
        let own = T::schema();
        let children = T::child_schemas();
        let r = with_own_schema(own, children);
        assert(call_ensures(T::schema, (), own) && call_ensures(T::child_schemas, (), children)
            && r@ == match own {
            Some(schema) => seq![schema] + children@,
            None => children@,
        });
        r
    }

    fn raw_schema() -> (r: Option<ReferenceOr<Schema>>)
        ensures
            call_ensures(T::raw_schema, (), r),
    {
        T::raw_schema()
    }

    /// Under the name of the item, an array whose items are a reference to
    /// the item; nothing for an item without a schema.
    fn schema() -> (r: Option<(String, ReferenceOr<Schema>)>)
        ensures
            exists|item: Option<(String, ReferenceOr<Schema>)>|
                #[trigger] call_ensures(T::schema, (), item) && optional_named_view(r)
                    == array_schema_of(item),
    {
        let item = T::schema();
        let r = array_schema_for(item);
        assert(call_ensures(T::schema, (), item) && optional_named_view(r) == array_schema_of(
            item,
        ));
        r
    }
}

/// A result is described as its value, with the errors of its error.
impl<T, E> ApiComponent for Result<T, E> where T: ApiComponent, E: ApiErrorComponent {
    open spec fn required_is_default() -> bool {
        T::required_is_default()
    }

    open spec fn raw_schema_is_default() -> bool {
        T::raw_schema_is_default()
    }

    open spec fn error_responses_are_default() -> bool {
        false
    }

    open spec fn error_schemas_are_default() -> bool {
        false
    }

    open spec fn responses_are_default() -> bool {
        T::responses_are_default()
    }

    fn required() -> (r: bool)
        ensures
            call_ensures(T::required, (), r),
    {
        assert(<Result<T, E> as ApiComponent>::required_is_default() == T::required_is_default());
        T::required()
    }

    fn child_schemas() -> (r: Vec<(String, ReferenceOr<Schema>)>)
        ensures
            call_ensures(T::child_schemas, (), r),
    {
        T::child_schemas()
    }

    fn raw_schema() -> (r: Option<ReferenceOr<Schema>>)
        ensures
            call_ensures(T::raw_schema, (), r),
    {
        T::raw_schema()
    }

    fn schema() -> (r: Option<(String, ReferenceOr<Schema>)>)
        ensures
            call_ensures(T::schema, (), r),
    {
        T::schema()
    }

    fn error_responses() -> (r: Vec<(String, Response)>)
        ensures
            call_ensures(E::error_responses, (), r),
    {
        E::error_responses()
    }

    fn error_schemas() -> (r: Vec<ErrorSchema>)
        ensures
            call_ensures(E::schemas_by_status_code, (), r),
    {
        E::schemas_by_status_code()
    }

    fn responses(content_type: Option<String>) -> (r: Option<Responses>)
        ensures
            call_ensures(T::responses, (content_type,), r),
    {
        T::responses(content_type)
    }
}

} // verus!
