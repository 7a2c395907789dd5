//! The parts of an API description: schemas, request bodies, responses,
//! parameters, operations and the registry of named components.
//!
//! Fragments that a schema reflector supplies are held as the reflector
//! serialised them; this library names them, compares them and puts them in
//! their place, and never looks inside them.

use vstd::prelude::*;
use vstd::string::*;

verus! {

/// A schema fragment, in its serialised form.
#[derive(Debug, PartialEq, Eq)]
pub struct Schema {
    pub document: String,
}

impl DeepView for Schema {
    type V = Seq<char>;

    open spec fn deep_view(&self) -> Seq<char> {
        self.document@
    }
}

impl View for Schema {
    type V = Seq<char>;

    open spec fn view(&self) -> Seq<char> {
        self.document@
    }
}

impl Clone for Schema {
    fn clone(&self) -> (r: Self)
        ensures
            r.deep_view() == self.deep_view(),
    {
        Schema { document: self.document.clone() }
    }
}

impl Schema {
    /// Whether two fragments are identical, character by character.
    pub fn same(&self, other: &Schema) -> (r: bool)
        ensures
            r == (self@ == other@),
    {
        self.document == other.document
    }
}

/// Either a reference to a named component or the thing itself.
#[derive(Debug, PartialEq, Eq)]
pub enum ReferenceOr<T> {
    Reference { _ref: String },
    Object(T),
}

/// What a [`ReferenceOr`] stands for.
pub enum ReferenceOrView<V> {
    Reference(Seq<char>),
    Object(V),
}

impl<T: DeepView> DeepView for ReferenceOr<T> {
    type V = ReferenceOrView<T::V>;

    open spec fn deep_view(&self) -> ReferenceOrView<T::V> {
        match self {
            ReferenceOr::Reference { _ref } => ReferenceOrView::Reference(_ref@),
            ReferenceOr::Object(t) => ReferenceOrView::Object(t.deep_view()),
        }
    }
}

impl Clone for ReferenceOr<Schema> {
    fn clone(&self) -> (r: Self)
        ensures
            r.deep_view() == self.deep_view(),
    {
        match self {
            ReferenceOr::Reference { _ref } => ReferenceOr::Reference { _ref: _ref.clone() },
            ReferenceOr::Object(schema) => ReferenceOr::Object(schema.clone()),
        }
    }
}

impl ReferenceOr<Schema> {
    /// Whether two entries are identical: both the same reference, or both the
    /// same fragment.
    pub fn same(&self, other: &ReferenceOr<Schema>) -> (r: bool)
        ensures
            r == (self.deep_view() == other.deep_view()),
    {
        match self {
            ReferenceOr::Reference { _ref } => match other {
                ReferenceOr::Reference { _ref: theirs } => *_ref == *theirs,
                ReferenceOr::Object(_) => false,
            },
            ReferenceOr::Object(schema) => match other {
                ReferenceOr::Reference { .. } => false,
                ReferenceOr::Object(theirs) => schema.same(theirs),
            },
        }
    }
}

/// A schema under the name by which the description refers to it.
#[derive(Debug, PartialEq, Eq)]
pub struct NamedSchema {
    pub name: String,
    pub schema: ReferenceOr<Schema>,
}

/// What a [`NamedSchema`] stands for.
pub struct NamedSchemaView {
    pub name: Seq<char>,
    pub schema: ReferenceOrView<Seq<char>>,
}

impl DeepView for NamedSchema {
    type V = NamedSchemaView;

    open spec fn deep_view(&self) -> NamedSchemaView {
        NamedSchemaView { name: self.name@, schema: self.schema.deep_view() }
    }
}

impl Clone for NamedSchema {
    fn clone(&self) -> (r: Self)
        ensures
            r.deep_view() == self.deep_view(),
    {
        NamedSchema { name: self.name.clone(), schema: self.schema.clone() }
    }
}

/// The body of a request or response in one content type.
#[derive(Debug, PartialEq, Eq)]
pub struct MediaType {
    pub content_type: String,
    pub schema: Option<ReferenceOr<Schema>>,
}

/// What a [`MediaType`] stands for.
pub struct MediaTypeView {
    pub content_type: Seq<char>,
    pub schema: Option<ReferenceOrView<Seq<char>>>,
}

impl DeepView for MediaType {
    type V = MediaTypeView;

    open spec fn deep_view(&self) -> MediaTypeView {
        MediaTypeView { content_type: self.content_type@, schema: self.schema.deep_view() }
    }
}

impl Clone for MediaType {
    fn clone(&self) -> (r: Self)
        ensures
            r.deep_view() == self.deep_view(),
    {
        MediaType { content_type: self.content_type.clone(), schema: self.schema.clone() }
    }
}

/// The body that an operation expects.
#[derive(Debug, PartialEq, Eq)]
pub struct RequestBody {
    pub content: Vec<MediaType>,
    pub required: Option<bool>,
}

/// What a [`RequestBody`] stands for.
pub struct RequestBodyView {
    pub content: Seq<MediaTypeView>,
    pub required: Option<bool>,
}

impl DeepView for RequestBody {
    type V = RequestBodyView;

    open spec fn deep_view(&self) -> RequestBodyView {
        RequestBodyView { content: self.content.deep_view(), required: self.required }
    }
}

impl Clone for RequestBody {
    fn clone(&self) -> (r: Self)
        ensures
            r.deep_view() == self.deep_view(),
    {
        let content = self.content.clone();
        assert(content.deep_view() =~= self.content.deep_view());
        RequestBody { content, required: self.required }
    }
}

/// One response of an operation, under its status code.
#[derive(Debug, PartialEq, Eq)]
pub struct Response {
    pub status: String,
    pub document: String,
}

/// What a [`Response`] stands for.
pub struct ResponseView {
    pub status: Seq<char>,
    pub document: Seq<char>,
}

impl DeepView for Response {
    type V = ResponseView;

    open spec fn deep_view(&self) -> ResponseView {
        ResponseView { status: self.status@, document: self.document@ }
    }
}

impl Clone for Response {
    fn clone(&self) -> (r: Self)
        ensures
            r.deep_view() == self.deep_view(),
    {
        Response { status: self.status.clone(), document: self.document.clone() }
    }
}

/// The responses of an operation.
#[derive(Debug, PartialEq, Eq)]
pub struct Responses {
    pub responses: Vec<Response>,
}

impl DeepView for Responses {
    type V = Seq<ResponseView>;

    open spec fn deep_view(&self) -> Seq<ResponseView> {
        self.responses.deep_view()
    }
}

impl Clone for Responses {
    fn clone(&self) -> (r: Self)
        ensures
            r.deep_view() == self.deep_view(),
    {
        let responses = self.responses.clone();
        assert(responses.deep_view() =~= self.responses.deep_view());
        Responses { responses }
    }
}

impl Default for Responses {
    fn default() -> (r: Self)
        ensures
            r.deep_view() == Seq::<ResponseView>::empty(),
    {
        let r = Responses { responses: Vec::new() };
        assert(r.deep_view() =~= Seq::<ResponseView>::empty());
        r
    }
}

/// A parameter of an operation.
#[derive(Debug, PartialEq, Eq)]
pub struct Parameter {
    pub name: String,
    pub document: String,
}

/// What a [`Parameter`] stands for.
pub struct ParameterView {
    pub name: Seq<char>,
    pub document: Seq<char>,
}

impl DeepView for Parameter {
    type V = ParameterView;

    open spec fn deep_view(&self) -> ParameterView {
        ParameterView { name: self.name@, document: self.document@ }
    }
}

impl Clone for Parameter {
    fn clone(&self) -> (r: Self)
        ensures
            r.deep_view() == self.deep_view(),
    {
        Parameter { name: self.name.clone(), document: self.document.clone() }
    }
}

/// A way in which a caller proves who they are.
#[derive(Debug, PartialEq, Eq)]
pub struct SecurityScheme {
    pub name: String,
    pub document: String,
}

/// What a [`SecurityScheme`] stands for.
pub struct SecuritySchemeView {
    pub name: Seq<char>,
    pub document: Seq<char>,
}

impl DeepView for SecurityScheme {
    type V = SecuritySchemeView;

    open spec fn deep_view(&self) -> SecuritySchemeView {
        SecuritySchemeView { name: self.name@, document: self.document@ }
    }
}

impl Clone for SecurityScheme {
    fn clone(&self) -> (r: Self)
        ensures
            r.deep_view() == self.deep_view(),
    {
        SecurityScheme { name: self.name.clone(), document: self.document.clone() }
    }
}

/// One method's metadata for a path.
#[derive(Debug, PartialEq, Eq)]
pub struct Operation {
    pub operation_id: Option<String>,
    pub request_body: Option<RequestBody>,
    pub responses: Responses,
    pub parameters: Vec<Parameter>,
}

/// What an [`Operation`] stands for.
pub struct OperationView {
    pub operation_id: Option<Seq<char>>,
    pub request_body: Option<RequestBodyView>,
    pub responses: Seq<ResponseView>,
    pub parameters: Seq<ParameterView>,
}

impl DeepView for Operation {
    type V = OperationView;

    open spec fn deep_view(&self) -> OperationView {
        OperationView {
            operation_id: self.operation_id.deep_view(),
            request_body: self.request_body.deep_view(),
            responses: self.responses.deep_view(),
            parameters: self.parameters.deep_view(),
        }
    }
}

impl View for Operation {
    type V = OperationView;

    open spec fn view(&self) -> OperationView {
        self.deep_view()
    }
}

impl Clone for Operation {
    fn clone(&self) -> (r: Self)
        ensures
            r.deep_view() == self.deep_view(),
    {
        let parameters = self.parameters.clone();
        assert(parameters.deep_view() =~= self.parameters.deep_view());
        Operation {
            operation_id: self.operation_id.clone(),
            request_body: self.request_body.clone(),
            responses: self.responses.clone(),
            parameters,
        }
    }
}

impl OperationView {
    /// The operation that says nothing.
    pub open spec fn empty() -> OperationView {
        OperationView {
            operation_id: None,
            request_body: None,
            responses: Seq::empty(),
            parameters: Seq::empty(),
        }
    }

    /// This operation under the identifier `id`, unless it has one already.
    pub open spec fn identified(self, id: Seq<char>) -> OperationView {
        if self.operation_id is Some {
            self
        } else {
            OperationView { operation_id: Some(id), ..self }
        }
    }
}

impl Default for Operation {
    fn default() -> (r: Self)
        ensures
            r.deep_view() == OperationView::empty(),
    {
        let r = Operation {
            operation_id: None,
            request_body: None,
            responses: Responses::default(),
            parameters: Vec::new(),
        };
        assert(r.parameters.deep_view() =~= Seq::<ParameterView>::empty());
        r
    }
}

} // verus!
