//! What an author writes down to declare handlers, controllers and modules:
//! attributes with their arguments, and the items that carry them.
//!
//! These are plain values. Whatever reads the author's source builds them;
//! the rules that decide what a declaration means are in the modules that
//! consume them.

use vstd::prelude::*;
use vstd::string::*;
use crate::components::Components;
use crate::models::Operation;

verus! {

/// The value of an option, as the author wrote it.
#[derive(Debug, PartialEq, Eq)]
pub enum Expr {
    /// A string literal; the text is what stands between the quotes.
    Lit(String),
    /// A path such as `crate::guards::Admin`.
    Path(String),
    /// Any other expression, in source form.
    Other(String),
}

impl Clone for Expr {
    fn clone(&self) -> (r: Self)
        ensures
            r == *self,
    {
        match self {
            Expr::Lit(text) => Expr::Lit(text.clone()),
            Expr::Path(text) => Expr::Path(text.clone()),
            Expr::Other(text) => Expr::Other(text.clone()),
        }
    }
}

/// An option in the form `name = value`.
#[derive(Debug, PartialEq, Eq)]
pub struct MetaNameValue {
    pub name: String,
    pub value: Expr,
}

/// An option in the form `name(item, item, ..)`; each item in source form.
#[derive(Debug, PartialEq, Eq)]
pub struct MetaList {
    pub name: String,
    pub items: Vec<String>,
}

/// One of the comma-separated arguments of an attribute.
#[derive(Debug, PartialEq, Eq)]
pub enum ListItem {
    /// A string literal.
    Literal(String),
    /// `name = value`.
    NameValue(MetaNameValue),
    /// `name(..)`.
    List(MetaList),
    /// A bare word.
    Word(String),
}

/// What follows the name of an attribute.
#[derive(Debug, PartialEq, Eq)]
pub enum Meta {
    /// Nothing: `#[get]`.
    Path,
    /// Arguments in parentheses: `#[get("/:id", wrap = Log)]`.
    List(Vec<ListItem>),
    /// A value: `#[get = "/"]`.
    NameValue(Expr),
}

/// An attribute on an item.
#[derive(Debug, PartialEq, Eq)]
pub struct Attribute {
    pub name: String,
    pub meta: Meta,
}

/// What the signature of a function says, as far as a handler is concerned.
#[derive(Debug, PartialEq, Eq)]
pub struct Signature {
    pub ident: String,
    /// Whether the function takes `self`.
    pub has_receiver: bool,
    /// Whether the function names a return type.
    pub has_output: bool,
    pub is_async: bool,
}

impl Clone for Signature {
    fn clone(&self) -> (r: Self)
        ensures
            r == *self,
    {
        Signature {
            ident: self.ident.clone(),
            has_receiver: self.has_receiver,
            has_output: self.has_output,
            is_async: self.is_async,
        }
    }
}

/// A function in a controller block, with what it contributes to the API
/// description if it turns out to be a handler.
#[derive(Debug, PartialEq, Eq)]
pub struct ImplItemFn {
    pub attrs: Vec<Attribute>,
    pub sig: Signature,
    pub operation: Operation,
    pub components: Vec<Components>,
}

/// An item in a controller block.
#[derive(Debug, PartialEq, Eq)]
pub enum ImplItem {
    Fn(ImplItemFn),
    /// A constant, a type or anything else that is no function.
    Other,
}

/// A controller block: `impl Type { .. }`.
#[derive(Debug, PartialEq, Eq)]
pub struct ItemImpl {
    pub attrs: Vec<Attribute>,
    pub items: Vec<ImplItem>,
    /// The type that the block is for, in source form.
    pub self_ty: String,
    /// Whether the block implements a trait.
    pub implements_trait: bool,
}

/// A type declaration with a derive on it.
#[derive(Debug, PartialEq, Eq)]
pub struct DeriveInput {
    pub ident: String,
    pub attrs: Vec<Attribute>,
}

/// A generic parameter of a type declaration, by its name.
#[derive(Debug, PartialEq, Eq)]
pub enum GenericParam {
    Type(String),
    Lifetime(String),
    Const(String),
}

/// The generics of a type declaration.
#[derive(Debug, PartialEq, Eq)]
pub struct Generics {
    pub params: Vec<GenericParam>,
    pub has_where_clause: bool,
}

/// A path such as `axum::extract::State`, by the names of its segments.
#[derive(Debug, PartialEq, Eq)]
pub struct Path {
    pub segments: Vec<String>,
}

/// An argument in angle brackets.
#[derive(Debug, PartialEq, Eq)]
pub enum GenericArgument {
    Type(Type),
    /// A lifetime, a constant or a binding, in source form.
    Other(String),
}

/// What follows the last segment of a type path.
#[derive(Debug, PartialEq, Eq)]
pub enum PathArguments {
    /// Nothing.
    Empty,
    /// `<A, B>`.
    AngleBracketed(Vec<GenericArgument>),
    /// `(A, B) -> C`.
    Parenthesized,
}

/// A type that is written as a path: the names of its segments, and the
/// arguments of the last one.
#[derive(Debug, PartialEq, Eq)]
pub struct TypePath {
    pub segments: Vec<String>,
    pub arguments: PathArguments,
}

/// The form of a type.
#[derive(Debug, PartialEq, Eq)]
pub enum TypeKind {
    Path(TypePath),
    /// A reference, a tuple or any other form.
    Other,
}

/// A type: its source form, by which two types are told apart, and its form.
#[derive(Debug, PartialEq, Eq)]
pub struct Type {
    pub source: String,
    pub kind: TypeKind,
}

/// A field of a struct or of a variant, with the `via` that it names.
#[derive(Debug, PartialEq, Eq)]
pub struct Field {
    pub ident: Option<String>,
    pub ty: Type,
    pub via: Option<Path>,
}

/// The fields of a struct or of a variant.
#[derive(Debug, PartialEq, Eq)]
pub enum Fields {
    Named(Vec<Field>),
    Unnamed(Vec<Field>),
    Unit,
}

/// A variant of an enum, with the `via` that it names.
#[derive(Debug, PartialEq, Eq)]
pub struct Variant {
    pub via: Option<Path>,
    pub fields: Fields,
}

/// What a type declaration says for its derive: how it is extracted, what
/// it rejects with, and the state that it needs.
#[derive(Debug, PartialEq, Eq)]
pub struct ContainerAttrs {
    pub via: Option<Path>,
    pub rejection: Option<Path>,
    pub state: Option<Type>,
}

/// A struct with a derive on it.
#[derive(Debug, PartialEq, Eq)]
pub struct ItemStruct {
    pub ident: String,
    pub generics: Generics,
    pub fields: Fields,
    pub attrs: ContainerAttrs,
}

/// An enum with a derive on it.
#[derive(Debug, PartialEq, Eq)]
pub struct ItemEnum {
    pub ident: String,
    pub generics: Generics,
    pub variants: Vec<Variant>,
    pub attrs: ContainerAttrs,
}

/// An item with a derive on it.
#[derive(Debug, PartialEq, Eq)]
pub enum Item {
    Struct(ItemStruct),
    Enum(ItemEnum),
    Other,
}

} // verus!
