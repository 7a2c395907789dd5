//! What can go wrong while an application's declarations are built, resolved
//! and aggregated. Every one of these stops the application from starting.

use vstd::prelude::*;
use vstd::string::*;

verus! {

/// A failure of the build. None of them is recoverable: no partial route
/// table or document is handed out beside one.
#[derive(Debug, PartialEq, Eq)]
pub enum Error {
    /// One handler declares more than one HTTP method.
    MultipleMethodsOnHandler,
    /// The import graph comes back to a module that is already on the path
    /// from the root. `trace` is that path, followed by the module met again.
    CyclicModuleImport { trace: Vec<usize> },
    /// Two contributions register the schema `name` with different
    /// definitions.
    SchemaDefinitionConflict { name: String },
    /// A handler takes `self`.
    UnsupportedSelfMethod,
    /// A method attribute is written as `name = value`.
    UnsupportedMeta,
    /// The option `name` of a method attribute is no string literal.
    NameExpectsLiteral,
    /// The option `guard` of a method attribute is no path.
    GuardExpectsPath,
    /// An option of an attribute has a key that the attribute does not know.
    UnknownAttributeKey,
    /// A handler has no return type.
    MissingReturnType,
    /// A handler is not `async`.
    HandlerNotAsync,
    /// The controller block implements a trait.
    UnsupportedImplTrait,
    /// An option of an attribute has the wrong shape for its key.
    MalformedOption,
    /// A text that should name a type does not parse as one.
    InvalidType,
    /// An attribute gives more than one path.
    MultiplePathsSpecified,
    /// A controller attribute does not start with its path.
    MissingPath,
    /// A module names a module or a controller that is not declared.
    UnknownName { name: String },
    /// An extractor has a `where` clause.
    WhereClauseUnsupported,
    /// An extractor is generic over a lifetime.
    GenericLifetimeUnsupported,
    /// An extractor has a const generic.
    GenericConstUnsupported,
    /// A generic extractor has named fields.
    GenericNeedsTupleStruct,
    /// A generic extractor has not exactly one field.
    GenericNeedsOneField,
    /// The one field of a generic extractor is not of the generic type.
    GenericFieldOfOtherType,
    /// A field's type is no type path.
    ExpectedTypePath,
    /// An extractor has more than one generic parameter.
    TooManyGenerics,
    /// A generic extractor names no `via`.
    GenericNeedsVia,
    /// An extractor enum has generics or a `where` clause.
    EnumGenericsUnsupported,
    /// An extractor enum names a rejection and no `via`.
    RejectionWithoutVia,
    /// An extractor enum names no `via`.
    MissingVia,
    /// A field or a variant names a `via` beside the one of its container.
    NestedVia,
    /// The item is neither a struct nor an enum.
    ExpectedStructOrEnum,
}

impl Error {
    /// The sentence that tells the author what went wrong.
    pub open spec fn spec_message(self) -> Seq<char> {
        match self {
            Error::MultipleMethodsOnHandler => "Unsupported to use more than one method"@,
            Error::CyclicModuleImport { .. } => "A module imports itself"@,
            Error::SchemaDefinitionConflict { .. } => "A schema is defined twice with different structures"@,
            Error::UnsupportedSelfMethod => "Unsupported self method"@,
            Error::UnsupportedMeta => "Unsupported meta"@,
            Error::NameExpectsLiteral => "Attribute name expects literal string"@,
            Error::GuardExpectsPath => "Attribute guard expects path"@,
            Error::UnknownAttributeKey => "Unknown attribute key is specified"@,
            Error::MissingReturnType => "Function has no return type. Cannot be used as handler"@,
            Error::HandlerNotAsync => "Function must be async"@,
            Error::UnsupportedImplTrait => "Unsupported impl Trait"@,
            Error::MalformedOption => "Attribute option has the wrong form"@,
            Error::InvalidType => "Expected a type"@,
            Error::MultiplePathsSpecified => "Multiple paths specified! There should be only one."@,
            Error::MissingPath => "must be start with path"@,
            Error::UnknownName { .. } => "A module names what is not declared"@,
            Error::WhereClauseUnsupported => "#[derive(Injectable)] doesn't support structs with `where` clauses"@,
            Error::GenericLifetimeUnsupported => "#[derive(Injectable)] doesn't support structs that are generic over lifetimes"@,
            Error::GenericConstUnsupported => "#[derive(Injectable)] doesn't support structs that have const generics"@,
            Error::GenericNeedsTupleStruct => "#[derive(Injectable)] doesn't support named fields for generic structs. Use a tuple struct instead"@,
            Error::GenericNeedsOneField => "#[derive(Injectable)] only supports generics on tuple structs that have exactly one field"@,
            Error::GenericFieldOfOtherType => "#[derive(Injectable)] only supports generics on tuple structs that have exactly one field of the generic type"@,
            Error::ExpectedTypePath => "Expected type path"@,
            Error::TooManyGenerics => "#[derive(Injectable)] only supports 0 or 1 generic type parameters"@,
            Error::GenericNeedsVia => "#[derive(Injectable)] only supports generics when used with #[injectable(via)]"@,
            Error::EnumGenericsUnsupported => "`#[derive(Injectable)] on enums don't support generics"@,
            Error::RejectionWithoutVia => "cannot use `rejection` without `via`"@,
            Error::MissingVia => "missing `#[injectable(via(...))]`"@,
            Error::NestedVia => "`#[injectable(via(...))]` cannot be used beside the one of the container"@,
            Error::ExpectedStructOrEnum => "expected `struct` or `enum`"@,
        }
    }

    /// The sentence that tells the author what went wrong.
    pub fn message(&self) -> (r: &'static str)
        ensures
            r@ == self.spec_message(),
    {
        match self {
            Error::MultipleMethodsOnHandler => "Unsupported to use more than one method",
            Error::CyclicModuleImport { .. } => "A module imports itself",
            Error::SchemaDefinitionConflict { .. } => "A schema is defined twice with different structures",
            Error::UnsupportedSelfMethod => "Unsupported self method",
            Error::UnsupportedMeta => "Unsupported meta",
            Error::NameExpectsLiteral => "Attribute name expects literal string",
            Error::GuardExpectsPath => "Attribute guard expects path",
            Error::UnknownAttributeKey => "Unknown attribute key is specified",
            Error::MissingReturnType => "Function has no return type. Cannot be used as handler",
            Error::HandlerNotAsync => "Function must be async",
            Error::UnsupportedImplTrait => "Unsupported impl Trait",
            Error::MalformedOption => "Attribute option has the wrong form",
            Error::InvalidType => "Expected a type",
            Error::MultiplePathsSpecified => "Multiple paths specified! There should be only one.",
            Error::MissingPath => "must be start with path",
            Error::UnknownName { .. } => "A module names what is not declared",
            Error::WhereClauseUnsupported => "#[derive(Injectable)] doesn't support structs with `where` clauses",
            Error::GenericLifetimeUnsupported => "#[derive(Injectable)] doesn't support structs that are generic over lifetimes",
            Error::GenericConstUnsupported => "#[derive(Injectable)] doesn't support structs that have const generics",
            Error::GenericNeedsTupleStruct => "#[derive(Injectable)] doesn't support named fields for generic structs. Use a tuple struct instead",
            Error::GenericNeedsOneField => "#[derive(Injectable)] only supports generics on tuple structs that have exactly one field",
            Error::GenericFieldOfOtherType => "#[derive(Injectable)] only supports generics on tuple structs that have exactly one field of the generic type",
            Error::ExpectedTypePath => "Expected type path",
            Error::TooManyGenerics => "#[derive(Injectable)] only supports 0 or 1 generic type parameters",
            Error::GenericNeedsVia => "#[derive(Injectable)] only supports generics when used with #[injectable(via)]",
            Error::EnumGenericsUnsupported => "`#[derive(Injectable)] on enums don't support generics",
            Error::RejectionWithoutVia => "cannot use `rejection` without `via`",
            Error::MissingVia => "missing `#[injectable(via(...))]`",
            Error::NestedVia => "`#[injectable(via(...))]` cannot be used beside the one of the container",
            Error::ExpectedStructOrEnum => "expected `struct` or `enum`",
        }
    }
}

} // verus!
