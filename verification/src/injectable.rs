//! Extractors: what the declaration of a type decides about the way in which
//! its values are taken out of a request.

use vstd::prelude::*;
use vstd::string::*;
use crate::config::Config;
use crate::error::Error;
use crate::syntax::{Field, Fields, GenericArgument, GenericParam, Generics, Item, ItemEnum, ItemStruct, Path, PathArguments, Type, TypeKind, TypePath, Variant};
use crate::text::same_text;
use crate::type_syntax::{is_type, parses_as_type};

verus! {

/// The fields of `fields`, in order; none for a unit.
pub open spec fn fields_of(fields: Fields) -> Seq<Field> {
    match fields {
        Fields::Named(named) => named@,
        Fields::Unnamed(unnamed) => unnamed@,
        Fields::Unit => Seq::empty(),
    }
}

/// The fields of `fields`, in order.
pub fn list_fields(fields: &Fields) -> (r: &[Field])
    ensures
        r@ == fields_of(*fields),
{
    match fields {
        Fields::Named(named) => named.as_slice(),
        Fields::Unnamed(unnamed) => unnamed.as_slice(),
        Fields::Unit => {
            let none: &[Field] = &[];
            assert(none@ =~= Seq::<Field>::empty());
            none
        },
    }
}

/// Whether there is no field.
pub fn has_no_fields(fields: &Fields) -> (r: bool)
    ensures
        r == (fields_of(*fields).len() == 0),
{
    match fields {
        Fields::Named(named) => named.len() == 0,
        Fields::Unnamed(unnamed) => unnamed.len() == 0,
        Fields::Unit => true,
    }
}

/// The one name that a type path consists of, if it is a single name
/// without arguments.
pub open spec fn single_ident(path: TypePath) -> Option<Seq<char>> {
    if path.segments@.len() == 1 && path.arguments is Empty {
        Some(path.segments@[0]@)
    } else {
        None
    }
}

/// The generic type parameter of an extractor struct, or what is wrong with
/// its generics. A struct may be generic over one type if it is a tuple
/// struct whose one field is of that type.
pub open spec fn generic_of(generics: Generics, fields: Fields) -> Result<Option<String>, Error> {
    if generics.has_where_clause {
        Err(Error::WhereClauseUnsupported)
    } else if generics.params@.len() == 0 {
        Ok(None)
    } else if generics.params@.len() == 1 {
        match generics.params@[0] {
            GenericParam::Lifetime(_) => Err(Error::GenericLifetimeUnsupported),
            GenericParam::Const(_) => Err(Error::GenericConstUnsupported),
            GenericParam::Type(ident) => match fields {
                Fields::Named(_) => Err(Error::GenericNeedsTupleStruct),
                Fields::Unit => Ok(None),
                Fields::Unnamed(unnamed) => if unnamed@.len() != 1 {
                    Err(Error::GenericNeedsOneField)
                } else {
                    match unnamed@[0].ty.kind {
                        TypeKind::Other => Err(Error::ExpectedTypePath),
                        TypeKind::Path(path) => if single_ident(path) == Some(ident@) {
                            Ok(Some(ident))
                        } else {
                            Err(Error::GenericFieldOfOtherType)
                        },
                    }
                },
            },
        }
    } else {
        Err(Error::TooManyGenerics)
    }
}

/// Reads the generics of an extractor struct.
pub fn parse_single_generic_type_on_struct(generics: Generics, fields: &Fields) -> (r: Result<
    Option<String>,
    Error,
>)
    ensures
        r == generic_of(generics, *fields),
{
    if generics.has_where_clause {
        return Err(Error::WhereClauseUnsupported);
    }
    if generics.params.len() == 0 {
        return Ok(None);
    }
    if generics.params.len() > 1 {
        return Err(Error::TooManyGenerics);
    }
    let ident: &String = match &generics.params[0] {
        GenericParam::Type(ident) => ident,
        GenericParam::Lifetime(_) => {
            return Err(Error::GenericLifetimeUnsupported);
        },
        GenericParam::Const(_) => {
            return Err(Error::GenericConstUnsupported);
        },
    };
    match fields {
        Fields::Named(_) => Err(Error::GenericNeedsTupleStruct),
        Fields::Unit => Ok(None),
        Fields::Unnamed(unnamed) => {
            if unnamed.len() != 1 {
                return Err(Error::GenericNeedsOneField);
            }
            match &unnamed[0].ty.kind {
                TypeKind::Other => Err(Error::ExpectedTypePath),
                TypeKind::Path(path) => {
                    let single: bool = path.segments.len() == 1 && match &path.arguments {
                        PathArguments::Empty => true,
                        _ => false,
                    };
                    if single && same_text(path.segments[0].as_str(), ident.as_str()) {
                        Ok(Some(ident.clone()))
                    } else {
                        Err(Error::GenericFieldOfOtherType)
                    }
                },
            }
        },
    }
}

/// A generic type parameter is an error where the extractor names no `via`.
pub fn error_on_generic_ident(generic_ident: Option<String>) -> (r: Result<(), Error>)
    ensures
        r == match generic_ident {
            Some(_) => Err::<(), Error>(Error::GenericNeedsVia),
            None => Ok::<(), Error>(()),
        },
{
    match generic_ident {
        Some(_) => Err(Error::GenericNeedsVia),
        None => Ok(()),
    }
}

/// What a type wraps, if it is the wrapper called `wrapper` with `arity`
/// arguments: its argument at `at`, if that is a type.
pub open spec fn peeled(ty: Type, wrapper: Seq<char>, arity: nat, at: int) -> Option<Type> {
    match ty.kind {
        TypeKind::Other => None,
        TypeKind::Path(path) => if path.segments@.len() > 0 && path.segments@.last()@ == wrapper {
            match path.arguments {
                PathArguments::AngleBracketed(args) => if args@.len() == arity {
                    match args@[at] {
                        GenericArgument::Type(inner) => Some(inner),
                        GenericArgument::Other(_) => None,
                    }
                } else {
                    None
                },
                _ => None,
            }
        } else {
            None
        },
    }
}

/// Peels a wrapper off a type.
fn peel<'a>(ty: &'a Type, wrapper: &str, arity: usize, at: usize) -> (r: Option<&'a Type>)
    requires
        at < arity,
    ensures
        match r {
            Some(inner) => peeled(*ty, wrapper@, arity as nat, at as int) == Some(*inner),
            None => peeled(*ty, wrapper@, arity as nat, at as int) is None,
        },
{
    let path: &TypePath = match &ty.kind {
        TypeKind::Path(path) => path,
        TypeKind::Other => {
            return None;
        },
    };
    if path.segments.len() == 0 {
        return None;
    }
    if !same_text(path.segments[path.segments.len() - 1].as_str(), wrapper) {
        return None;
    }
    match &path.arguments {
        PathArguments::AngleBracketed(args) => {
            if args.len() != arity {
                return None;
            }
            match &args[at] {
                GenericArgument::Type(inner) => Some(inner),
                GenericArgument::Other(_) => None,
            }
        },
        _ => None,
    }
}

/// What an `Option` wraps: the type `T` of `Option<T>`.
pub fn peel_option(ty: &Type) -> (r: Option<&Type>)
    ensures
        match r {
            Some(inner) => peeled(*ty, "Option"@, 1, 0) == Some(*inner),
            None => peeled(*ty, "Option"@, 1, 0) is None,
        },
{
    peel(ty, "Option", 1, 0)
}

/// What a `Result` wraps on success: the type `T` of `Result<T, E>`.
pub fn peel_result_ok(ty: &Type) -> (r: Option<&Type>)
    ensures
        match r {
            Some(inner) => peeled(*ty, "Result"@, 2, 0) == Some(*inner),
            None => peeled(*ty, "Result"@, 2, 0) is None,
        },
{
    peel(ty, "Result", 2, 0)
}

/// Whether the last segment of a path is called `State`.
pub open spec fn names_state(path: Path) -> bool {
    path.segments@.len() > 0 && path.segments@.last()@ == "State"@
}

/// Whether the last segment of a path is called `State`.
pub fn path_ident_is_state(path: &Path) -> (r: bool)
    ensures
        r == names_state(*path),
{
    if path.segments.len() == 0 {
        false
    } else {
        same_text(path.segments[path.segments.len() - 1].as_str(), "State")
    }
}

/// Whether `ty` is the type that is written as the single name `ident`.
pub open spec fn is_named(ty: Type, ident: Seq<char>) -> bool {
    &&& ty.source@ == ident
    &&& ty.kind matches TypeKind::Path(path)
    &&& single_ident(path) == Some(ident)
}

/// The state that an extractor extracted through `via` needs: the extractor
/// itself, where `via` is `State`.
pub fn state_from_via(ident: &str, via: &Path) -> (r: Option<Type>)
    ensures
        match r {
            Some(ty) => names_state(*via) && is_named(ty, ident@),
            None => !names_state(*via),
        },
{
    if path_ident_is_state(via) {
        let mut segments: Vec<String> = Vec::new();
        segments.push(String::from_str(ident));
        Some(
            Type {
                source: String::from_str(ident),
                kind: TypeKind::Path(TypePath { segments, arguments: PathArguments::Empty }),
            },
        )
    } else {
        None
    }
}

/// The state types that the types `types` name: for each `State<T>` among
/// them its `T`, in order.
pub open spec fn states_in(types: Seq<Type>) -> Seq<Type>
    decreases types.len(),
{
    if types.len() == 0 {
        Seq::empty()
    } else {
        match peeled(types.last(), "State"@, 1, 0) {
            Some(inner) => states_in(types.drop_last()).push(inner),
            None => states_in(types.drop_last()),
        }
    }
}

/// What the references of `found` refer to, in order.
pub open spec fn deref_types(found: Seq<&Type>) -> Seq<Type> {
    found.map_values(|t: &Type| *t)
}

/// The state types that the types `types` name.
pub fn infer_state_types<'a>(types: &Vec<&'a Type>) -> (r: Vec<&'a Type>)
    ensures
        deref_types(r@) == states_in(deref_types(types@)),
{
    let ghost all = deref_types(types@);
    let mut found: Vec<&'a Type> = Vec::new();
    let mut i: usize = 0;
    assert(all.take(0) =~= Seq::<Type>::empty());
    assert(deref_types(found@) =~= Seq::<Type>::empty());
    while i < types.len()
        invariant
            i <= types.len(),
            all == deref_types(types@),
            deref_types(found@) == states_in(all.take(i as int)),
        decreases types.len() - i,
    {
        assert(all.take(i + 1).drop_last() =~= all.take(i as int));
        assert(all.take(i + 1).last() == *types@[i as int]);
        match peel(types[i], "State", 1, 0) {
            Some(inner) => {
                let ghost before = deref_types(found@);
                found.push(inner);
                assert(deref_types(found@) =~= before.push(*inner));
            },
            None => {},
        }
        i = i + 1;
    }
    assert(all.take(i as int) =~= all);
    found
}

/// The types of the fields `fields`, in order.
pub open spec fn field_types(fields: Seq<Field>) -> Seq<Type> {
    fields.map_values(|f: Field| f.ty)
}

/// The state types that the types of the fields name.
pub fn infer_state_type_from_field_types(fields: &Fields) -> (r: Vec<&Type>)
    ensures
        deref_types(r@) == states_in(field_types(fields_of(*fields))),
{
    let list = list_fields(fields);
    let mut types: Vec<&Type> = Vec::new();
    let mut i: usize = 0;
    while i < list.len()
        invariant
            i <= list.len(),
            list@ == fields_of(*fields),
            deref_types(types@) == field_types(list@.take(i as int)),
        decreases list.len() - i,
    {
        let ghost before = deref_types(types@);
        types.push(&list[i].ty);
        assert(deref_types(types@) =~= before.push(list@[i as int].ty));
        assert(field_types(list@.take(i + 1)) =~= field_types(list@.take(i as int)).push(
            list@[i as int].ty,
        ));
        i = i + 1;
    }
    assert(list@.take(i as int) =~= list@);
    infer_state_types(&types)
}

/// The types of the fields among `fields` that are extracted through
/// `State`, in order.
pub open spec fn states_by_attribute(fields: Seq<Field>) -> Seq<Type>
    decreases fields.len(),
{
    if fields.len() == 0 {
        Seq::empty()
    } else if fields.last().via is Some && names_state(fields.last().via->Some_0) {
        states_by_attribute(fields.drop_last()).push(fields.last().ty)
    } else {
        states_by_attribute(fields.drop_last())
    }
}

/// The state types that the fields name by being extracted through `State`.
pub fn infer_state_type_from_field_attributes(fields: &Fields) -> (r: Vec<&Type>)
    ensures
        deref_types(r@) == states_by_attribute(fields_of(*fields)),
{
    let list = list_fields(fields);
    let mut found: Vec<&Type> = Vec::new();
    let mut i: usize = 0;
    assert(list@.take(0) =~= Seq::<Field>::empty());
    assert(deref_types(found@) =~= Seq::<Type>::empty());
    while i < list.len()
        invariant
            i <= list.len(),
            list@ == fields_of(*fields),
            deref_types(found@) == states_by_attribute(list@.take(i as int)),
        decreases list.len() - i,
    {
        assert(list@.take(i + 1).drop_last() =~= list@.take(i as int));
        assert(list@.take(i + 1).last() == list@[i as int]);
        let by_state: bool = match &list[i].via {
            Some(via) => path_ident_is_state(via),
            None => false,
        };
        if by_state {
            let ghost before = deref_types(found@);
            found.push(&list[i].ty);
            assert(deref_types(found@) =~= before.push(list@[i as int].ty));
        }
        i = i + 1;
    }
    assert(list@.take(i as int) =~= list@);
    found
}

/// The state that an extractor needs, each type in source form.
#[derive(Debug, PartialEq, Eq)]
pub enum State {
    /// A type that the declaration names or implies.
    Custom(String),
    /// Any state: the extractor is generic over it, under this name.
    Default(String),
    /// The declaration implies more than one state.
    CannotInfer,
}

/// What a [`State`] stands for.
pub enum StateView {
    Custom(Seq<char>),
    Default(Seq<char>),
    CannotInfer,
}

impl View for State {
    type V = StateView;

    open spec fn view(&self) -> StateView {
        match self {
            State::Custom(ty) => StateView::Custom(ty@),
            State::Default(ty) => StateView::Default(ty@),
            State::CannotInfer => StateView::CannotInfer,
        }
    }
}

impl State {
    /// The type parameter that the implementation declares, if it declares
    /// one.
    pub fn impl_generics(&self) -> (r: Option<String>)
        ensures
            r.deep_view() == match self@ {
                StateView::Default(ty) => Some(ty),
                StateView::Custom(_) => None,
                StateView::CannotInfer => Some("S"@),
            },
    {
        match self {
            State::Default(ty) => Some(ty.clone()),
            State::Custom(_) => None,
            State::CannotInfer => Some(String::from_str("S")),
        }
    }

    /// The state that the implemented trait is applied to.
    pub fn trait_generics(&self) -> (r: String)
        ensures
            r@ == match self@ {
                StateView::Default(ty) => ty,
                StateView::Custom(ty) => ty,
                StateView::CannotInfer => "S"@,
            },
    {
        match self {
            State::Default(ty) => ty.clone(),
            State::Custom(ty) => ty.clone(),
            State::CannotInfer => String::from_str("S"),
        }
    }

    /// The type that has to be `Send` and `Sync`, if one has to.
    pub fn bounds(&self) -> (r: Option<String>)
        ensures
            r.deep_view() == match self@ {
                StateView::Custom(_) => None,
                StateView::Default(ty) => Some(ty),
                StateView::CannotInfer => Some("S"@),
            },
    {
        match self {
            State::Custom(_) => None,
            State::Default(ty) => Some(ty.clone()),
            State::CannotInfer => Some(String::from_str("S")),
        }
    }
}

/// The state that follows from the state types `inferred`: any state where
/// there is none, the one type where all are the same, and none that can be
/// inferred where two differ.
pub open spec fn inferred_state(inferred: Seq<Seq<char>>) -> StateView {
    if inferred.len() == 0 {
        StateView::Default("S"@)
    } else if forall|i: int| 0 <= i < inferred.len() ==> #[trigger] inferred[i] == inferred[0] {
        StateView::Custom(inferred[0])
    } else {
        StateView::CannotInfer
    }
}

/// The source forms of the types `types`, in order.
pub open spec fn sources_of(types: Seq<Type>) -> Seq<Seq<char>> {
    types.map_values(|t: Type| t.source@)
}

/// The state that an extractor needs: the state that it names; else the
/// default of the settings, which has to be a type; else what follows from
/// the state types that it implies.
pub open spec fn chosen_state(
    named: Option<Type>,
    config: Config,
    inferred: Seq<Seq<char>>,
) -> Result<StateView, Error> {
    match named {
        Some(ty) => Ok(StateView::Custom(ty.source@)),
        None => match config.state {
            Some(text) => if parses_as_type(text@) {
                Ok(StateView::Custom(text@))
            } else {
                Err(Error::InvalidType)
            },
            None => Ok(inferred_state(inferred)),
        },
    }
}

/// Chooses the state that an extractor needs.
#[verifier::loop_isolation(false)]
pub fn choose_state(named: &Option<Type>, config: &Config, inferred: &Vec<&Type>) -> (r: Result<
    State,
    Error,
>)
    ensures
        match r {
            Ok(state) => chosen_state(*named, *config, sources_of(deref_types(inferred@))) == Ok::<
                StateView,
                Error,
            >(state@),
            Err(e) => chosen_state(*named, *config, sources_of(deref_types(inferred@))) == Err::<
                StateView,
                Error,
            >(e),
        },
{
    match named {
        Some(ty) => {
            return Ok(State::Custom(ty.source.clone()));
        },
        None => {},
    }
    match &config.state {
        Some(text) => {
            if is_type(text.as_str()) {
                return Ok(State::Custom(text.clone()));
            } else {
                return Err(Error::InvalidType);
            }
        },
        None => {},
    }
    if inferred.len() == 0 {
        return Ok(State::Default(String::from_str("S")));
    }
    let ghost all = sources_of(deref_types(inferred@));
    let mut i: usize = 1;
    while i < inferred.len()
        invariant
            1 <= i <= inferred.len(),
            all == sources_of(deref_types(inferred@)),
            forall|j: int| 0 <= j < i ==> #[trigger] all[j] == all[0],
        decreases inferred.len() - i,
    {
        if !same_text(inferred[i].source.as_str(), inferred[0].source.as_str()) {
            assert(all[i as int] != all[0]);
            return Ok(State::CannotInfer);
        }
        i = i + 1;
    }
    Ok(State::Custom(inferred[0].source.clone()))
}

/// How one field of an extractor is taken out of the request.
#[derive(Clone, Copy, Debug, PartialEq, Eq, Structural)]
pub enum FieldExtraction {
    /// The field is an `Option`: a failure leaves it empty.
    Optional,
    /// The field is a `Result`: a failure is kept in it.
    Fallible,
    /// A failure rejects the request.
    Required,
}

/// How a field of the type `ty` is taken out of the request.
pub open spec fn extraction_of(ty: Type) -> FieldExtraction {
    if peeled(ty, "Option"@, 1, 0) is Some {
        FieldExtraction::Optional
    } else if peeled(ty, "Result"@, 2, 0) is Some {
        FieldExtraction::Fallible
    } else {
        FieldExtraction::Required
    }
}

/// How each field of an extractor is taken out of the request, in order.
pub fn extract_fields(fields: &Fields) -> (r: Vec<FieldExtraction>)
    ensures
        r@ == fields_of(*fields).map_values(|f: Field| extraction_of(f.ty)),
{
    let list = list_fields(fields);
    let mut plan: Vec<FieldExtraction> = Vec::new();
    let mut i: usize = 0;
    while i < list.len()
        invariant
            i <= list.len(),
            list@ == fields_of(*fields),
            plan@ == list@.take(i as int).map_values(|f: Field| extraction_of(f.ty)),
        decreases list.len() - i,
    {
        let kind = if peel_option(&list[i].ty).is_some() {
            FieldExtraction::Optional
        } else if peel_result_ok(&list[i].ty).is_some() {
            FieldExtraction::Fallible
        } else {
            FieldExtraction::Required
        };
        plan.push(kind);
        assert(plan@ =~= list@.take(i + 1).map_values(|f: Field| extraction_of(f.ty)));
        i = i + 1;
    }
    assert(list@.take(i as int) =~= list@);
    plan
}

/// Whether one of `fields` names a `via`.
pub open spec fn some_field_names_via(fields: Seq<Field>) -> bool {
    exists|i: int| 0 <= i < fields.len() && (#[trigger] fields[i]).via is Some
}

/// Whether one of the fields names a `via`.
pub fn any_field_names_via(fields: &Fields) -> (r: bool)
    ensures
        r == some_field_names_via(fields_of(*fields)),
{
    let list = list_fields(fields);
    let mut i: usize = 0;
    while i < list.len()
        invariant
            i <= list.len(),
            list@ == fields_of(*fields),
            forall|j: int| 0 <= j < i ==> (#[trigger] list@[j]).via is None,
        decreases list.len() - i,
    {
        if list[i].via.is_some() {
            assert(list@[i as int].via is Some);
            return true;
        }
        i = i + 1;
    }
    false
}

/// What a request is rejected with.
#[derive(Debug, PartialEq, Eq)]
pub enum Rejection {
    /// The type that the declaration names.
    Custom(Path),
    /// Nothing: extraction cannot fail.
    Infallible,
    /// The response of the part that failed.
    Response,
}

/// The way in which an extractor struct is implemented.
#[derive(Debug, PartialEq, Eq)]
pub struct StructPlan {
    pub state: State,
    pub generic_ident: Option<String>,
    /// Whether the whole value is extracted at once, through `via`.
    pub all_at_once: bool,
    /// How each field is extracted, where they are extracted one by one.
    pub fields: Vec<FieldExtraction>,
    /// Whether requests are rejected with the type that the declaration
    /// names, and else whether extraction can fail at all.
    pub custom_rejection: bool,
    pub infallible: bool,
}

/// The state types that an extractor struct implies, in source form: those
/// that the types of its fields name, those of the fields that are extracted
/// through `State`, and the struct itself where it is extracted through
/// `State`.
pub open spec fn implied_states(item: ItemStruct) -> Seq<Seq<char>> {
    sources_of(states_in(field_types(fields_of(item.fields)))) + sources_of(
        states_by_attribute(fields_of(item.fields)),
    ) + if item.attrs.via is Some && names_state(item.attrs.via->Some_0) {
        seq![item.ident@]
    } else {
        Seq::empty()
    }
}

/// What is wrong with an extractor struct, if anything is: its generics;
/// else its state; else a field that names a `via` beside the struct's, or
/// a generic parameter without a `via`.
pub open spec fn struct_fault(item: ItemStruct, config: Config) -> Option<Error> {
    match generic_of(item.generics, item.fields) {
        Err(e) => Some(e),
        Ok(generic) => if item.attrs.state is None && config.state is Some && !parses_as_type(
            config.state->Some_0@,
        ) {
            Some(Error::InvalidType)
        } else if item.attrs.via is Some {
            if some_field_names_via(fields_of(item.fields)) {
                Some(Error::NestedVia)
            } else {
                None
            }
        } else if generic is Some {
            Some(Error::GenericNeedsVia)
        } else {
            None
        },
    }
}

impl StructPlan {
    /// Whether `self` is the way in which the struct `item` is implemented:
    /// at once where it names a `via`, and else field by field, each field
    /// by its type; with the state that it names or implies.
    pub open spec fn implements(self, item: ItemStruct, config: Config) -> bool {
        &&& generic_of(item.generics, item.fields) == Ok::<Option<String>, Error>(
            self.generic_ident,
        )
        &&& self.all_at_once == item.attrs.via is Some
        &&& self.custom_rejection == item.attrs.rejection is Some
        &&& self.infallible == (fields_of(item.fields).len() == 0)
        &&& self.fields@ == fields_of(item.fields).map_values(|f: Field| extraction_of(f.ty))
        &&& chosen_state(item.attrs.state, config, implied_states(item)) == Ok::<
            StateView,
            Error,
        >(self.state@)
    }
}

/// Decides how an extractor struct is implemented.
pub fn expand_struct(item: &ItemStruct, config: &Config) -> (r: Result<StructPlan, Error>)
    ensures
        match r {
            Ok(plan) => struct_fault(*item, *config) is None && plan.implements(*item, *config),
            Err(e) => struct_fault(*item, *config) == Some(e),
        },
{
    let generics = Generics {
        params: clone_params(&item.generics.params),
        has_where_clause: item.generics.has_where_clause,
    };
    let generic_ident = match parse_single_generic_type_on_struct(generics, &item.fields) {
        Ok(generic) => generic,
        Err(e) => {
            return Err(e);
        },
    };
    let mut inferred = infer_state_type_from_field_types(&item.fields);
    let mut by_attribute = infer_state_type_from_field_attributes(&item.fields);
    let ghost first = deref_types(inferred@);
    let ghost second = deref_types(by_attribute@);
    inferred.append(&mut by_attribute);
    assert(deref_types(inferred@) =~= first + second);
    assert(sources_of(first + second) =~= sources_of(first) + sources_of(second));
    let own: Option<Type> = match &item.attrs.via {
        Some(via) => state_from_via(item.ident.as_str(), via),
        None => None,
    };
    match &own {
        Some(ty) => {
            inferred.push(ty);
            assert(sources_of(deref_types(inferred@)) =~= sources_of(first) + sources_of(second)
                + seq![item.ident@]);
        },
        None => {
            assert(sources_of(first) + sources_of(second) + Seq::<Seq<char>>::empty()
                =~= sources_of(first) + sources_of(second));
        },
    }
    let state = match choose_state(&item.attrs.state, config, &inferred) {
        Ok(state) => state,
        Err(e) => {
            return Err(e);
        },
    };
    let all_at_once = item.attrs.via.is_some();
    let generic_ident: Option<String> = if all_at_once {
        if any_field_names_via(&item.fields) {
            return Err(Error::NestedVia);
        }
        generic_ident
    } else {
        match error_on_generic_ident(generic_ident) {
            Ok(()) => None,
            Err(e) => {
                return Err(e);
            },
        }
    };
    Ok(
        StructPlan {
            state,
            generic_ident,
            all_at_once,
            fields: extract_fields(&item.fields),
            custom_rejection: item.attrs.rejection.is_some(),
            infallible: has_no_fields(&item.fields),
        },
    )
}

/// A copy of the generic parameters `params`.
fn clone_params(params: &Vec<GenericParam>) -> (r: Vec<GenericParam>)
    ensures
        r@ == params@,
{
    let mut copy: Vec<GenericParam> = Vec::new();
    let mut i: usize = 0;
    while i < params.len()
        invariant
            i <= params.len(),
            copy@ == params@.take(i as int),
        decreases params.len() - i,
    {
        let param = match &params[i] {
            GenericParam::Type(name) => GenericParam::Type(name.clone()),
            GenericParam::Lifetime(name) => GenericParam::Lifetime(name.clone()),
            GenericParam::Const(name) => GenericParam::Const(name.clone()),
        };
        copy.push(param);
        assert(copy@ =~= params@.take(i + 1));
        i = i + 1;
    }
    assert(params@.take(i as int) =~= params@);
    copy
}

/// Whether a variant, or one of its fields, names a `via`.
pub open spec fn variant_names_via(variant: Variant) -> bool {
    variant.via is Some || some_field_names_via(fields_of(variant.fields))
}

/// Whether one of `variants` names a `via`, itself or in a field.
pub open spec fn some_variant_names_via(variants: Seq<Variant>) -> bool {
    exists|i: int| 0 <= i < variants.len() && variant_names_via(#[trigger] variants[i])
}

/// What is wrong with an extractor enum, if anything is: it has generics;
/// it names no `via`, with or without a rejection; or a variant names a
/// `via`.
pub open spec fn enum_fault(item: ItemEnum) -> Option<Error> {
    if item.generics.params@.len() > 0 || item.generics.has_where_clause {
        Some(Error::EnumGenericsUnsupported)
    } else if item.attrs.via is None {
        if item.attrs.rejection is Some {
            Some(Error::RejectionWithoutVia)
        } else {
            Some(Error::MissingVia)
        }
    } else if some_variant_names_via(item.variants@) {
        Some(Error::NestedVia)
    } else {
        None
    }
}

/// The state that an extractor enum needs: the state that it names; else
/// the enum itself, where it is extracted through `State`; else any state.
pub open spec fn enum_state(item: ItemEnum) -> StateView {
    match item.attrs.state {
        Some(ty) => StateView::Custom(ty.source@),
        None => if item.attrs.via is Some && names_state(item.attrs.via->Some_0) {
            StateView::Custom(item.ident@)
        } else {
            StateView::Default("S"@)
        },
    }
}

/// Decides how an extractor enum is implemented: the state that it needs.
/// An enum is always extracted at once, through its `via`.
#[verifier::loop_isolation(false)]
pub fn expand_enum(item: &ItemEnum) -> (r: Result<State, Error>)
    ensures
        match r {
            Ok(state) => enum_fault(*item) is None && state@ == enum_state(*item),
            Err(e) => enum_fault(*item) == Some(e),
        },
{
    if item.generics.params.len() > 0 || item.generics.has_where_clause {
        return Err(Error::EnumGenericsUnsupported);
    }
    let state: State = match &item.attrs.state {
        Some(ty) => State::Custom(ty.source.clone()),
        None => {
            let by_state: bool = match &item.attrs.via {
                Some(via) => path_ident_is_state(via),
                None => false,
            };
            if by_state {
                State::Custom(item.ident.clone())
            } else {
                State::Default(String::from_str("S"))
            }
        },
    };
    if item.attrs.via.is_none() {
        if item.attrs.rejection.is_some() {
            return Err(Error::RejectionWithoutVia);
        }
        return Err(Error::MissingVia);
    }
    let mut i: usize = 0;
    while i < item.variants.len()
        invariant
            i <= item.variants.len(),
            forall|j: int| 0 <= j < i ==> !variant_names_via(#[trigger] item.variants@[j]),
        decreases item.variants.len() - i,
    {
        if item.variants[i].via.is_some() || any_field_names_via(&item.variants[i].fields) {
            assert(variant_names_via(item.variants@[i as int]));
            return Err(Error::NestedVia);
        }
        i = i + 1;
    }
    Ok(state)
}

/// The way in which an extractor is implemented.
#[derive(Debug, PartialEq, Eq)]
pub enum Plan {
    Struct(StructPlan),
    Enum(State),
}

/// Decides how an extractor is implemented. Only structs and enums are
/// extractors.
pub fn expand(item: &Item, config: &Config) -> (r: Result<Plan, Error>)
    ensures
        match *item {
            Item::Struct(declared) => match r {
                Ok(plan) => plan matches Plan::Struct(way) && struct_fault(declared, *config)
                    is None && way.implements(declared, *config),
                Err(e) => struct_fault(declared, *config) == Some(e),
            },
            Item::Enum(declared) => match r {
                Ok(plan) => plan matches Plan::Enum(state) && enum_fault(declared) is None
                    && state@ == enum_state(declared),
                Err(e) => enum_fault(declared) == Some(e),
            },
            Item::Other => r == Err::<Plan, Error>(Error::ExpectedStructOrEnum),
        },
{
    match item {
        Item::Struct(declared) => match expand_struct(declared, config) {
            Ok(plan) => Ok(Plan::Struct(plan)),
            Err(e) => Err(e),
        },
        Item::Enum(declared) => match expand_enum(declared) {
            Ok(state) => Ok(Plan::Enum(state)),
            Err(e) => Err(e),
        },
        Item::Other => Err(Error::ExpectedStructOrEnum),
    }
}

} // verus!
