//! From the functions of a controller block to its routes: which functions
//! are handlers, for which method and sub-path, inside which middleware.

use vstd::prelude::*;
use vstd::string::*;
use crate::components::Components;
use crate::error::Error;
use crate::method::MethodType;
use crate::models::Operation;
use crate::syntax::{Attribute, Expr, ImplItem, ImplItemFn, ListItem, Meta, MetaNameValue, Signature};
use crate::text::same_text;

verus! {

/// The arguments of a method attribute: the sub-path, if one is given, and
/// the options behind it.
#[derive(Debug, PartialEq, Eq)]
pub struct Args {
    pub path: Option<String>,
    pub options: Vec<MetaNameValue>,
}

/// The path that the arguments `input` start with, if they start with one.
pub open spec fn leading_path(input: Seq<ListItem>) -> Option<String> {
    if input.len() > 0 && input[0] is Literal {
        Some(input[0]->Literal_0)
    } else {
        None
    }
}

/// The arguments of `input` behind the path.
pub open spec fn behind_path(input: Seq<ListItem>) -> Seq<ListItem> {
    if leading_path(input) is Some {
        input.drop_first()
    } else {
        input
    }
}

/// What is wrong with an argument that stands where an option is expected.
pub open spec fn item_fault(item: ListItem) -> Option<Error> {
    match item {
        ListItem::Literal(_) => Some(Error::MultiplePathsSpecified),
        ListItem::NameValue(_) => None,
        ListItem::List(_) => Some(Error::MalformedOption),
        ListItem::Word(_) => Some(Error::MalformedOption),
    }
}

/// The fault of the first of `items` that has one.
pub open spec fn first_item_fault(items: Seq<ListItem>) -> Option<Error>
    decreases items.len(),
{
    if items.len() == 0 {
        None
    } else {
        match first_item_fault(items.drop_last()) {
            Some(e) => Some(e),
            None => item_fault(items.last()),
        }
    }
}

/// The options that `items` hold, in order.
pub open spec fn options_in(items: Seq<ListItem>) -> Seq<MetaNameValue>
    decreases items.len(),
{
    if items.len() == 0 {
        Seq::empty()
    } else {
        match items.last() {
            ListItem::NameValue(option) => options_in(items.drop_last()).push(option),
            _ => options_in(items.drop_last()),
        }
    }
}

/// A fault among the first items is the fault of all.
proof fn lemma_item_fault_stays(items: Seq<ListItem>, n: int)
    requires
        0 <= n <= items.len(),
        first_item_fault(items.take(n)) is Some,
    ensures
        first_item_fault(items) == first_item_fault(items.take(n)),
    decreases items.len() - n,
{
    if n < items.len() {
        assert(items.take(n + 1).drop_last() =~= items.take(n));
        lemma_item_fault_stays(items, n + 1);
    } else {
        assert(items.take(n) =~= items);
    }
}

impl Args {
    /// Reads the arguments of a method attribute. A string literal at the
    /// front is the path; every argument behind it has to be an option
    /// `name = value`. A second literal is reported as a second path.
    #[verifier::loop_isolation(false)]
    pub fn parse(input: &Vec<ListItem>) -> (r: Result<Args, Error>)
        ensures
            match r {
                Ok(args) => {
                    &&& first_item_fault(behind_path(input@)) is None
                    &&& args.path == leading_path(input@)
                    &&& args.options@ == options_in(behind_path(input@))
                },
                Err(e) => first_item_fault(behind_path(input@)) == Some(e),
            },
    {
        let mut path: Option<String> = None;
        let mut start: usize = 0;
        if input.len() > 0 {
            match &input[0] {
                ListItem::Literal(text) => {
                    path = Some(text.clone());
                    start = 1;
                },
                _ => {},
            }
        }
        let ghost rest = behind_path(input@);
        assert(rest =~= input@.skip(start as int));
        let mut options: Vec<MetaNameValue> = Vec::new();
        let mut i: usize = start;
        assert(rest.take(0) =~= Seq::<ListItem>::empty());
        while i < input.len()
            invariant
                start <= i <= input.len(),
                rest == input@.skip(start as int),
                first_item_fault(rest.take(i - start)) is None,
                options@ == options_in(rest.take(i - start)),
            decreases input.len() - i,
        {
            assert(rest.take(i - start + 1).drop_last() =~= rest.take(i - start));
            assert(rest.take(i - start + 1).last() == input@[i as int]);
            match &input[i] {
                ListItem::NameValue(option) => {
                    options.push(
                        MetaNameValue { name: option.name.clone(), value: option.value.clone() },
                    );
                },
                ListItem::Literal(_) => {
                    proof {
                        lemma_item_fault_stays(rest, i - start + 1);
                    }
                    return Err(Error::MultiplePathsSpecified);
                },
                _ => {
                    proof {
                        lemma_item_fault_stays(rest, i - start + 1);
                    }
                    return Err(Error::MalformedOption);
                },
            }
            i = i + 1;
        }
        assert(rest.take(i - start) =~= rest);
        Ok(Args { path, options })
    }
}

/// What a method attribute says: the sub-path of the route, and what its
/// options add.
#[derive(Debug, PartialEq, Eq)]
pub struct MethodArgs {
    pub path: String,
    pub resource_name: Option<String>,
    pub guards: Vec<String>,
    /// The middleware around the handler; the first is the innermost.
    pub wrappers: Vec<Expr>,
    pub method: MethodType,
}

/// What is wrong with an option of a method attribute.
pub open spec fn option_fault(option: MetaNameValue) -> Option<Error> {
    if option.name@ == "name"@ {
        if option.value is Lit {
            None
        } else {
            Some(Error::NameExpectsLiteral)
        }
    } else if option.name@ == "guard"@ {
        if option.value is Path {
            None
        } else {
            Some(Error::GuardExpectsPath)
        }
    } else if option.name@ == "wrap"@ {
        None
    } else {
        Some(Error::UnknownAttributeKey)
    }
}

/// The fault of the first of `options` that has one.
pub open spec fn first_option_fault(options: Seq<MetaNameValue>) -> Option<Error>
    decreases options.len(),
{
    if options.len() == 0 {
        None
    } else {
        match first_option_fault(options.drop_last()) {
            Some(e) => Some(e),
            None => option_fault(options.last()),
        }
    }
}

/// The name that `options` give the resource: that of the last option `name`.
pub open spec fn resource_name_in(options: Seq<MetaNameValue>) -> Option<String>
    decreases options.len(),
{
    if options.len() == 0 {
        None
    } else if options.last().name@ == "name"@ && options.last().value is Lit {
        Some(options.last().value->Lit_0)
    } else {
        resource_name_in(options.drop_last())
    }
}

/// The guards that `options` name, in order.
pub open spec fn guards_in(options: Seq<MetaNameValue>) -> Seq<String>
    decreases options.len(),
{
    if options.len() == 0 {
        Seq::empty()
    } else if options.last().name@ == "guard"@ && options.last().value is Path {
        guards_in(options.drop_last()).push(options.last().value->Path_0)
    } else {
        guards_in(options.drop_last())
    }
}

/// The middleware that `options` name, in order.
pub open spec fn wrappers_in(options: Seq<MetaNameValue>) -> Seq<Expr>
    decreases options.len(),
{
    if options.len() == 0 {
        Seq::empty()
    } else if options.last().name@ == "wrap"@ {
        wrappers_in(options.drop_last()).push(options.last().value)
    } else {
        wrappers_in(options.drop_last())
    }
}

/// A fault among the first options is the fault of all.
proof fn lemma_option_fault_stays(options: Seq<MetaNameValue>, n: int)
    requires
        0 <= n <= options.len(),
        first_option_fault(options.take(n)) is Some,
    ensures
        first_option_fault(options) == first_option_fault(options.take(n)),
    decreases options.len() - n,
{
    if n < options.len() {
        assert(options.take(n + 1).drop_last() =~= options.take(n));
        lemma_option_fault_stays(options, n + 1);
    } else {
        assert(options.take(n) =~= options);
    }
}

/// What is wrong with a method attribute, if anything is.
pub open spec fn meta_fault(meta: Meta) -> Option<Error> {
    match meta {
        Meta::Path => None,
        Meta::NameValue(_) => Some(Error::UnsupportedMeta),
        Meta::List(items) => match first_item_fault(behind_path(items@)) {
            Some(e) => Some(e),
            None => first_option_fault(options_in(behind_path(items@))),
        },
    }
}

/// The path and the options that a method attribute gives.
pub open spec fn meta_path(meta: Meta) -> Option<String> {
    match meta {
        Meta::List(items) => leading_path(items@),
        _ => None,
    }
}

/// The options that a method attribute gives.
pub open spec fn meta_options(meta: Meta) -> Seq<MetaNameValue> {
    match meta {
        Meta::List(items) => options_in(behind_path(items@)),
        _ => Seq::empty(),
    }
}

impl MethodArgs {
    /// Whether `self` is what the attribute `meta` says for `method`: the
    /// path that the attribute gives or, where it gives none, the root; the
    /// last resource name; the guards and the middleware in the order of the
    /// options.
    pub open spec fn reads(self, meta: Meta, method: MethodType) -> bool {
        &&& self.path@ == match meta_path(meta) {
            Some(path) => path@,
            None => "/"@,
        }
        &&& self.resource_name == resource_name_in(meta_options(meta))
        &&& self.guards@ == guards_in(meta_options(meta))
        &&& self.wrappers@ == wrappers_in(meta_options(meta))
        &&& self.method == method
    }

    /// Reads a method attribute. An attribute without arguments gives the
    /// root path and nothing else. Fails on the first argument or option that
    /// is at fault.
    #[verifier::loop_isolation(false)]
    pub fn read(meta: &Meta, method: MethodType) -> (r: Result<MethodArgs, Error>)
        ensures
            match r {
                Ok(args) => meta_fault(*meta) is None && args.reads(*meta, method),
                Err(e) => meta_fault(*meta) == Some(e),
            },
    {
        let mut path: Option<String> = None;
        let mut resource_name: Option<String> = None;
        let mut guards: Vec<String> = Vec::new();
        let mut wrappers: Vec<Expr> = Vec::new();
        match meta {
            Meta::Path => {},
            Meta::NameValue(_) => {
                return Err(Error::UnsupportedMeta);
            },
            Meta::List(items) => {
                let args = match Args::parse(items) {
                    Ok(args) => args,
                    Err(e) => {
                        return Err(e);
                    },
                };
                path = args.path;
                let ghost all = args.options@;
                let mut i: usize = 0;
                assert(all.take(0) =~= Seq::<MetaNameValue>::empty());
                while i < args.options.len()
                    invariant
                        i <= args.options.len(),
                        all == args.options@,
                        first_option_fault(all.take(i as int)) is None,
                        resource_name == resource_name_in(all.take(i as int)),
                        guards@ == guards_in(all.take(i as int)),
                        wrappers@ == wrappers_in(all.take(i as int)),
                    decreases args.options.len() - i,
                {
                    assert(all.take(i + 1).drop_last() =~= all.take(i as int));
                    assert(all.take(i + 1).last() == all[i as int]);
                    let option = &args.options[i];
                    proof {
                        reveal_strlit("name");
                        reveal_strlit("guard");
                        reveal_strlit("wrap");
                        assert("name"@[0] != "wrap"@[0]);
                        assert("name"@.len() != "guard"@.len());
                        assert("wrap"@.len() != "guard"@.len());
                    }
                    if same_text(option.name.as_str(), "name") {
                        match &option.value {
                            Expr::Lit(text) => {
                                resource_name = Some(text.clone());
                            },
                            _ => {
                                proof {
                                    lemma_option_fault_stays(all, i + 1);
                                }
                                return Err(Error::NameExpectsLiteral);
                            },
                        }
                    } else if same_text(option.name.as_str(), "guard") {
                        match &option.value {
                            Expr::Path(text) => {
                                guards.push(text.clone());
                            },
                            _ => {
                                proof {
                                    lemma_option_fault_stays(all, i + 1);
                                }
                                return Err(Error::GuardExpectsPath);
                            },
                        }
                    } else if same_text(option.name.as_str(), "wrap") {
                        wrappers.push(option.value.clone());
                    } else {
                        proof {
                            lemma_option_fault_stays(all, i + 1);
                        }
                        return Err(Error::UnknownAttributeKey);
                    }
                    i = i + 1;
                }
                assert(all.take(i as int) =~= all);
            },
        }
        let path: String = match path {
            Some(path) => path,
            None => String::from_str("/"),
        };
        Ok(MethodArgs { path, resource_name, guards, wrappers, method })
    }

    /// Reads a method attribute; see [`MethodArgs::read`].
    pub fn new(meta: Meta, method: MethodType) -> (r: Result<MethodArgs, Error>)
        ensures
            match r {
                Ok(args) => meta_fault(meta) is None && args.reads(meta, method),
                Err(e) => meta_fault(meta) == Some(e),
            },
    {
        MethodArgs::read(&meta, method)
    }
}

/// Whether an attribute declares an HTTP method.
pub open spec fn declares_method(attribute: Attribute) -> bool {
    MethodType::named(attribute.name@) is Some
}

/// Which of `attrs` declare a method.
pub open spec fn method_marks(attrs: Seq<Attribute>) -> Seq<bool> {
    attrs.map_values(|a: Attribute| declares_method(a))
}

/// What stops a function with a method attribute at `at` from being a
/// handler, if anything does: the first of these that applies. It takes
/// `self`; its method attribute is at fault; it declares a second method; it
/// names no return type; it is not `async`.
pub open spec fn handler_fault(function: ImplItemFn, at: int) -> Option<Error> {
    if function.sig.has_receiver {
        Some(Error::UnsupportedSelfMethod)
    } else if meta_fault(function.attrs[at].meta) is Some {
        meta_fault(function.attrs[at].meta)
    } else if exists|j: int| at < j < function.attrs.len() && declares_method(function.attrs[j]) {
        Some(Error::MultipleMethodsOnHandler)
    } else if !function.sig.has_output {
        Some(Error::MissingReturnType)
    } else if !function.sig.is_async {
        Some(Error::HandlerNotAsync)
    } else {
        None
    }
}

/// A route of a controller: a handler, its method and sub-path, the
/// middleware around it, and what it contributes to the API description.
#[derive(Debug, PartialEq, Eq)]
pub struct Route {
    /// The name of the handler.
    pub name: String,
    pub sig: Signature,
    pub method_args: MethodArgs,
    /// The place that the method attribute had among the attributes of the
    /// function, before it was taken off.
    pub attribute: usize,
    pub operation: Operation,
    pub components: Vec<Components>,
}

impl Route {
    /// Whether `self` is the route that `function` declares with the method
    /// attribute at `at`.
    pub open spec fn declared_by(self, function: ImplItemFn, at: int) -> bool {
        &&& self.name == function.sig.ident
        &&& self.sig == function.sig
        &&& self.method_args.reads(
            function.attrs[at].meta,
            MethodType::named(function.attrs[at].name@)->Some_0,
        )
        &&& self.attribute == at
        &&& self.operation.deep_view() == function.operation.deep_view()
        &&& self.components.deep_view() == function.components.deep_view()
    }

    /// Reads one function of a controller block.
    ///
    /// A function without a method attribute is no handler: the result is
    /// `Ok(None)`. A function with exactly one is a route, unless something
    /// stops it from being a handler. On success the method attribute is
    /// taken off the function; in every other case the function stays as it
    /// was.
    pub fn from_fn(function: &mut ImplItemFn) -> (r: Result<Option<Route>, Error>)
        ensures
            match method_marks(old(function).attrs@).index_of_first(true) {
                None => r == Ok::<Option<Route>, Error>(None) && *final(function) == *old(function),
                Some(at) => match r {
                    Ok(Some(route)) => {
                        &&& handler_fault(*old(function), at) is None
                        &&& route.declared_by(*old(function), at)
                        &&& final(function).attrs@ == old(function).attrs@.remove(at)
                        &&& final(function).sig == old(function).sig
                        &&& final(function).operation == old(function).operation
                        &&& final(function).components == old(function).components
                    },
                    Ok(None) => false,
                    Err(e) => handler_fault(*old(function), at) == Some(e) && *final(function)
                        == *old(function),
                },
            },
    {
        let ghost marks = method_marks(function.attrs@);
        proof {
            marks.index_of_first_ensures(true);
        }
        let n = function.attrs.len();
        let mut first: Option<(usize, MethodType)> = None;
        let mut second: bool = false;
        let mut i: usize = 0;
        while i < n
            invariant
                i <= n,
                n == function.attrs.len(),
                *function == *old(function),
                marks == method_marks(function.attrs@),
                match first {
                    None => !second && forall|j: int| 0 <= j < i ==> !marks[j],
                    Some((at, method)) => {
                        &&& at < i
                        &&& marks[at as int]
                        &&& forall|j: int| 0 <= j < at ==> !marks[j]
                        &&& MethodType::named(function.attrs[at as int].name@) == Some(method)
                        &&& second == exists|j: int|
                            at < j < i && declares_method(function.attrs[j])
                    },
                },
            decreases n - i,
        {
            match MethodType::from_path(function.attrs[i].name.as_str()) {
                Ok(method) => {
                    assert(marks[i as int]);
                    match first {
                        None => {
                            first = Some((i, method));
                        },
                        Some(_) => {
                            assert(declares_method(function.attrs[i as int]));
                            second = true;
                        },
                    }
                },
                Err(_) => {
                    assert(!marks[i as int]);
                    assert(!declares_method(function.attrs[i as int]));
                },
            }
            i = i + 1;
        }
        let (at, method) = match first {
            None => {
                return Ok(None);
            },
            Some(found) => found,
        };
        assert(marks.index_of_first(true) == Some(at as int));
        if function.sig.has_receiver {
            return Err(Error::UnsupportedSelfMethod);
        }
        let method_args = match MethodArgs::read(&function.attrs[at].meta, method) {
            Ok(args) => args,
            Err(e) => {
                return Err(e);
            },
        };
        if second {
            return Err(Error::MultipleMethodsOnHandler);
        }
        if !function.sig.has_output {
            return Err(Error::MissingReturnType);
        }
        if !function.sig.is_async {
            return Err(Error::HandlerNotAsync);
        }
        let components = function.components.clone();
        assert(components.deep_view() =~= function.components.deep_view());
        let route = Route {
            name: function.sig.ident.clone(),
            sig: function.sig.clone(),
            method_args,
            attribute: at,
            operation: function.operation.clone(),
            components,
        };
        let _ = function.attrs.remove(at);
        Ok(Some(route))
    }

    /// Reads one item of a controller block: an item that is no function is
    /// no handler, and a function is read as [`Route::from_fn`] says.
    pub fn new(item: &mut ImplItem) -> (r: Result<Option<Route>, Error>)
        ensures
            match *old(item) {
                ImplItem::Other => r == Ok::<Option<Route>, Error>(None) && *final(item) == *old(
                    item,
                ),
                ImplItem::Fn(function) => match method_marks(function.attrs@).index_of_first(true) {
                    None => r == Ok::<Option<Route>, Error>(None) && *final(item) == *old(item),
                    Some(at) => match r {
                        Ok(Some(route)) => {
                            &&& handler_fault(function, at) is None
                            &&& route.declared_by(function, at)
                            &&& *final(item) matches ImplItem::Fn(left)
                            &&& left.attrs@ == function.attrs@.remove(at)
                            &&& left.sig == function.sig
                            &&& left.operation == function.operation
                            &&& left.components == function.components
                        },
                        Ok(None) => false,
                        Err(e) => handler_fault(function, at) == Some(e) && *final(item) == *old(
                            item,
                        ),
                    },
                },
            },
    {
        match item {
            ImplItem::Other => Ok(None),
            ImplItem::Fn(function) => Route::from_fn(function),
        }
    }
}

} // verus!
