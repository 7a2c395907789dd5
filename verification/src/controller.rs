//! Controllers: a mount path, routes and the middleware around them.

use vstd::prelude::*;
use vstd::string::*;
use crate::config::Config;
use crate::error::Error;
use crate::method_routing::{LayerView, MethodRouter, MethodRouterView};
use crate::route::{handler_fault, method_marks, Route};
use crate::routing::{aggregated, contributions, DocumentView, RouteWrapperView, Router, wrapped_all};
use crate::syntax::{Attribute, Expr, ImplItem, ItemImpl, ListItem};
use crate::text::same_text;
use crate::type_syntax::{is_type, parses_as_type};

verus! {

/// What a configured controller hands to the module that owns it: where it
/// is mounted, and what is mounted there.
pub struct ControllerDetails<Ret> {
    pub path: String,
    pub return_: Ret,
}

/// A controller that configures itself.
pub trait Controller {
    type Context;

    type Return;

    fn configure(ctx: &mut Self::Context) -> ControllerDetails<Self::Return>;
}

/// The arguments of a controller attribute: the mount path and the options
/// behind it.
#[derive(Debug, PartialEq, Eq)]
pub struct ControllerArgs {
    pub path: String,
    pub options: Vec<ListItem>,
}

/// Whether one of `items` is a string literal.
pub open spec fn holds_literal(items: Seq<ListItem>) -> bool {
    exists|i: int| 0 <= i < items.len() && (#[trigger] items[i]) is Literal
}

impl ControllerArgs {
    /// Reads the arguments of a controller attribute. They start with the
    /// mount path, a string literal, and hold no other literal.
    #[verifier::loop_isolation(false)]
    pub fn parse(input: Vec<ListItem>) -> (r: Result<ControllerArgs, Error>)
        ensures
            match r {
                Ok(args) => {
                    &&& input@.len() > 0
                    &&& input@[0] matches ListItem::Literal(path)
                    &&& args.path == path
                    &&& args.options@ == input@.drop_first()
                    &&& !holds_literal(input@.drop_first())
                },
                Err(e) => if input@.len() > 0 && input@[0] is Literal {
                    e == Error::MultiplePathsSpecified && holds_literal(input@.drop_first())
                } else {
                    e == Error::MissingPath
                },
            },
    {
        let mut options = input;
        if options.len() == 0 {
            return Err(Error::MissingPath);
        }
        let path: String = match options.remove(0) {
            ListItem::Literal(path) => path,
            _ => {
                return Err(Error::MissingPath);
            },
        };
        assert(options@ =~= input@.drop_first());
        let mut i: usize = 0;
        while i < options.len()
            invariant
                i <= options.len(),
                forall|j: int| 0 <= j < i ==> !((#[trigger] options@[j]) is Literal),
            decreases options.len() - i,
        {
            match &options[i] {
                ListItem::Literal(_) => {
                    assert(input@.drop_first()[i as int] is Literal);
                    return Err(Error::MultiplePathsSpecified);
                },
                _ => {},
            }
            i = i + 1;
        }
        Ok(ControllerArgs { path, options })
    }
}

/// What reading an item of a controller block gives: nothing for an item
/// that is no handler, the place of the method attribute for a handler, and
/// the fault for a function that has a method attribute and cannot be one.
pub open spec fn item_reading(item: ImplItem) -> Result<Option<int>, Error> {
    match item {
        ImplItem::Other => Ok(None),
        ImplItem::Fn(function) => match method_marks(function.attrs@).index_of_first(true) {
            None => Ok(None),
            Some(at) => match handler_fault(function, at) {
                Some(e) => Err(e),
                None => Ok(Some(at)),
            },
        },
    }
}

/// The fault of the first of `items` that has one.
pub open spec fn first_reading_fault(items: Seq<ImplItem>) -> Option<Error>
    decreases items.len(),
{
    if items.len() == 0 {
        None
    } else {
        match first_reading_fault(items.drop_last()) {
            Some(e) => Some(e),
            None => match item_reading(items.last()) {
                Err(e) => Some(e),
                Ok(_) => None,
            },
        }
    }
}

/// The places of the handlers among `items`, in order.
pub open spec fn handler_positions(items: Seq<ImplItem>) -> Seq<int>
    decreases items.len(),
{
    if items.len() == 0 {
        Seq::empty()
    } else if item_reading(items.last()) matches Ok(Some(_)) {
        handler_positions(items.drop_last()).push(items.len() - 1)
    } else {
        handler_positions(items.drop_last())
    }
}

/// Whether `after` is `item` once it has been read: a handler without its
/// method attribute, and any other item as it was.
pub open spec fn is_read(item: ImplItem, after: ImplItem) -> bool {
    match item_reading(item) {
        Ok(Some(at)) => {
            &&& after matches ImplItem::Fn(left)
            &&& left.attrs@ == item->Fn_0.attrs@.remove(at)
            &&& left.sig == item->Fn_0.sig
            &&& left.operation == item->Fn_0.operation
            &&& left.components == item->Fn_0.components
        },
        _ => after == item,
    }
}

/// Whether `routes` are the routes that the handlers among `items` declare,
/// in the order of the items.
pub open spec fn are_routes_of(routes: Seq<Route>, items: Seq<ImplItem>) -> bool {
    &&& routes.len() == handler_positions(items).len()
    &&& forall|k: int|
        0 <= k < routes.len() ==> {
            let at = #[trigger] handler_positions(items)[k];
            &&& 0 <= at < items.len()
            &&& item_reading(items[at]) matches Ok(Some(mark))
            &&& routes[k].declared_by(items[at]->Fn_0, mark)
        }
}

/// A fault among the first items is the fault of all.
proof fn lemma_reading_fault_stays(items: Seq<ImplItem>, n: int)
    requires
        0 <= n <= items.len(),
        first_reading_fault(items.take(n)) is Some,
    ensures
        first_reading_fault(items) == first_reading_fault(items.take(n)),
    decreases items.len() - n,
{
    if n < items.len() {
        assert(items.take(n + 1).drop_last() =~= items.take(n));
        lemma_reading_fault_stays(items, n + 1);
    } else {
        assert(items.take(n) =~= items);
    }
}

/// The places `places` as places in a sequence.
pub open spec fn as_places(places: Seq<usize>) -> Seq<int> {
    places.map_values(|place: usize| place as int)
}

/// Reads every item of a controller block, in order, and collects the routes
/// of the handlers, the items as they are once they are read, and the place
/// of each handler among the items. Fails with the fault of the first item
/// that has one.
#[verifier::loop_isolation(false)]
pub fn collect_routes(items: Vec<ImplItem>) -> (r: Result<
    (Vec<Route>, Vec<ImplItem>, Vec<usize>),
    Error,
>)
    ensures
        match r {
            Ok((routes, left, places)) => {
                &&& first_reading_fault(items@) is None
                &&& are_routes_of(routes@, items@)
                &&& as_places(places@) == handler_positions(items@)
                &&& left@.len() == items@.len()
                &&& forall|i: int| 0 <= i < items@.len() ==> is_read(items@[i], #[trigger] left@[i])
            },
            Err(e) => first_reading_fault(items@) == Some(e),
        },
{
    let mut left = items;
    let mut routes: Vec<Route> = Vec::new();
    let mut places: Vec<usize> = Vec::new();
    assert(as_places(places@) =~= Seq::<int>::empty());
    let n = left.len();
    let mut i: usize = 0;
    assert(items@.take(0) =~= Seq::<ImplItem>::empty());
    while i < n
        invariant
            i <= n,
            n == items@.len(),
            left@.len() == n,
            first_reading_fault(items@.take(i as int)) is None,
            are_routes_of(routes@, items@.take(i as int)),
            as_places(places@) == handler_positions(items@.take(i as int)),
            forall|j: int| 0 <= j < i ==> is_read(items@[j], #[trigger] left@[j]),
            forall|j: int| i <= j < n ==> left@[j] == items@[j],
        decreases n - i,
    {
        let ghost done = items@.take(i as int);
        let ghost next = items@.take(i + 1);
        assert(next.drop_last() =~= done);
        assert(next.last() == items@[i as int]);
        let ghost before = left@;
        let ghost found = routes@;
        let mut item = ImplItem::Other;
        core::mem::swap(&mut item, &mut left[i]);
        let outcome = Route::new(&mut item);
        left.set(i, item);
        match outcome {
            Ok(Some(route)) => {
                routes.push(route);
                let ghost known = as_places(places@);
                places.push(i);
                assert(as_places(places@) =~= known.push(i as int));
                proof {
                    let positions = handler_positions(next);
                    assert(positions == handler_positions(done).push(i as int));
                    assert forall|k: int| 0 <= k < routes@.len() implies ({
                        let at = #[trigger] positions[k];
                        &&& 0 <= at < next.len()
                        &&& item_reading(next[at]) matches Ok(Some(mark))
                        &&& routes@[k].declared_by(next[at]->Fn_0, mark)
                    }) by {
                        if k < found.len() {
                            let at = handler_positions(done)[k];
                            assert(positions[k] == at);
                            assert(next[at] == done[at]);
                            assert(routes@[k] == found[k]);
                        }
                    }
                }
            },
            Ok(None) => {
                proof {
                    assert(handler_positions(next) == handler_positions(done));
                    assert forall|k: int| 0 <= k < routes@.len() implies ({
                        let at = #[trigger] handler_positions(next)[k];
                        &&& 0 <= at < next.len()
                        &&& item_reading(next[at]) matches Ok(Some(mark))
                        &&& routes@[k].declared_by(next[at]->Fn_0, mark)
                    }) by {
                        let at = handler_positions(done)[k];
                        assert(next[at] == done[at]);
                    }
                }
            },
            Err(e) => {
                proof {
                    lemma_reading_fault_stays(items@, i + 1);
                }
                return Err(e);
            },
        }
        i = i + 1;
    }
    assert(items@.take(n as int) =~= items@);
    Ok((routes, left, places))
}

/// What is wrong with an option of a controller attribute: `wrap` takes a
/// value, `state` takes one type in parentheses, and there is no other key.
pub open spec fn controller_option_fault(option: ListItem) -> Option<Error> {
    match option {
        ListItem::Literal(_) => Some(Error::MultiplePathsSpecified),
        ListItem::NameValue(pair) => if pair.name@ == "wrap"@ {
            None
        } else if pair.name@ == "state"@ {
            Some(Error::MalformedOption)
        } else {
            Some(Error::UnknownAttributeKey)
        },
        ListItem::List(list) => if list.name@ == "wrap"@ {
            Some(Error::MalformedOption)
        } else if list.name@ == "state"@ {
            if list.items@.len() == 1 && parses_as_type(list.items@[0]@) {
                None
            } else {
                Some(Error::InvalidType)
            }
        } else {
            Some(Error::UnknownAttributeKey)
        },
        ListItem::Word(name) => if name@ == "wrap"@ || name@ == "state"@ {
            Some(Error::MalformedOption)
        } else {
            Some(Error::UnknownAttributeKey)
        },
    }
}

/// The fault of the first of `options` that has one.
pub open spec fn first_controller_fault(options: Seq<ListItem>) -> Option<Error>
    decreases options.len(),
{
    if options.len() == 0 {
        None
    } else {
        match first_controller_fault(options.drop_last()) {
            Some(e) => Some(e),
            None => controller_option_fault(options.last()),
        }
    }
}

/// The middleware that the options `wrap` name, in order.
pub open spec fn controller_wrappers(options: Seq<ListItem>) -> Seq<Expr>
    decreases options.len(),
{
    if options.len() == 0 {
        Seq::empty()
    } else {
        match options.last() {
            ListItem::NameValue(pair) => if pair.name@ == "wrap"@ {
                controller_wrappers(options.drop_last()).push(pair.value)
            } else {
                controller_wrappers(options.drop_last())
            },
            _ => controller_wrappers(options.drop_last()),
        }
    }
}

/// The state type that the options name: that of the last option `state`.
pub open spec fn controller_state(options: Seq<ListItem>) -> Option<String>
    decreases options.len(),
{
    if options.len() == 0 {
        None
    } else {
        match options.last() {
            ListItem::List(list) => if list.name@ == "state"@ && list.items@.len() == 1 {
                Some(list.items@[0])
            } else {
                controller_state(options.drop_last())
            },
            _ => controller_state(options.drop_last()),
        }
    }
}

/// A fault among the first options is the fault of all.
proof fn lemma_controller_fault_stays(options: Seq<ListItem>, n: int)
    requires
        0 <= n <= options.len(),
        first_controller_fault(options.take(n)) is Some,
    ensures
        first_controller_fault(options) == first_controller_fault(options.take(n)),
    decreases options.len() - n,
{
    if n < options.len() {
        assert(options.take(n + 1).drop_last() =~= options.take(n));
        lemma_controller_fault_stays(options, n + 1);
    } else {
        assert(options.take(n) =~= options);
    }
}

/// Reads the options of a controller attribute: the middleware of the
/// options `wrap`, in order, and the type of the last option `state`.
#[verifier::loop_isolation(false)]
pub fn read_controller_options(options: &Vec<ListItem>) -> (r: Result<
    (Vec<Expr>, Option<String>),
    Error,
>)
    ensures
        match r {
            Ok((wrappers, state)) => {
                &&& first_controller_fault(options@) is None
                &&& wrappers@ == controller_wrappers(options@)
                &&& state == controller_state(options@)
            },
            Err(e) => first_controller_fault(options@) == Some(e),
        },
{
    let mut wrappers: Vec<Expr> = Vec::new();
    let mut state: Option<String> = None;
    let mut i: usize = 0;
    assert(options@.take(0) =~= Seq::<ListItem>::empty());
    while i < options.len()
        invariant
            i <= options.len(),
            first_controller_fault(options@.take(i as int)) is None,
            wrappers@ == controller_wrappers(options@.take(i as int)),
            state == controller_state(options@.take(i as int)),
        decreases options.len() - i,
    {
        assert(options@.take(i + 1).drop_last() =~= options@.take(i as int));
        assert(options@.take(i + 1).last() == options@[i as int]);
        proof {
            reveal_strlit("wrap");
            reveal_strlit("state");
            assert("wrap"@.len() != "state"@.len());
        }
        let fault: Option<Error> = match &options[i] {
            ListItem::Literal(_) => Some(Error::MultiplePathsSpecified),
            ListItem::NameValue(pair) => {
                if same_text(pair.name.as_str(), "wrap") {
                    wrappers.push(pair.value.clone());
                    None
                } else if same_text(pair.name.as_str(), "state") {
                    Some(Error::MalformedOption)
                } else {
                    Some(Error::UnknownAttributeKey)
                }
            },
            ListItem::List(list) => {
                if same_text(list.name.as_str(), "wrap") {
                    Some(Error::MalformedOption)
                } else if same_text(list.name.as_str(), "state") {
                    if list.items.len() == 1 && is_type(list.items[0].as_str()) {
                        state = Some(list.items[0].clone());
                        None
                    } else {
                        Some(Error::InvalidType)
                    }
                } else {
                    Some(Error::UnknownAttributeKey)
                }
            },
            ListItem::Word(name) => {
                if same_text(name.as_str(), "wrap") || same_text(name.as_str(), "state") {
                    Some(Error::MalformedOption)
                } else {
                    Some(Error::UnknownAttributeKey)
                }
            },
        };
        match fault {
            Some(e) => {
                proof {
                    lemma_controller_fault_stays(options@, i + 1);
                }
                return Err(e);
            },
            None => {},
        }
        i = i + 1;
    }
    assert(options@.take(i as int) =~= options@);
    Ok((wrappers, state))
}

impl Expr {
    /// The source form of the expression.
    pub open spec fn spec_text(&self) -> Seq<char> {
        match self {
            Expr::Lit(text) => text@,
            Expr::Path(text) => text@,
            Expr::Other(text) => text@,
        }
    }

    /// The source form of the expression.
    pub fn text(&self) -> (r: &str)
        ensures
            r@ == self.spec_text(),
    {
        match self {
            Expr::Lit(text) => text.as_str(),
            Expr::Path(text) => text.as_str(),
            Expr::Other(text) => text.as_str(),
        }
    }
}

/// `router` inside each of the middleware `wrappers`, the first innermost.
pub open spec fn layered(router: MethodRouterView, wrappers: Seq<Expr>) -> MethodRouterView
    decreases wrappers.len(),
{
    if wrappers.len() == 0 {
        router
    } else {
        layered(router, wrappers.drop_last()).wrapped(
            LayerView { name: wrappers.last().spec_text(), route_only: false },
        )
    }
}

/// `routes` inside each of the middleware `wrappers`, the first innermost.
pub open spec fn layered_all(routes: Seq<RouteWrapperView>, wrappers: Seq<Expr>) -> Seq<
    RouteWrapperView,
>
    decreases wrappers.len(),
{
    if wrappers.len() == 0 {
        routes
    } else {
        wrapped_all(
            layered_all(routes, wrappers.drop_last()),
            LayerView { name: wrappers.last().spec_text(), route_only: false },
        )
    }
}

impl Route {
    /// The handlers that this route mounts at its sub-path: its one handler,
    /// for its one method, inside its middleware.
    pub open spec fn spec_method_router(&self) -> MethodRouterView {
        layered(
            MethodRouterView::empty().with_handler(
                self.method_args.method.spec_filter(),
                self.name@,
                self.operation.deep_view(),
                self.components.deep_view(),
            ),
            self.method_args.wrappers@,
        )
    }

    /// The route as the table holds it.
    pub open spec fn spec_mounted(&self) -> RouteWrapperView {
        RouteWrapperView { path: self.method_args.path@, method: self.spec_method_router() }
    }

    /// What this route mounts at its sub-path.
    pub fn method_router(&self) -> (r: MethodRouter)
        ensures
            r@ == self.spec_method_router(),
    {
        let components = self.components.clone();
        assert(components.deep_view() =~= self.components.deep_view());
        let mut router = MethodRouter::new().on_defined(
            self.method_args.method.filter(),
            self.name.clone(),
            self.operation.clone(),
            components,
        );
        let ghost plain = router@;
        let mut i: usize = 0;
        assert(self.method_args.wrappers@.take(0) =~= Seq::<Expr>::empty());
        while i < self.method_args.wrappers.len()
            invariant
                i <= self.method_args.wrappers.len(),
                router@ == layered(plain, self.method_args.wrappers@.take(i as int)),
            decreases self.method_args.wrappers.len() - i,
        {
            assert(self.method_args.wrappers@.take(i + 1).drop_last()
                =~= self.method_args.wrappers@.take(i as int));
            router = router.layer(String::from_str(self.method_args.wrappers[i].text()));
            i = i + 1;
        }
        assert(self.method_args.wrappers@.take(i as int) =~= self.method_args.wrappers@);
        router
    }
}

/// A controller as it is declared: a block of functions under a mount path.
#[derive(Debug, PartialEq, Eq)]
pub struct ControllerDecl {
    pub path: String,
    /// The state type that the controller binds, in source form.
    pub state: Option<String>,
    /// The middleware around the whole controller; the first is the innermost.
    pub wrappers: Vec<Expr>,
    pub attrs: Vec<Attribute>,
    /// The type that the block is for, in source form.
    pub type_: String,
    pub routes: Vec<Route>,
    /// The place of the handler of each route among the items of the block.
    pub places: Vec<usize>,
    /// The items of the block, the handlers without their method attributes.
    pub items: Vec<ImplItem>,
}

/// The routes `routes` as the table holds them, in order.
pub open spec fn mounted_routes(routes: Seq<Route>) -> Seq<RouteWrapperView> {
    routes.map_values(|route: Route| route.spec_mounted())
}

impl ControllerDecl {
    /// What is wrong with the declaration of a controller, if anything is:
    /// the fault of the first item that has one; else that of the first
    /// option that has one; else the default state of `config`, where the
    /// controller names no state and the default is no type.
    pub open spec fn fault(items: Seq<ImplItem>, options: Seq<ListItem>, config: Config) -> Option<
        Error,
    > {
        if first_reading_fault(items) is Some {
            first_reading_fault(items)
        } else if first_controller_fault(options) is Some {
            first_controller_fault(options)
        } else if controller_state(options) is None && config.state is Some && !parses_as_type(
            config.state->Some_0@,
        ) {
            Some(Error::InvalidType)
        } else {
            None
        }
    }

    /// Whether `self` is the controller that `item` declares under the mount
    /// path `path` and the options `options`.
    pub open spec fn declared_by(
        self,
        item: ItemImpl,
        path: String,
        options: Seq<ListItem>,
        config: Config,
    ) -> bool {
        &&& self.path == path
        &&& self.attrs == item.attrs
        &&& self.type_ == item.self_ty
        &&& are_routes_of(self.routes@, item.items@)
        &&& as_places(self.places@) == handler_positions(item.items@)
        &&& self.items@.len() == item.items@.len()
        &&& forall|i: int|
            0 <= i < item.items@.len() ==> is_read(item.items@[i], #[trigger] self.items@[i])
        &&& self.wrappers@ == controller_wrappers(options)
        &&& self.state.deep_view() == match controller_state(options) {
            Some(state) => Some(state@),
            None => config.state.deep_view(),
        }
    }

    /// What is wrong with a controller block and the arguments of its
    /// attribute, if anything is: the block implements a trait; the
    /// arguments do not start with the mount path; they hold a second
    /// literal; or the declaration is at fault.
    pub open spec fn expansion_fault(input: ItemImpl, args: Seq<ListItem>, config: Config) -> Option<
        Error,
    > {
        if input.implements_trait {
            Some(Error::UnsupportedImplTrait)
        } else if args.len() == 0 || !(args[0] is Literal) {
            Some(Error::MissingPath)
        } else if holds_literal(args.drop_first()) {
            Some(Error::MultiplePathsSpecified)
        } else {
            ControllerDecl::fault(input.items@, args.drop_first(), config)
        }
    }

    /// Reads the declaration of a controller: the routes of its handlers, in
    /// the order of the block, its middleware and its state type.
    pub fn new(item: ItemImpl, args: ControllerArgs, config: &Config) -> (r: Result<
        ControllerDecl,
        Error,
    >)
        ensures
            match r {
                Ok(controller) => ControllerDecl::fault(item.items@, args.options@, *config) is None
                    && controller.declared_by(item, args.path, args.options@, *config),
                Err(e) => ControllerDecl::fault(item.items@, args.options@, *config) == Some(e),
            },
    {
        let ItemImpl { attrs, items, self_ty, implements_trait: _ } = item;
        let (routes, items, places) = match collect_routes(items) {
            Ok(found) => found,
            Err(e) => {
                return Err(e);
            },
        };
        let (wrappers, named) = match read_controller_options(&args.options) {
            Ok(read) => read,
            Err(e) => {
                return Err(e);
            },
        };
        let state: Option<String> = match named {
            Some(state) => Some(state),
            None => match &config.state {
                Some(text) => {
                    if !is_type(text.as_str()) {
                        return Err(Error::InvalidType);
                    }
                    Some(text.clone())
                },
                None => None,
            },
        };
        Ok(
            ControllerDecl {
                path: args.path,
                state,
                wrappers,
                attrs,
                type_: self_ty,
                routes,
                places,
                items,
            },
        )
    }

    /// The routes of the controller as its table holds them: each at its
    /// sub-path, inside its own middleware and then inside the controller's.
    pub open spec fn spec_table(&self) -> Seq<RouteWrapperView> {
        layered_all(mounted_routes(self.routes@), self.wrappers@)
    }

    /// Configures the controller: mounts its routes, in order, each at its
    /// sub-path, and puts the controller's middleware around all of them.
    /// Fails exactly where the schemas of the routes conflict.
    #[verifier::loop_isolation(false)]
    pub fn configure(&self) -> (r: Result<ControllerDetails<Router>, Error>)
        ensures
            match r {
                Ok(details) => {
                    &&& details.path@ == self.path@
                    &&& details.return_@ == self.spec_table()
                    &&& aggregated(contributions(mounted_routes(self.routes@))) is Ok
                },
                Err(e) => {
                    &&& e matches Error::SchemaDefinitionConflict { name }
                    &&& aggregated(contributions(mounted_routes(self.routes@))) == Err::<
                        DocumentView,
                        Seq<char>,
                    >(name@)
                },
            },
    {
        let ghost table = mounted_routes(self.routes@);
        let mut router = Router::new();
        let mut i: usize = 0;
        assert(table.take(0) =~= Seq::<RouteWrapperView>::empty());
        assert(contributions(Seq::<RouteWrapperView>::empty()) =~= Seq::empty());
        while i < self.routes.len()
            invariant
                i <= self.routes.len(),
                router@ == table.take(i as int),
                aggregated(contributions(router@)) is Ok,
            decreases self.routes.len() - i,
        {
            let route = &self.routes[i];
            assert(table.take(i as int).push(table[i as int]) =~= table.take(i + 1));
            match router.route(route.method_args.path.as_str(), route.method_router()) {
                Ok(next) => {
                    router = next;
                },
                Err(e) => {
                    proof {
                        assert(contributions(table).take(i + 1) =~= contributions(
                            table.take(i + 1),
                        ));
                        crate::routing::lemma_aggregated_conflict_stays(contributions(table), i + 1);
                    }
                    return Err(e);
                },
            }
            i = i + 1;
        }
        assert(table.take(i as int) =~= table);
        let mut k: usize = 0;
        assert(self.wrappers@.take(0) =~= Seq::<Expr>::empty());
        while k < self.wrappers.len()
            invariant
                k <= self.wrappers.len(),
                router@ == layered_all(table, self.wrappers@.take(k as int)),
            decreases self.wrappers.len() - k,
        {
            assert(self.wrappers@.take(k + 1).drop_last() =~= self.wrappers@.take(k as int));
            router = router.layer(String::from_str(self.wrappers[k].text()));
            k = k + 1;
        }
        assert(self.wrappers@.take(k as int) =~= self.wrappers@);
        Ok(ControllerDetails { path: self.path.clone(), return_: router })
    }
}

/// Reads a controller block and the arguments of its attribute. A block
/// that implements a trait is no controller.
pub fn expand(input: ItemImpl, args: Vec<ListItem>, config: &Config) -> (r: Result<
    ControllerDecl,
    Error,
>)
    ensures
        match r {
            Ok(controller) => {
                &&& ControllerDecl::expansion_fault(input, args@, *config) is None
                &&& controller.declared_by(
                    input,
                    args@[0]->Literal_0,
                    args@.drop_first(),
                    *config,
                )
            },
            Err(e) => ControllerDecl::expansion_fault(input, args@, *config) == Some(e),
        },
{
    if input.implements_trait {
        return Err(Error::UnsupportedImplTrait);
    }
    let args = match ControllerArgs::parse(args) {
        Ok(args) => args,
        Err(e) => {
            return Err(e);
        },
    };
    ControllerDecl::new(input, args, config)
}

} // verus!
