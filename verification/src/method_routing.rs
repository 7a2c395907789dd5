//! The handlers of one path, by method, with what they contribute to the API
//! description.

use vstd::prelude::*;
use vstd::string::*;
use crate::components::{Components, ComponentsView};
use crate::method::{documented_kind, documented_kinds, method_of, MethodFilter, OperationType};
use crate::models::{Operation, OperationView};
use crate::ordered::{put, put_all};
use crate::path_item_definition::PathItemDefinition;
use crate::paths::{PathItem, PathItemView};

verus! {

/// A middleware that wraps a handler.
#[derive(Debug, PartialEq, Eq)]
pub struct Layer {
    /// What names the middleware to the transport.
    pub name: String,
    /// Whether the middleware runs only for requests that a route matches.
    pub route_only: bool,
}

/// What a [`Layer`] stands for.
pub struct LayerView {
    pub name: Seq<char>,
    pub route_only: bool,
}

impl DeepView for Layer {
    type V = LayerView;

    open spec fn deep_view(&self) -> LayerView {
        LayerView { name: self.name@, route_only: self.route_only }
    }
}

impl Clone for Layer {
    fn clone(&self) -> (r: Self)
        ensures
            r.deep_view() == self.deep_view(),
    {
        Layer { name: self.name.clone(), route_only: self.route_only }
    }
}

/// A handler, the methods that it answers and the middleware around it. The
/// first layer is the innermost: it runs closest to the handler.
#[derive(Debug, PartialEq, Eq)]
pub struct Endpoint {
    pub filter: MethodFilter,
    /// What names the handler to the transport.
    pub handler: String,
    /// Whether the handler is a service rather than a function.
    pub service: bool,
    pub layers: Vec<Layer>,
}

/// What an [`Endpoint`] stands for.
pub struct EndpointView {
    pub filter: MethodFilter,
    pub handler: Seq<char>,
    pub service: bool,
    pub layers: Seq<LayerView>,
}

impl DeepView for Endpoint {
    type V = EndpointView;

    open spec fn deep_view(&self) -> EndpointView {
        EndpointView {
            filter: self.filter,
            handler: self.handler@,
            service: self.service,
            layers: self.layers.deep_view(),
        }
    }
}

impl Clone for Endpoint {
    fn clone(&self) -> (r: Self)
        ensures
            r.deep_view() == self.deep_view(),
    {
        let layers = self.layers.clone();
        assert(layers.deep_view() =~= self.layers.deep_view());
        Endpoint {
            filter: self.filter,
            handler: self.handler.clone(),
            service: self.service,
            layers,
        }
    }
}

impl EndpointView {
    /// This endpoint inside one more layer.
    pub open spec fn wrapped(self, layer: LayerView) -> EndpointView {
        EndpointView { layers: self.layers.push(layer), ..self }
    }
}

/// `operations` after `operation` is registered under each of the first
/// `upto` documented kinds whose method is in `filter`.
pub open spec fn filled(
    operations: Seq<(OperationType, OperationView)>,
    filter: MethodFilter,
    operation: OperationView,
    upto: nat,
) -> Seq<(OperationType, OperationView)>
    decreases upto,
{
    if upto == 0 {
        operations
    } else {
        let before = filled(operations, filter, operation, (upto - 1) as nat);
        let kind = documented_kinds()[upto - 1];
        if filter.allows(kind.method()) {
            put(before, kind, operation)
        } else {
            before
        }
    }
}

/// The handlers of one path and their part of the description.
pub struct MethodRouter {
    pub inner: Vec<Endpoint>,
    pub def: PathItem,
    pub components: Vec<Components>,
    pub state: Option<String>,
}

/// What a [`MethodRouter`] stands for.
pub struct MethodRouterView {
    pub endpoints: Seq<EndpointView>,
    pub def: PathItemView,
    pub components: Seq<ComponentsView>,
    pub state: Option<Seq<char>>,
}

impl DeepView for MethodRouter {
    type V = MethodRouterView;

    open spec fn deep_view(&self) -> MethodRouterView {
        MethodRouterView {
            endpoints: self.inner.deep_view(),
            def: self.def@,
            components: self.components.deep_view(),
            state: self.state.deep_view(),
        }
    }
}

impl View for MethodRouter {
    type V = MethodRouterView;

    open spec fn view(&self) -> MethodRouterView {
        self.deep_view()
    }
}

impl Clone for MethodRouter {
    fn clone(&self) -> (r: Self)
        ensures
            r@ == self@,
    {
        let inner = self.inner.clone();
        let components = self.components.clone();
        assert(inner.deep_view() =~= self.inner.deep_view());
        assert(components.deep_view() =~= self.components.deep_view());
        MethodRouter { inner, def: self.def.clone(), components, state: self.state.clone() }
    }
}

impl MethodRouterView {
    /// The router without handlers.
    pub open spec fn empty() -> MethodRouterView {
        MethodRouterView {
            endpoints: Seq::empty(),
            def: PathItemView::empty(),
            components: Seq::empty(),
            state: None,
        }
    }

    /// This router after `handler` is registered for the methods of `filter`,
    /// with its operation and components.
    pub open spec fn with_handler(
        self,
        filter: MethodFilter,
        handler: Seq<char>,
        operation: OperationView,
        components: Seq<ComponentsView>,
    ) -> MethodRouterView {
        MethodRouterView {
            endpoints: self.endpoints.push(
                EndpointView { filter, handler, service: false, layers: Seq::empty() },
            ),
            def: PathItemView {
                operations: filled(self.def.operations, filter, operation, 8),
                parameters: self.def.parameters,
            },
            components: self.components + components,
            state: self.state,
        }
    }

    /// This router after the service `service` is registered for the methods
    /// of `filter`. A service brings nothing to the description.
    pub open spec fn with_service(self, filter: MethodFilter, service: Seq<char>) -> MethodRouterView {
        MethodRouterView {
            endpoints: self.endpoints.push(
                EndpointView { filter, handler: service, service: true, layers: Seq::empty() },
            ),
            ..self
        }
    }

    /// This router with one more layer around each of its handlers.
    pub open spec fn wrapped(self, layer: LayerView) -> MethodRouterView {
        MethodRouterView {
            endpoints: self.endpoints.map_values(|e: EndpointView| e.wrapped(layer)),
            ..self
        }
    }

    /// This router and, behind it, `other`. Where both describe a kind of
    /// operation, the operation of `other` wins.
    pub open spec fn merged(self, other: MethodRouterView) -> MethodRouterView {
        MethodRouterView {
            endpoints: self.endpoints + other.endpoints,
            def: PathItemView {
                operations: put_all(self.def.operations, other.def.operations),
                parameters: self.def.parameters + other.def.parameters,
            },
            components: self.components + other.components,
            state: self.state,
        }
    }
}

/// A router for one handler: `MethodRouter::new().on(filter, handler)`. The
/// handler is registered with the operation and the components that `D` says
/// of it.
pub fn on<D: PathItemDefinition>(filter: MethodFilter, handler: String) -> (r: MethodRouter)
    ensures
        exists|operation: Operation, components: Vec<Components>|
            {
                &&& #[trigger] call_ensures(D::operation, (), operation)
                &&& #[trigger] call_ensures(D::components, (), components)
                &&& r@ == MethodRouterView::empty().with_handler(
                    filter,
                    handler@,
                    operation.deep_view(),
                    components.deep_view(),
                )
            },
{
    MethodRouter::new().on::<D>(filter, handler)
}

/// Puts one more layer around each endpoint.
fn wrap_endpoints(endpoints: &mut Vec<Endpoint>, layer: &Layer)
    ensures
        final(endpoints).deep_view() == old(endpoints).deep_view().map_values(
            |e: EndpointView| e.wrapped(layer.deep_view()),
        ),
{
    let ghost before = endpoints.deep_view();
    let n = endpoints.len();
    let mut i: usize = 0;
    while i < n
        invariant
            i <= n,
            n == endpoints.len(),
            before.len() == n,
            forall|j: int| 0 <= j < i ==> (#[trigger] endpoints[j]).deep_view() == before[j].wrapped(layer.deep_view()),
            forall|j: int| i <= j < n ==> (#[trigger] endpoints[j]).deep_view() == before[j],
        decreases n - i,
    {
        let mut endpoint = endpoints[i].clone();
        let ghost layers = endpoint.layers.deep_view();
        endpoint.layers.push(layer.clone());
        assert(endpoint.layers.deep_view() =~= layers.push(layer.deep_view()));
        endpoints.set(i, endpoint);
        i = i + 1;
    }
    assert(endpoints.deep_view() =~= before.map_values(
        |e: EndpointView| e.wrapped(layer.deep_view()),
    ));
}

impl MethodRouter {
    /// A router without handlers.
    pub fn new() -> (r: Self)
        ensures
            r@ == MethodRouterView::empty(),
    {
        let r = MethodRouter {
            inner: Vec::new(),
            def: PathItem::default(),
            components: Vec::new(),
            state: None,
        };
        assert(r.inner.deep_view() =~= Seq::<EndpointView>::empty());
        assert(r.components.deep_view() =~= Seq::<ComponentsView>::empty());
        r
    }

    /// Registers `handler` for the methods of `filter`, with the operation
    /// and the components that describe it: the operation is registered once
    /// for each documented kind whose method the filter holds, and replaces
    /// what the kind had.
    pub fn on_defined(
        self,
        filter: MethodFilter,
        handler: String,
        operation: Operation,
        components: Vec<Components>,
    ) -> (r: Self)
        ensures
            r@ == self@.with_handler(
                filter,
                handler@,
                operation.deep_view(),
                components.deep_view(),
            ),
    {
        let mut router = self;
        let ghost start = router@;
        let endpoint = Endpoint { filter, handler, service: false, layers: Vec::new() };
        assert(endpoint.layers.deep_view() =~= Seq::<LayerView>::empty());
        router.inner.push(endpoint);
        assert(router.inner.deep_view() =~= start.endpoints.push(
            EndpointView { filter, handler: handler@, service: false, layers: Seq::empty() },
        ));
        let mut components = components;
        let ghost added = components.deep_view();
        router.components.append(&mut components);
        assert(router.components.deep_view() =~= start.components + added);
        let mut i: usize = 0;
        while i < 8
            invariant
                i <= 8,
                router.inner.deep_view() == start.endpoints.push(
                    EndpointView {
                        filter,
                        handler: handler@,
                        service: false,
                        layers: Seq::empty(),
                    },
                ),
                router.components.deep_view() == start.components + added,
                router.state.deep_view() == start.state,
                router.def.parameters.deep_view() == start.def.parameters,
                router.def.operations@ == filled(
                    start.def.operations,
                    filter,
                    operation.deep_view(),
                    i as nat,
                ),
            decreases 8 - i,
        {
            let kind = documented_kind(i);
            if filter.contains(method_of(kind).filter()) {
                router.def.operations.insert(kind, operation.clone());
            }
            i = i + 1;
        }
        router
    }

    /// Registers `handler` for the methods of `filter`, with the operation
    /// and the components that `D` says of it: the operation is registered
    /// once for each documented kind whose method the filter holds, and the
    /// components go behind those that the router had.
    pub fn on<D: PathItemDefinition>(self, filter: MethodFilter, handler: String) -> (r: Self)
        ensures
            exists|operation: Operation, components: Vec<Components>|
                {
                    &&& #[trigger] call_ensures(D::operation, (), operation)
                    &&& #[trigger] call_ensures(D::components, (), components)
                    &&& r@ == self@.with_handler(
                        filter,
                        handler@,
                        operation.deep_view(),
                        components.deep_view(),
                    )
                },
    {
        let components = D::components();
        let operation = D::operation();
        let ghost brought = components;
        let ghost said = operation;
        let r = self.on_defined(filter, handler, operation, components);
        assert(call_ensures(D::operation, (), said) && call_ensures(D::components, (), brought)
            && r@ == self@.with_handler(filter, handler@, said.deep_view(), brought.deep_view()));
        r
    }

    /// Binds the state that the handlers need.
    pub fn with_state(self, state: String) -> (r: Self)
        ensures
            r@ == (MethodRouterView { state: Some(state@), ..self@ }),
    {
        MethodRouter {
            inner: self.inner,
            components: self.components,
            def: self.def,
            state: Some(state),
        }
    }

    /// Registers the service `service` for the methods of `filter`.
    pub fn on_service(self, filter: MethodFilter, service: String) -> (r: Self)
        ensures
            r@ == self@.with_service(filter, service@),
    {
        let mut router = self;
        let ghost start = router@;
        let endpoint = Endpoint { filter, handler: service, service: true, layers: Vec::new() };
        assert(endpoint.layers.deep_view() =~= Seq::<LayerView>::empty());
        router.inner.push(endpoint);
        assert(router.inner.deep_view() =~= start.endpoints.push(
            EndpointView { filter, handler: service@, service: true, layers: Seq::empty() },
        ));
        router
    }

    /// Puts the middleware `layer` around every handler registered so far.
    pub fn layer(self, layer: String) -> (r: Self)
        ensures
            r@ == self@.wrapped(LayerView { name: layer@, route_only: false }),
    {
        let mut router = self;
        let wrapper = Layer { name: layer, route_only: false };
        wrap_endpoints(&mut router.inner, &wrapper);
        router
    }

    /// Puts the middleware `layer` around every handler registered so far,
    /// to run only for requests that a route matches.
    pub fn route_layer(self, layer: String) -> (r: Self)
        ensures
            r@ == self@.wrapped(LayerView { name: layer@, route_only: true }),
    {
        let mut router = self;
        let wrapper = Layer { name: layer, route_only: true };
        wrap_endpoints(&mut router.inner, &wrapper);
        router
    }

    /// Takes the handlers, the components and the description of `other`
    /// behind those of this router.
    pub fn merge(self, other: MethodRouter) -> (r: Self)
        ensures
            r@ == self@.merged(other@),
    {
        let mut router = self;
        let ghost start = router@;
        let mut other = other;
        let ghost theirs = other@;
        router.inner.append(&mut other.inner);
        assert(router.inner.deep_view() =~= start.endpoints + theirs.endpoints);
        router.components.append(&mut other.components);
        assert(router.components.deep_view() =~= start.components + theirs.components);
        router.def.parameters.append(&mut other.def.parameters);
        assert(router.def.parameters.deep_view() =~= start.def.parameters + theirs.def.parameters);
        router.def.operations.extend(&other.def.operations);
        router
    }
}

} // verus!
