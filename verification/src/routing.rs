//! The router: the ordered table of mounted routes, and the API description
//! that is aggregated from what the routes contribute.
//!
//! The description is a function of the routes in their order. A router never
//! shows a description that lacks a part of a route it holds.

use vstd::prelude::*;
use vstd::string::*;
use crate::components::{Components, ComponentsView};
use crate::definition_holder::DefinitionHolder;
use crate::error::Error;
use crate::method::OperationType;
use crate::method_routing::{LayerView, MethodRouter, MethodRouterView};
use crate::models::{Operation, OperationView};
use crate::operation_id::{build_operation_id, operation_id};
use crate::operation_map::OperationMap;
use crate::ordered::{keys_of, lemma_put_keys};
use crate::paths::{merged_at, PathItemView, Paths};
use crate::text::{join_paths, joined, normalize_path, normalized};

verus! {

/// A route: a path and the handlers mounted there.
pub struct RouteWrapper {
    pub path: String,
    pub method: MethodRouter,
}

/// What a [`RouteWrapper`] stands for.
pub struct RouteWrapperView {
    pub path: Seq<char>,
    pub method: MethodRouterView,
}

/// What one route contributes to the description.
pub struct ContributionView {
    pub path: Seq<char>,
    pub operations: Seq<(OperationType, OperationView)>,
    pub components: Seq<ComponentsView>,
}

/// An API description: the paths with their operations, and the components.
pub struct DocumentView {
    pub paths: Seq<(Seq<char>, PathItemView)>,
    pub components: ComponentsView,
}

impl DeepView for RouteWrapper {
    type V = RouteWrapperView;

    open spec fn deep_view(&self) -> RouteWrapperView {
        RouteWrapperView { path: self.path@, method: self.method@ }
    }
}

impl View for RouteWrapper {
    type V = RouteWrapperView;

    open spec fn view(&self) -> RouteWrapperView {
        self.deep_view()
    }
}

impl Clone for RouteWrapper {
    fn clone(&self) -> (r: Self)
        ensures
            r.deep_view() == self.deep_view(),
    {
        RouteWrapper { path: self.path.clone(), method: self.method.clone() }
    }
}

impl RouteWrapperView {
    /// What this route contributes to the description.
    pub open spec fn contribution(self) -> ContributionView {
        ContributionView {
            path: self.path,
            operations: self.method.def.operations,
            components: self.method.components,
        }
    }

    /// This route under the mount path `prefix`.
    pub open spec fn mounted(self, prefix: Seq<char>) -> RouteWrapperView {
        RouteWrapperView { path: joined(prefix, self.path), method: self.method }
    }

    /// This route with one more layer around each of its handlers.
    pub open spec fn wrapped(self, layer: LayerView) -> RouteWrapperView {
        RouteWrapperView { path: self.path, method: self.method.wrapped(layer) }
    }
}

impl DefinitionHolder for RouteWrapper {
    open spec fn held_path(&self) -> Seq<char> {
        self.path@
    }

    open spec fn held_operations(&self) -> Seq<(OperationType, OperationView)> {
        self.method.def.operations@
    }

    open spec fn held_components(&self) -> Seq<ComponentsView> {
        self.method.components.deep_view()
    }

    fn path(&self) -> (r: &str)
        ensures
            r@ == self.path@,
    {
        self.path.as_str()
    }

    fn operations(&mut self) -> (r: OperationMap)
        ensures
            r@ == old(self)@.method.def.operations,
            final(self)@ == old(self)@,
    {
        self.method.def.operations.clone()
    }

    fn components(&mut self) -> (r: Vec<Components>)
        ensures
            r.deep_view() == old(self)@.method.components,
            final(self)@ == old(self)@,
    {
        let r = self.method.components.clone();
        assert(r.deep_view() =~= self.method.components.deep_view());
        r
    }
}

/// The route without handlers that a holder makes: at the holder's path, its
/// operations and its components.
pub open spec fn held_route<D: DefinitionHolder>(holder: D) -> RouteWrapperView {
    RouteWrapperView {
        path: holder.held_path(),
        method: MethodRouterView {
            endpoints: Seq::empty(),
            def: PathItemView { operations: holder.held_operations(), parameters: Seq::empty() },
            components: holder.held_components(),
            state: None,
        },
    }
}

/// The contributions of `routes`, in order.
pub open spec fn contributions(routes: Seq<RouteWrapperView>) -> Seq<ContributionView> {
    routes.map_values(|route: RouteWrapperView| route.contribution())
}

/// `operations`, each under its generated identifier unless it brings one.
pub open spec fn identified(path: Seq<char>, operations: Seq<(OperationType, OperationView)>) -> Seq<
    (OperationType, OperationView),
> {
    operations.map_values(
        |e: (OperationType, OperationView)| (e.0, e.1.identified(operation_id(e.0, path))),
    )
}

/// `paths` after `operations` are documented at `path`: the path is
/// normalised, the operations get their identifiers, and they are merged
/// into what the normalised path had.
pub open spec fn documented_at(
    paths: Seq<(Seq<char>, PathItemView)>,
    path: Seq<char>,
    operations: Seq<(OperationType, OperationView)>,
) -> Seq<(Seq<char>, PathItemView)> {
    merged_at(paths, normalized(path), identified(normalized(path), operations))
}

impl DocumentView {
    /// The description that says nothing.
    pub open spec fn empty() -> DocumentView {
        DocumentView { paths: Seq::empty(), components: ComponentsView::empty() }
    }

    /// This description after one contribution, or the name of the schema in
    /// conflict. A contribution without operations leaves the paths alone.
    pub open spec fn contributed(self, c: ContributionView) -> Result<DocumentView, Seq<char>> {
        match self.components.merged_all(c.components) {
            Ok(components) => Ok(
                DocumentView {
                    paths: if c.operations.len() == 0 {
                        self.paths
                    } else {
                        documented_at(self.paths, c.path, c.operations)
                    },
                    components,
                },
            ),
            Err(name) => Err(name),
        }
    }
}

/// The description aggregated from the contributions `cs`, taken in order, or
/// the name of the first schema in conflict.
pub open spec fn aggregated(cs: Seq<ContributionView>) -> Result<DocumentView, Seq<char>>
    decreases cs.len(),
{
    if cs.len() == 0 {
        Ok(DocumentView::empty())
    } else {
        match aggregated(cs.drop_last()) {
            Ok(document) => document.contributed(cs.last()),
            Err(name) => Err(name),
        }
    }
}

/// A conflict among the first contributions is the conflict of the whole.
pub proof fn lemma_aggregated_conflict_stays(cs: Seq<ContributionView>, n: int)
    requires
        0 <= n <= cs.len(),
        aggregated(cs.take(n)) is Err,
    ensures
        aggregated(cs) == aggregated(cs.take(n)),
    decreases cs.len() - n,
{
    if n < cs.len() {
        assert(cs.take(n + 1).drop_last() =~= cs.take(n));
        lemma_aggregated_conflict_stays(cs, n + 1);
    } else {
        assert(cs.take(n) =~= cs);
    }
}

/// Whether every path of `paths` starts with exactly one separator and none
/// stands twice.
pub open spec fn paths_are_normalised(paths: Seq<(Seq<char>, PathItemView)>) -> bool {
    &&& keys_of(paths).no_duplicates()
    &&& forall|i: int|
        0 <= i < paths.len() ==> crate::text::leading_separators((#[trigger] paths[i]).0) == 1
}

/// Documenting operations keeps the paths normalised.
proof fn lemma_documented_at_normalised(
    paths: Seq<(Seq<char>, PathItemView)>,
    path: Seq<char>,
    operations: Seq<(OperationType, OperationView)>,
)
    requires
        paths_are_normalised(paths),
    ensures
        paths_are_normalised(documented_at(paths, path, operations)),
{
    let key = normalized(path);
    let item = match crate::ordered::lookup(paths, key) {
        Some(known) => known,
        None => PathItemView::empty(),
    };
    let value = PathItemView {
        operations: crate::ordered::put_all(item.operations, identified(key, operations)),
        parameters: item.parameters,
    };
    let after = documented_at(paths, path, operations);
    assert(after == crate::ordered::put(paths, key, value));
    lemma_put_keys(paths, key, value);
    crate::text::law_normalized_one_leading(path);
    keys_of(paths).index_of_first_ensures(key);
    assert forall|i: int| 0 <= i < after.len() implies crate::text::leading_separators(
        (#[trigger] after[i]).0,
    ) == 1 by {
        match keys_of(paths).index_of_first(key) {
            Some(at) => {
                if i != at {
                    assert(after[i] == paths[i]);
                }
            },
            None => {
                if i < paths.len() {
                    assert(after[i] == paths[i]);
                }
            },
        }
    }
}

/// In an aggregated description every path starts with exactly one
/// separator, and no path stands twice.
pub proof fn law_aggregated_paths_are_normalised(cs: Seq<ContributionView>)
    requires
        aggregated(cs) is Ok,
    ensures
        paths_are_normalised(aggregated(cs)->Ok_0.paths),
    decreases cs.len(),
{
    if cs.len() == 0 {
        assert(keys_of(Seq::<(Seq<char>, PathItemView)>::empty()) =~= Seq::<Seq<char>>::empty());
    } else {
        law_aggregated_paths_are_normalised(cs.drop_last());
        let before = aggregated(cs.drop_last())->Ok_0;
        lemma_documented_at_normalised(before.paths, cs.last().path, cs.last().operations);
    }
}

/// Whether every operation of every path of `paths` has an identifier.
pub open spec fn all_identified(paths: Seq<(Seq<char>, PathItemView)>) -> bool {
    crate::ordered::all_values(
        paths,
        |item: PathItemView|
            crate::ordered::all_values(
                item.operations,
                |operation: OperationView| operation.operation_id is Some,
            ),
    )
}

/// In an aggregated description every operation has an identifier: the one
/// that it brought, or the one that was generated for it.
pub proof fn law_aggregated_operations_are_identified(cs: Seq<ContributionView>)
    requires
        aggregated(cs) is Ok,
    ensures
        all_identified(aggregated(cs)->Ok_0.paths),
    decreases cs.len(),
{
    let has_id = |operation: OperationView| operation.operation_id is Some;
    let all_have = |item: PathItemView| crate::ordered::all_values(item.operations, has_id);
    if cs.len() > 0 {
        law_aggregated_operations_are_identified(cs.drop_last());
        let before = aggregated(cs.drop_last())->Ok_0.paths;
        let c = cs.last();
        if c.operations.len() > 0 {
            let key = normalized(c.path);
            let named = identified(key, c.operations);
            assert(crate::ordered::all_values(named, has_id));
            keys_of(before).index_of_first_ensures(key);
            let item = match crate::ordered::lookup(before, key) {
                Some(known) => known,
                None => PathItemView::empty(),
            };
            assert(all_have(item)) by {
                match keys_of(before).index_of_first(key) {
                    Some(at) => {
                        assert(all_have(before[at].1));
                    },
                    None => {},
                }
            }
            crate::ordered::lemma_put_all_keeps(item.operations, named, has_id);
            let value = PathItemView {
                operations: crate::ordered::put_all(item.operations, named),
                parameters: item.parameters,
            };
            assert(all_have(value));
            crate::ordered::lemma_put_keeps(before, key, value, all_have);
        }
    }
}

/// Where two contributions describe the same kind of operation at the same
/// normalised path, the later one wins: after a contribution with
/// operations, the description holds at its path, for each kind that it
/// describes, the operation that it brought.
pub proof fn law_later_operation_wins(
    document: DocumentView,
    c: ContributionView,
    kind: OperationType,
    operation: OperationView,
)
    requires
        document.contributed(c) is Ok,
        c.operations == seq![(kind, operation)],
    ensures
        ({
            let after = document.contributed(c)->Ok_0;
            let key = normalized(c.path);
            &&& crate::ordered::lookup(after.paths, key) is Some
            &&& crate::ordered::lookup(crate::ordered::lookup(after.paths, key)->Some_0.operations, kind)
                == Some(operation.identified(operation_id(kind, key)))
        }),
{
    let key = normalized(c.path);
    let named = identified(key, c.operations);
    assert(named =~= seq![(kind, operation.identified(operation_id(kind, key)))]);
    let item = match crate::ordered::lookup(document.paths, key) {
        Some(known) => known,
        None => PathItemView::empty(),
    };
    let merged = crate::ordered::put_all(item.operations, named);
    assert(named.drop_first() =~= Seq::<(OperationType, OperationView)>::empty());
    assert(merged == crate::ordered::put(item.operations, named[0].0, named[0].1)) by {
        let first = crate::ordered::put(item.operations, named[0].0, named[0].1);
        assert(crate::ordered::put_all(first, named.drop_first()) == first);
    }
    lemma_put_keys(item.operations, kind, operation.identified(operation_id(kind, key)));
    let value = PathItemView { operations: merged, parameters: item.parameters };
    lemma_put_keys(document.paths, key, value);
}

/// Documents `operations` at `path`: normalises the path, gives each
/// operation without an identifier its generated one, and merges the
/// operations into what the path had.
pub fn document_operations(paths: &mut Paths, path: &str, operations: &OperationMap)
    ensures
        final(paths)@ == documented_at(old(paths)@, path@, operations@),
{
    let key: String = normalize_path(path);
    let mut ids: OperationMap = OperationMap::new();
    let n = operations.len();
    let mut i: usize = 0;
    assert(identified(key@, operations@.take(0)) =~= Seq::<(OperationType, OperationView)>::empty());
    while i < n
        invariant
            i <= n,
            n == operations@.len(),
            keys_of(operations@).no_duplicates(),
            ids@ == identified(key@, operations@.take(i as int)),
        decreases n - i,
    {
        match operations.get_index(i) {
            Some((kind, operation)) => {
                let mut named: Operation = operation.clone();
                if named.operation_id.is_none() {
                    named.operation_id = Some(build_operation_id(key.as_str(), &kind));
                }
                proof {
                    let done = operations@.take(i as int);
                    let next = operations@.take(i + 1);
                    assert(next =~= done.push(operations@[i as int]));
                    assert(keys_of(identified(key@, done)) =~= keys_of(done));
                    if keys_of(done).contains(kind) {
                        let j = choose|j: int| 0 <= j < keys_of(done).len() && keys_of(done)[j] == kind;
                        assert(keys_of(operations@)[j] == kind);
                        assert(keys_of(operations@)[i as int] == kind);
                    }
                    lemma_put_keys(ids@, kind, named.deep_view());
                    assert(identified(key@, next) =~= identified(key@, done).push(
                        (kind, named.deep_view()),
                    ));
                }
                ids.insert(kind, named);
            },
            None => {},
        }
        i = i + 1;
    }
    assert(operations@.take(n as int) =~= operations@);
    paths.merge_operations(key.as_str(), &ids);
}

/// Merges each of `more` into `components`, in order. On a conflict the
/// components are handed back as they were.
pub fn merge_all(components: Components, more: &Vec<Components>) -> (r: Result<
    Components,
    (Components, Error),
>)
    ensures
        match r {
            Ok(merged) => components@.merged_all(more.deep_view()) == Ok::<
                ComponentsView,
                Seq<char>,
            >(merged@),
            Err((same, e)) => {
                &&& same@ == components@
                &&& e matches Error::SchemaDefinitionConflict { name }
                &&& components@.merged_all(more.deep_view()) == Err::<ComponentsView, Seq<char>>(
                    name@,
                )
            },
        },
{
    let mut merged: Components = components.clone();
    let mut i: usize = 0;
    assert(more.deep_view().skip(0) =~= more.deep_view());
    while i < more.len()
        invariant
            i <= more.len(),
            components@.merged_all(more.deep_view()) == merged@.merged_all(
                more.deep_view().skip(i as int),
            ),
        decreases more.len() - i,
    {
        let ghost rest = more.deep_view().skip(i as int);
        assert(rest[0] == more[i as int].deep_view());
        assert(rest.drop_first() =~= more.deep_view().skip(i + 1));
        match merged.merge(more[i].clone()) {
            Ok(()) => {},
            Err(e) => {
                return Err((components, e));
            },
        }
        i = i + 1;
    }
    Ok(merged)
}

/// The route table and the description of an application or of a part of it.
pub struct Router {
    components: Components,
    paths: Paths,
    inner: Vec<RouteWrapper>,
}

impl View for Router {
    type V = Seq<RouteWrapperView>;

    closed spec fn view(&self) -> Seq<RouteWrapperView> {
        self.inner.deep_view()
    }
}

impl DeepView for Router {
    type V = Seq<RouteWrapperView>;

    open spec fn deep_view(&self) -> Seq<RouteWrapperView> {
        self@
    }
}

/// `routes`, each under the mount path `prefix`.
pub open spec fn mounted_all(prefix: Seq<char>, routes: Seq<RouteWrapperView>) -> Seq<
    RouteWrapperView,
> {
    routes.map_values(|route: RouteWrapperView| route.mounted(prefix))
}

/// `routes`, each with one more layer around each of its handlers.
pub open spec fn wrapped_all(routes: Seq<RouteWrapperView>, layer: LayerView) -> Seq<
    RouteWrapperView,
> {
    routes.map_values(|route: RouteWrapperView| route.wrapped(layer))
}

impl Router {
    #[verifier::type_invariant]
    closed spec fn description_is_whole(&self) -> bool {
        aggregated(contributions(self.inner.deep_view())) == Ok::<DocumentView, Seq<char>>(
            DocumentView { paths: self.paths@, components: self.components@ },
        )
    }

    /// A router without routes.
    pub fn new() -> (r: Self)
        ensures
            r@ == Seq::<RouteWrapperView>::empty(),
            aggregated(contributions(r@)) is Ok,
    {
        let inner: Vec<RouteWrapper> = Vec::new();
        assert(inner.deep_view() =~= Seq::<RouteWrapperView>::empty());
        assert(contributions(inner.deep_view()) =~= Seq::<ContributionView>::empty());
        Router { components: Components::default(), paths: Paths::new(), inner }
    }

    /// The routes, in the order in which they were mounted.
    pub fn routes(&self) -> (r: &Vec<RouteWrapper>)
        ensures
            r.deep_view() == self@,
    {
        &self.inner
    }

    /// The paths of the description: those that the routes contribute, in
    /// the routes' order.
    pub fn paths(&self) -> (r: &Paths)
        ensures
            aggregated(contributions(self@)) is Ok,
            r@ == aggregated(contributions(self@))->Ok_0.paths,
    {
        proof {
            use_type_invariant(self);
        }
        &self.paths
    }

    /// The components of the description: those that the routes contribute,
    /// in the routes' order.
    pub fn components(&self) -> (r: &Components)
        ensures
            aggregated(contributions(self@)) is Ok,
            r@ == aggregated(contributions(self@))->Ok_0.components,
    {
        proof {
            use_type_invariant(self);
        }
        &self.components
    }

    /// Mounts `method_router` at `path`, behind the routes mounted so far,
    /// and takes what it contributes into the description. Fails, with the
    /// name of the schema, exactly where a schema of the route conflicts with
    /// one registered before.
    pub fn route(self, path: &str, method_router: MethodRouter) -> (r: Result<Router, Error>)
        ensures
            match r {
                Ok(next) => {
                    &&& next@ == self@.push(RouteWrapperView { path: path@, method: method_router@ })
                    &&& aggregated(contributions(next@)) is Ok
                },
                Err(e) => {
                    &&& e matches Error::SchemaDefinitionConflict { name }
                    &&& aggregated(
                        contributions(
                            self@.push(RouteWrapperView { path: path@, method: method_router@ }),
                        ),
                    ) == Err::<DocumentView, Seq<char>>(name@)
                },
            },
    {
        proof {
            use_type_invariant(&self);
        }
        let ghost before = self@;
        let ghost route = RouteWrapperView { path: path@, method: method_router@ };
        proof {
            assert(contributions(before.push(route)).drop_last() =~= contributions(before));
            assert(contributions(before.push(route)).last() == route.contribution());
        }
        let Router { components, paths, inner } = self;
        let components = match merge_all(components, &method_router.components) {
            Ok(merged) => merged,
            Err((_, e)) => {
                return Err(e);
            },
        };
        let mut paths = paths;
        if !method_router.def.operations.is_empty() {
            document_operations(&mut paths, path, &method_router.def.operations);
        }
        let mut inner = inner;
        inner.push(RouteWrapper { path: String::from_str(path), method: method_router });
        assert(inner.deep_view() =~= before.push(route));
        Ok(Router { components, paths, inner })
    }

    /// Takes what `definition_holder` holds as a route without handlers, at
    /// the holder's path and behind the routes mounted so far: its operations
    /// are documented at its path and its components are registered. Fails,
    /// with the name of the schema, exactly where a schema of the holder
    /// conflicts with one registered before.
    pub fn update_from_def_holder<D: DefinitionHolder>(self, definition_holder: &mut D) -> (r:
        Result<Router, Error>)
        ensures
            final(definition_holder).held_path() == old(definition_holder).held_path(),
            match r {
                Ok(next) => {
                    &&& next@ == self@.push(held_route(*old(definition_holder)))
                    &&& aggregated(contributions(next@)) is Ok
                },
                Err(e) => {
                    &&& e matches Error::SchemaDefinitionConflict { name }
                    &&& aggregated(
                        contributions(self@.push(held_route(*old(definition_holder)))),
                    ) == Err::<DocumentView, Seq<char>>(name@)
                },
            },
    {
        let components = definition_holder.components();
        let operations = definition_holder.operations();
        let path = String::from_str(definition_holder.path());
        let mut method = MethodRouter::new();
        method.components = components;
        method.def.operations = operations;
        assert(RouteWrapperView { path: path@, method: method@ } == held_route(
            *old(definition_holder),
        ));
        self.route(path.as_str(), method)
    }

    /// Mounts every route of `other` under the mount path `path`, in the
    /// order of `other` and behind the routes mounted so far. Fails exactly
    /// where a schema of one of the routes conflicts with one registered
    /// before.
    #[verifier::loop_isolation(false)]
    pub fn nest(self, path: &str, other: &Router) -> (r: Result<Router, Error>)
        ensures
            match r {
                Ok(next) => {
                    &&& next@ == self@ + mounted_all(path@, other@)
                    &&& aggregated(contributions(next@)) is Ok
                },
                Err(e) => {
                    &&& e matches Error::SchemaDefinitionConflict { name }
                    &&& aggregated(contributions(self@ + mounted_all(path@, other@))) == Err::<
                        DocumentView,
                        Seq<char>,
                    >(name@)
                },
            },
    {
        let ghost target = self@ + mounted_all(path@, other@);
        let ghost start = self@;
        proof {
            use_type_invariant(&self);
        }
        let mut router = self;
        let n = other.inner.len();
        let mut i: usize = 0;
        assert(target.take(start.len() as int) =~= start);
        while i < n
            invariant
                i <= n,
                n == other@.len(),
                n == other.inner.len(),
                other@ == other.inner.deep_view(),
                target == start + mounted_all(path@, other@),
                router@ == target.take(start.len() + i),
                aggregated(contributions(router@)) is Ok,
            decreases n - i,
        {
            let full: String = join_paths(path, other.inner[i].path.as_str());
            let ghost mounted = other@[i as int].mounted(path@);
            proof {
                assert(target[start.len() + i] == mounted);
                assert(target.take(start.len() + i).push(mounted) =~= target.take(
                    start.len() + i + 1,
                ));
            }
            match router.route(full.as_str(), other.inner[i].method.clone()) {
                Ok(next) => {
                    router = next;
                },
                Err(e) => {
                    proof {
                        assert(contributions(target).take(start.len() + i + 1) =~= contributions(
                            target.take(start.len() + i + 1),
                        ));
                        lemma_aggregated_conflict_stays(
                            contributions(target),
                            start.len() + i + 1,
                        );
                    }
                    return Err(e);
                },
            }
            i = i + 1;
        }
        assert(target.take(start.len() + n) =~= target);
        Ok(router)
    }

    /// Puts the middleware `layer` around every handler mounted so far. The
    /// description stays as it is.
    #[verifier::loop_isolation(false)]
    pub fn layer(self, layer: String) -> (r: Router)
        ensures
            r@ == wrapped_all(self@, LayerView { name: layer@, route_only: false }),
    {
        proof {
            use_type_invariant(&self);
        }
        let ghost before = self@;
        let ghost wrapper = LayerView { name: layer@, route_only: false };
        let Router { components, paths, inner } = self;
        let mut wrapped: Vec<RouteWrapper> = Vec::new();
        assert(wrapped.deep_view() =~= wrapped_all(before.take(0), wrapper));
        let ghost items = inner@;
        for route in it: inner
            invariant
                it.seq() == items,
                items.len() == before.len(),
                forall|k: int| 0 <= k < items.len() ==> (#[trigger] items[k]).deep_view() == before[k],
                wrapped.deep_view() == wrapped_all(before.take(it.index() as int), wrapper),
        {
            let ghost done = wrapped.deep_view();
            assert(route.deep_view() == before[it.index() as int]);
            let RouteWrapper { path, method } = route;
            let inside = RouteWrapper { path, method: method.layer(layer.clone()) };
            assert(inside.deep_view() == before[it.index() as int].wrapped(wrapper));
            wrapped.push(inside);
            assert(before.take(it.index() + 1) =~= before.take(it.index() as int).push(
                before[it.index() as int],
            ));
            assert(wrapped.deep_view() =~= done.push(before[it.index() as int].wrapped(wrapper)));
            assert(wrapped.deep_view() =~= wrapped_all(before.take(it.index() + 1), wrapper));
        }
        proof {
            assert(before.take(before.len() as int) =~= before);
            assert(contributions(wrapped_all(before, wrapper)) =~= contributions(before));
        }
        Router { components, paths, inner: wrapped }
    }
}

impl Clone for Router {
    fn clone(&self) -> (r: Self)
        ensures
            r@ == self@,
    {
        proof {
            use_type_invariant(self);
        }
        let inner = self.inner.clone();
        assert(inner.deep_view() =~= self.inner.deep_view());
        Router { components: self.components.clone(), paths: self.paths.clone(), inner }
    }
}

/// An API description: the components and the paths with their operations.
pub struct ApiDocument {
    pub components: Components,
    pub paths: Paths,
}

impl View for ApiDocument {
    type V = DocumentView;

    open spec fn view(&self) -> DocumentView {
        DocumentView { paths: self.paths@, components: self.components@ }
    }
}

impl Router {
    /// The description of the routes, whole: the router is given up for it.
    pub fn into_document(self) -> (r: ApiDocument)
        ensures
            aggregated(contributions(self@)) == Ok::<DocumentView, Seq<char>>(r@),
    {
        proof {
            use_type_invariant(&self);
        }
        let Router { components, paths, inner: _ } = self;
        ApiDocument { components, paths }
    }
}

/// Aggregates the description of the contributions `contributions`, taken
/// in order: for each, its path is normalised, its operations are merged
/// into what the path has, a later operation replacing an earlier one of
/// the same kind, each operation without an identifier is given its
/// generated one, and its components are registered. Fails, with the name of
/// the schema, exactly where a schema is registered twice with different
/// definitions; no part of a description is handed out then.
#[verifier::loop_isolation(false)]
pub fn aggregate(contributions: Vec<RouteWrapper>) -> (r: Result<ApiDocument, Error>)
    ensures
        match r {
            Ok(document) => aggregated(self::contributions(contributions.deep_view())) == Ok::<
                DocumentView,
                Seq<char>,
            >(document@),
            Err(e) => {
                &&& e matches Error::SchemaDefinitionConflict { name }
                &&& aggregated(self::contributions(contributions.deep_view())) == Err::<
                    DocumentView,
                    Seq<char>,
                >(name@)
            },
        },
{
    let ghost all = contributions.deep_view();
    let ghost items = contributions@;
    let mut router = Router::new();
    assert(all.take(0) =~= Seq::<RouteWrapperView>::empty());
    for contribution in it: contributions
        invariant
            it.seq() == items,
            items.len() == all.len(),
            forall|k: int| 0 <= k < items.len() ==> (#[trigger] items[k]).deep_view() == all[k],
            router@ == all.take(it.index() as int),
    {
        let ghost done = it.index() as int;
        assert(contribution.deep_view() == all[done]);
        assert(all.take(done).push(all[done]) =~= all.take(done + 1));
        let RouteWrapper { path, method } = contribution;
        match router.route(path.as_str(), method) {
            Ok(next) => {
                router = next;
            },
            Err(e) => {
                proof {
                    assert(self::contributions(all).take(done + 1) =~= self::contributions(
                        all.take(done + 1),
                    ));
                    lemma_aggregated_conflict_stays(self::contributions(all), done + 1);
                }
                return Err(e);
            },
        }
    }
    assert(all.take(all.len() as int) =~= all);
    Ok(router.into_document())
}

} // verus!
