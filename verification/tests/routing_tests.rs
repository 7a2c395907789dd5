use restify::components::Components;
use restify::definition_holder::DefinitionHolder;
use restify::error::Error;
use restify::method::{MethodFilter, OperationType};
use restify::method_routing::{on, Layer, MethodRouter};
use restify::models::{NamedSchema, Operation, Parameter, ReferenceOr, Schema};
use restify::operation_map::OperationMap;
use restify::path_item_definition::PathItemDefinition;
use restify::paths::Paths;
use restify::routing::{aggregate, document_operations, merge_all, RouteWrapper, Router};

struct Plain;

impl PathItemDefinition for Plain {}

struct Described;

impl PathItemDefinition for Described {
    fn is_visible() -> bool {
        false
    }

    fn operation() -> Operation {
        Operation { operation_id: Some("described".to_string()), ..Operation::default() }
    }

    fn components() -> Vec<Components> {
        vec![holding("Todo", "{}")]
    }
}

fn holding(name: &str, document: &str) -> Components {
    Components {
        schemas: vec![NamedSchema {
            name: name.to_string(),
            schema: ReferenceOr::Object(Schema { document: document.to_string() }),
        }],
        parameters: vec![],
        security_schemes: vec![],
    }
}

fn named(id: &str) -> Operation {
    Operation { operation_id: Some(id.to_string()), ..Operation::default() }
}

fn kinds(map: &OperationMap) -> Vec<(OperationType, Option<String>)> {
    (0..map.len())
        .map(|i| {
            let (kind, operation) = map.get_index(i).unwrap();
            (kind, operation.operation_id.clone())
        })
        .collect()
}

fn keys(paths: &Paths) -> Vec<String> {
    (0..paths.len()).map(|i| paths.get_index(i).unwrap().0.to_string()).collect()
}

fn handlers(router: &Router) -> Vec<(String, String)> {
    router
        .routes()
        .iter()
        .flat_map(|route| {
            route.method.inner.iter().map(|e| (route.path.clone(), e.handler.clone())).collect::<Vec<_>>()
        })
        .collect()
}

#[test]
fn a_new_method_router_is_empty() {
    let router = MethodRouter::new();
    assert!(router.inner.is_empty());
    assert!(router.components.is_empty());
    assert!(router.def.operations.is_empty());
    assert!(router.def.parameters.is_empty());
    assert_eq!(router.state, None);
}

#[test]
fn a_handler_is_documented_once_for_each_method_of_its_filter() {
    let filter = MethodFilter::post().or(MethodFilter::get()).or(MethodFilter::connect());
    let router = MethodRouter::new().on_defined(filter, "save".to_string(), named("op"), vec![]);
    assert_eq!(router.inner.len(), 1);
    assert_eq!(router.inner[0].filter, filter);
    assert_eq!(router.inner[0].handler, "save");
    assert!(!router.inner[0].service);
    assert!(router.inner[0].layers.is_empty());
    assert_eq!(
        kinds(&router.def.operations),
        vec![(OperationType::Get, Some("op".to_string())), (OperationType::Post, Some("op".to_string()))]
    );
}

#[test]
fn a_later_handler_replaces_the_operation_of_its_method() {
    let router = MethodRouter::new()
        .on_defined(MethodFilter::get(), "first".to_string(), named("one"), vec![holding("A", "1")])
        .on_defined(MethodFilter::delete(), "second".to_string(), named("two"), vec![])
        .on_defined(MethodFilter::get(), "third".to_string(), named("three"), vec![holding("B", "2")]);
    assert_eq!(
        router.inner.iter().map(|e| e.handler.clone()).collect::<Vec<_>>(),
        vec!["first".to_string(), "second".to_string(), "third".to_string()]
    );
    assert_eq!(
        kinds(&router.def.operations),
        vec![
            (OperationType::Get, Some("three".to_string())),
            (OperationType::Delete, Some("two".to_string())),
        ]
    );
    assert_eq!(router.components, vec![holding("A", "1"), holding("B", "2")]);
}

#[test]
fn a_handler_brings_what_its_definition_says() {
    let plain = on::<Plain>(MethodFilter::get(), "list".to_string());
    assert_eq!(kinds(&plain.def.operations), vec![(OperationType::Get, None)]);
    assert!(plain.components.is_empty());
    let described = MethodRouter::new().on::<Described>(MethodFilter::put(), "save".to_string());
    assert_eq!(kinds(&described.def.operations), vec![(OperationType::Put, Some("described".to_string()))]);
    assert_eq!(described.components, vec![holding("Todo", "{}")]);
    assert_eq!(described.inner[0].handler, "save");
}

#[test]
fn layers_wrap_the_handlers_registered_so_far() {
    let router = MethodRouter::new()
        .on_defined(MethodFilter::get(), "a".to_string(), Operation::default(), vec![])
        .layer("inner".to_string())
        .on_defined(MethodFilter::post(), "b".to_string(), Operation::default(), vec![])
        .route_layer("outer".to_string());
    assert_eq!(
        router.inner[0].layers,
        vec![
            Layer { name: "inner".to_string(), route_only: false },
            Layer { name: "outer".to_string(), route_only: true },
        ]
    );
    assert_eq!(router.inner[1].layers, vec![Layer { name: "outer".to_string(), route_only: true }]);
}

#[test]
fn a_service_is_mounted_without_documentation() {
    let router = MethodRouter::new().on_service(MethodFilter::get(), "files".to_string());
    assert_eq!(router.inner.len(), 1);
    assert!(router.inner[0].service);
    assert_eq!(router.inner[0].handler, "files");
    assert!(router.def.operations.is_empty());
}

#[test]
fn state_is_bound_by_name() {
    let router = MethodRouter::new()
        .on_defined(MethodFilter::get(), "a".to_string(), named("x"), vec![])
        .with_state("AppState".to_string());
    assert_eq!(router.state, Some("AppState".to_string()));
    assert_eq!(router.inner.len(), 1);
    assert_eq!(kinds(&router.def.operations), vec![(OperationType::Get, Some("x".to_string()))]);
}

#[test]
fn merging_method_routers_appends_and_lets_the_later_operation_win() {
    let mut left = MethodRouter::new()
        .on_defined(MethodFilter::get(), "a".to_string(), named("left get"), vec![holding("A", "1")])
        .on_defined(MethodFilter::post(), "b".to_string(), named("left post"), vec![]);
    left.def.parameters.push(Parameter { name: "p".to_string(), document: "1".to_string() });
    let mut right = MethodRouter::new()
        .on_defined(MethodFilter::put(), "c".to_string(), named("right put"), vec![holding("B", "2")])
        .on_defined(MethodFilter::get(), "d".to_string(), named("right get"), vec![]);
    right.def.parameters.push(Parameter { name: "q".to_string(), document: "2".to_string() });
    let merged = left.merge(right);
    assert_eq!(
        merged.inner.iter().map(|e| e.handler.clone()).collect::<Vec<_>>(),
        vec!["a".to_string(), "b".to_string(), "c".to_string(), "d".to_string()]
    );
    assert_eq!(
        kinds(&merged.def.operations),
        vec![
            (OperationType::Get, Some("right get".to_string())),
            (OperationType::Post, Some("left post".to_string())),
            (OperationType::Put, Some("right put".to_string())),
        ]
    );
    assert_eq!(merged.components, vec![holding("A", "1"), holding("B", "2")]);
    assert_eq!(
        merged.def.parameters,
        vec![
            Parameter { name: "p".to_string(), document: "1".to_string() },
            Parameter { name: "q".to_string(), document: "2".to_string() },
        ]
    );
}

#[test]
fn a_new_router_is_empty() {
    let router = Router::new();
    assert!(router.routes().is_empty());
    assert!(router.paths().is_empty());
    assert_eq!(router.components(), &Components::default());
}

#[test]
fn routes_are_kept_in_the_order_of_mounting() {
    let router = Router::new()
        .route("/b", MethodRouter::new().on_defined(MethodFilter::get(), "one".to_string(), Operation::default(), vec![]))
        .unwrap()
        .route("/a", MethodRouter::new().on_defined(MethodFilter::get(), "two".to_string(), Operation::default(), vec![]))
        .unwrap()
        .route("/b", MethodRouter::new().on_defined(MethodFilter::post(), "three".to_string(), Operation::default(), vec![]))
        .unwrap();
    assert_eq!(
        handlers(&router),
        vec![
            ("/b".to_string(), "one".to_string()),
            ("/a".to_string(), "two".to_string()),
            ("/b".to_string(), "three".to_string()),
        ]
    );
    assert_eq!(keys(router.paths()), vec!["/b".to_string(), "/a".to_string()]);
    assert_eq!(
        kinds(&router.paths().get("/b").unwrap().operations),
        vec![
            (OperationType::Get, Some("get_b-97aa0bb188b55dc66927a8de59418743".to_string())),
            (OperationType::Post, Some("post_b-97aa0bb188b55dc66927a8de59418743".to_string())),
        ]
    );
}

#[test]
fn paths_of_the_description_start_with_exactly_one_separator() {
    let router = Router::new()
        .route("todo", MethodRouter::new().on_defined(MethodFilter::get(), "a".to_string(), Operation::default(), vec![]))
        .unwrap()
        .route("//todo", MethodRouter::new().on_defined(MethodFilter::post(), "b".to_string(), Operation::default(), vec![]))
        .unwrap();
    assert_eq!(keys(router.paths()), vec!["/todo".to_string()]);
    assert_eq!(router.paths().get("/todo").unwrap().operations.len(), 2);
    assert_eq!(router.routes()[0].path, "todo");
    assert_eq!(router.routes()[1].path, "//todo");
}

#[test]
fn an_operation_keeps_the_identifier_that_it_brings() {
    let router = Router::new()
        .route(
            "/todo/{id}",
            MethodRouter::new()
                .on_defined(MethodFilter::get(), "a".to_string(), named("readTodo"), vec![])
                .on_defined(MethodFilter::delete(), "b".to_string(), Operation::default(), vec![]),
        )
        .unwrap();
    assert_eq!(
        kinds(&router.paths().get("/todo/{id}").unwrap().operations),
        vec![
            (OperationType::Get, Some("readTodo".to_string())),
            (OperationType::Delete, Some("delete_todo-037b0e6eb304dba70ab8c8a78602f6bb".to_string())),
        ]
    );
}

#[test]
fn a_later_route_overwrites_the_operation_of_the_same_path_and_kind() {
    let router = Router::new()
        .route("/todo", MethodRouter::new().on_defined(MethodFilter::get(), "old".to_string(), named("old"), vec![]))
        .unwrap()
        .route("/todo", MethodRouter::new().on_defined(MethodFilter::get(), "new".to_string(), named("new"), vec![]))
        .unwrap();
    assert_eq!(
        kinds(&router.paths().get("/todo").unwrap().operations),
        vec![(OperationType::Get, Some("new".to_string()))]
    );
    assert_eq!(router.routes().len(), 2);
}

#[test]
fn a_route_without_operations_adds_no_path() {
    let router = Router::new()
        .route("/files", MethodRouter::new().on_service(MethodFilter::get(), "files".to_string()))
        .unwrap();
    assert!(router.paths().is_empty());
    assert_eq!(router.routes().len(), 1);
}

#[test]
fn components_of_the_routes_are_registered_once() {
    let router = Router::new()
        .route(
            "/todo",
            MethodRouter::new().on_defined(
                MethodFilter::get(),
                "a".to_string(),
                Operation::default(),
                vec![holding("Todo", "{}"), holding("Page", "{}")],
            ),
        )
        .unwrap()
        .route(
            "/todo/{id}",
            MethodRouter::new().on_defined(
                MethodFilter::get(),
                "b".to_string(),
                Operation::default(),
                vec![holding("Todo", "{}")],
            ),
        )
        .unwrap();
    let names: Vec<String> = router.components().schemas.iter().map(|s| s.name.clone()).collect();
    assert_eq!(names, vec!["Todo".to_string(), "Page".to_string()]);
}

#[test]
fn conflicting_schemas_stop_the_router() {
    let result = Router::new()
        .route(
            "/todo",
            MethodRouter::new().on_defined(
                MethodFilter::get(),
                "a".to_string(),
                Operation::default(),
                vec![holding("Todo", "{}")],
            ),
        )
        .unwrap()
        .route(
            "/order",
            MethodRouter::new().on_defined(
                MethodFilter::get(),
                "b".to_string(),
                Operation::default(),
                vec![holding("Todo", "{\"other\":true}")],
            ),
        );
    assert_eq!(result.err(), Some(Error::SchemaDefinitionConflict { name: "Todo".to_string() }));
}

#[test]
fn nesting_mounts_every_route_under_the_prefix() {
    let inner = Router::new()
        .route("/", MethodRouter::new().on_defined(MethodFilter::get(), "list".to_string(), Operation::default(), vec![holding("Todo", "{}")]))
        .unwrap()
        .route("/{id}", MethodRouter::new().on_defined(MethodFilter::get(), "one".to_string(), Operation::default(), vec![]))
        .unwrap();
    let outer = Router::new()
        .route("/up", MethodRouter::new().on_defined(MethodFilter::get(), "up".to_string(), Operation::default(), vec![]))
        .unwrap()
        .nest("/todo", &inner)
        .unwrap();
    assert_eq!(
        handlers(&outer),
        vec![
            ("/up".to_string(), "up".to_string()),
            ("/todo".to_string(), "list".to_string()),
            ("/todo/{id}".to_string(), "one".to_string()),
        ]
    );
    assert_eq!(keys(outer.paths()), vec!["/up".to_string(), "/todo".to_string(), "/todo/{id}".to_string()]);
    assert_eq!(
        kinds(&outer.paths().get("/todo/{id}").unwrap().operations),
        vec![(OperationType::Get, Some("get_todo-037b0e6eb304dba70ab8c8a78602f6bb".to_string()))]
    );
    assert_eq!(outer.components().schemas.len(), 1);
    assert_eq!(inner.routes().len(), 2);
}

#[test]
fn nesting_surfaces_a_conflict() {
    let inner = Router::new()
        .route("/", MethodRouter::new().on_defined(MethodFilter::get(), "list".to_string(), Operation::default(), vec![holding("Todo", "new")]))
        .unwrap();
    let result = Router::new()
        .route("/x", MethodRouter::new().on_defined(MethodFilter::get(), "x".to_string(), Operation::default(), vec![holding("Todo", "old")]))
        .unwrap()
        .nest("/todo", &inner);
    assert_eq!(result.err(), Some(Error::SchemaDefinitionConflict { name: "Todo".to_string() }));
}

#[test]
fn a_router_layer_wraps_every_handler_and_keeps_the_description() {
    let router = Router::new()
        .route("/a", MethodRouter::new().on_defined(MethodFilter::get(), "a".to_string(), Operation::default(), vec![]).layer("own".to_string()))
        .unwrap()
        .route("/b", MethodRouter::new().on_defined(MethodFilter::get(), "b".to_string(), Operation::default(), vec![]))
        .unwrap()
        .layer("trace".to_string());
    assert_eq!(
        router.routes()[0].method.inner[0].layers,
        vec![
            Layer { name: "own".to_string(), route_only: false },
            Layer { name: "trace".to_string(), route_only: false },
        ]
    );
    assert_eq!(router.routes()[1].method.inner[0].layers, vec![Layer { name: "trace".to_string(), route_only: false }]);
    assert_eq!(keys(router.paths()), vec!["/a".to_string(), "/b".to_string()]);
}

#[test]
fn a_cloned_router_has_the_same_routes_and_description() {
    let router = Router::new()
        .route("/a", MethodRouter::new().on_defined(MethodFilter::get(), "a".to_string(), Operation::default(), vec![holding("A", "1")]))
        .unwrap();
    let copy = router.clone();
    assert_eq!(handlers(&copy), handlers(&router));
    assert_eq!(keys(copy.paths()), keys(router.paths()));
    assert_eq!(copy.components(), router.components());
}

#[test]
fn a_route_wrapper_holds_its_definition() {
    let mut wrapper = RouteWrapper {
        path: "/todo".to_string(),
        method: MethodRouter::new().on_defined(
            MethodFilter::get(),
            "a".to_string(),
            named("x"),
            vec![holding("Todo", "{}")],
        ),
    };
    assert_eq!(wrapper.path(), "/todo");
    assert_eq!(kinds(&wrapper.operations()), vec![(OperationType::Get, Some("x".to_string()))]);
    assert_eq!(wrapper.components(), vec![holding("Todo", "{}")]);
    assert_eq!(wrapper.method.def.operations.len(), 1);
    let mut paths = Paths::new();
    wrapper.update_path_items(&mut paths);
    assert_eq!(keys(&paths), vec!["/todo".to_string()]);
    let mut silent = RouteWrapper { path: "/none".to_string(), method: MethodRouter::new() };
    silent.update_path_items(&mut paths);
    assert_eq!(keys(&paths), vec!["/todo".to_string()]);
}

#[test]
fn a_definition_holder_contributes_a_route_without_handlers() {
    let mut wrapper = RouteWrapper {
        path: "docs".to_string(),
        method: MethodRouter::new().on_defined(
            MethodFilter::get(),
            "a".to_string(),
            Operation::default(),
            vec![holding("Doc", "{}")],
        ),
    };
    let router = Router::new().update_from_def_holder(&mut wrapper).unwrap();
    assert_eq!(router.routes().len(), 1);
    assert!(router.routes()[0].method.inner.is_empty());
    assert_eq!(keys(router.paths()), vec!["/docs".to_string()]);
    assert_eq!(router.components().schemas.len(), 1);
}

#[test]
fn documenting_normalises_the_path_and_names_the_operations() {
    let mut paths = Paths::new();
    let mut operations = OperationMap::new();
    operations.insert(OperationType::Get, Operation::default());
    operations.insert(OperationType::Put, named("own"));
    document_operations(&mut paths, "todo/{id}", &operations);
    assert_eq!(keys(&paths), vec!["/todo/{id}".to_string()]);
    assert_eq!(
        kinds(&paths.get("/todo/{id}").unwrap().operations),
        vec![
            (OperationType::Get, Some("get_todo-037b0e6eb304dba70ab8c8a78602f6bb".to_string())),
            (OperationType::Put, Some("own".to_string())),
        ]
    );
}

#[test]
fn merging_many_components_hands_them_back_on_a_conflict() {
    let start = holding("A", "1");
    let merged = merge_all(start.clone(), &vec![holding("B", "2"), holding("A", "1")]).unwrap();
    assert_eq!(merged.schemas.len(), 2);
    let (same, error) = merge_all(start.clone(), &vec![holding("B", "2"), holding("A", "other")]).unwrap_err();
    assert_eq!(same, start);
    assert_eq!(error, Error::SchemaDefinitionConflict { name: "A".to_string() });
}

fn contribution(path: &str, filter: MethodFilter, operation: Operation, components: Vec<Components>) -> RouteWrapper {
    RouteWrapper {
        path: path.to_string(),
        method: MethodRouter::new().on_defined(filter, "handler".to_string(), operation, components),
    }
}

#[test]
fn contributions_aggregate_into_one_description() {
    let document = aggregate(vec![
        contribution("todo", MethodFilter::get(), Operation::default(), vec![holding("Todo", "{}")]),
        contribution("/todo/{id}", MethodFilter::get(), named("own"), vec![holding("Todo", "{}")]),
        contribution("/todo", MethodFilter::get().or(MethodFilter::post()), named("later"), vec![holding("Page", "{}")]),
        RouteWrapper { path: "/silent".to_string(), method: MethodRouter::new() },
    ])
    .unwrap();
    assert_eq!(keys(&document.paths), vec!["/todo".to_string(), "/todo/{id}".to_string()]);
    assert_eq!(
        kinds(&document.paths.get("/todo").unwrap().operations),
        vec![(OperationType::Get, Some("later".to_string())), (OperationType::Post, Some("later".to_string()))]
    );
    assert_eq!(
        kinds(&document.paths.get("/todo/{id}").unwrap().operations),
        vec![(OperationType::Get, Some("own".to_string()))]
    );
    let names: Vec<String> = document.components.schemas.iter().map(|s| s.name.clone()).collect();
    assert_eq!(names, vec!["Todo".to_string(), "Page".to_string()]);
}

#[test]
fn aggregating_nothing_gives_an_empty_description() {
    let document = aggregate(vec![]).unwrap();
    assert!(document.paths.is_empty());
    assert_eq!(document.components, Components::default());
}

#[test]
fn aggregating_twice_gives_the_same_description() {
    let build = || {
        aggregate(vec![
            contribution("/todo/{id}", MethodFilter::get(), Operation::default(), vec![holding("Todo", "{}")]),
            contribution("/order/{id}", MethodFilter::get(), Operation::default(), vec![]),
        ])
        .unwrap()
    };
    let first = build();
    let second = build();
    assert_eq!(keys(&first.paths), keys(&second.paths));
    assert_eq!(
        kinds(&first.paths.get("/todo/{id}").unwrap().operations),
        kinds(&second.paths.get("/todo/{id}").unwrap().operations)
    );
    assert_eq!(
        kinds(&first.paths.get("/order/{id}").unwrap().operations),
        vec![(OperationType::Get, Some("get_order-2fa2d868687b1f285c1da7a9a567dbac".to_string()))]
    );
    assert_eq!(first.components, second.components);
}

#[test]
fn a_conflict_leaves_no_description() {
    let result = aggregate(vec![
        contribution("/a", MethodFilter::get(), Operation::default(), vec![holding("Todo", "one")]),
        contribution("/b", MethodFilter::get(), Operation::default(), vec![holding("Todo", "two")]),
        contribution("/c", MethodFilter::get(), Operation::default(), vec![holding("Late", "x")]),
    ]);
    assert_eq!(result.err(), Some(Error::SchemaDefinitionConflict { name: "Todo".to_string() }));
}

#[test]
fn a_router_gives_up_its_description() {
    let router = Router::new()
        .route("/a", MethodRouter::new().on_defined(MethodFilter::get(), "a".to_string(), Operation::default(), vec![holding("A", "1")]))
        .unwrap();
    let document = router.into_document();
    assert_eq!(keys(&document.paths), vec!["/a".to_string()]);
    assert_eq!(document.components.schemas.len(), 1);
}

struct Holder {
    path: String,
    operations: Vec<(OperationType, Operation)>,
    components: Vec<Components>,
}

impl DefinitionHolder for Holder {
    fn path(&self) -> &str {
        &self.path
    }

    fn operations(&mut self) -> OperationMap {
        let mut map = OperationMap::new();
        for (kind, operation) in self.operations.drain(..) {
            map.insert(kind, operation);
        }
        map
    }

    fn components(&mut self) -> Vec<Components> {
        self.components.drain(..).collect()
    }
}

fn holder(path: &str, operations: Vec<(OperationType, Operation)>, components: Vec<Components>) -> Holder {
    Holder { path: path.to_string(), operations, components }
}

fn description(router: &Router) -> Vec<(String, Vec<(OperationType, Option<String>)>)> {
    keys(router.paths())
        .into_iter()
        .map(|key| {
            let operations = kinds(&router.paths().get(&key).unwrap().operations);
            (key, operations)
        })
        .collect()
}

#[test]
fn equal_holders_give_equal_descriptions() {
    let build = || {
        Router::new()
            .update_from_def_holder(&mut holder(
                "todo",
                vec![(OperationType::Get, Operation::default())],
                vec![holding("Todo", "{}")],
            ))
            .unwrap()
            .update_from_def_holder(&mut holder(
                "/order/{id}",
                vec![(OperationType::Post, named("own")), (OperationType::Get, Operation::default())],
                vec![holding("Order", "{}")],
            ))
            .unwrap()
    };
    let first = build();
    let second = build();
    assert_eq!(description(&first), description(&second));
    assert_eq!(first.components(), second.components());
}

#[test]
fn a_holder_is_documented_at_its_normalised_path() {
    let router = Router::new()
        .update_from_def_holder(&mut holder("todo", vec![(OperationType::Get, Operation::default())], vec![]))
        .unwrap();
    assert_eq!(
        description(&router),
        vec![(
            "/todo".to_string(),
            vec![(OperationType::Get, Some("get_todo-b18fa0240f10475845bd69f02d5333ab".to_string()))]
        )]
    );
    assert_eq!(router.routes()[0].path, "todo");
}

#[test]
fn a_holder_keeps_the_identifier_that_its_operation_brings() {
    let router = Router::new()
        .update_from_def_holder(&mut holder("/todo", vec![(OperationType::Get, named("listTodos"))], vec![]))
        .unwrap();
    assert_eq!(
        description(&router),
        vec![("/todo".to_string(), vec![(OperationType::Get, Some("listTodos".to_string()))])]
    );
}

#[test]
fn the_same_schema_from_two_holders_is_registered_once() {
    let router = Router::new()
        .update_from_def_holder(&mut holder("/a", vec![], vec![holding("Todo", "s")]))
        .unwrap();
    assert_eq!(router.components().schemas.len(), 1);
    let router = router
        .update_from_def_holder(&mut holder("/b", vec![], vec![holding("Todo", "s")]))
        .unwrap();
    assert_eq!(router.components(), &holding("Todo", "s"));
    assert!(router.paths().is_empty());
}

#[test]
fn a_holder_with_another_structure_of_a_known_schema_is_a_conflict() {
    let result = Router::new()
        .update_from_def_holder(&mut holder("/a", vec![], vec![holding("Todo", "s1")]))
        .unwrap()
        .update_from_def_holder(&mut holder("/b", vec![], vec![holding("Todo", "s2")]));
    assert_eq!(result.err(), Some(Error::SchemaDefinitionConflict { name: "Todo".to_string() }));
}

#[test]
fn a_later_holder_wins_for_its_kind_and_leaves_the_rest() {
    let router = Router::new()
        .update_from_def_holder(&mut holder(
            "/first",
            vec![(OperationType::Put, named("kept"))],
            vec![],
        ))
        .unwrap()
        .update_from_def_holder(&mut holder(
            "/todo",
            vec![(OperationType::Get, named("a")), (OperationType::Post, named("b"))],
            vec![],
        ))
        .unwrap()
        .update_from_def_holder(&mut holder("todo", vec![(OperationType::Get, named("c"))], vec![]))
        .unwrap()
        .update_from_def_holder(&mut holder("//todo", vec![(OperationType::Delete, named("d"))], vec![]))
        .unwrap()
        .update_from_def_holder(&mut holder("/last", vec![(OperationType::Get, named("e"))], vec![]))
        .unwrap();
    assert_eq!(
        description(&router),
        vec![
            ("/first".to_string(), vec![(OperationType::Put, Some("kept".to_string()))]),
            (
                "/todo".to_string(),
                vec![
                    (OperationType::Get, Some("c".to_string())),
                    (OperationType::Post, Some("b".to_string())),
                    (OperationType::Delete, Some("d".to_string())),
                ]
            ),
            ("/last".to_string(), vec![(OperationType::Get, Some("e".to_string()))]),
        ]
    );
}

#[test]
fn a_holder_updates_the_items_of_its_own_path_only() {
    let mut paths = Paths::new();
    let mut start = OperationMap::new();
    start.insert(OperationType::Get, named("old get"));
    start.insert(OperationType::Post, named("old post"));
    paths.merge_operations("/todo", &start);
    paths.merge_operations("/other", &start);
    holder("/silent", vec![], vec![holding("X", "1")]).update_path_items(&mut paths);
    assert_eq!(keys(&paths), vec!["/todo".to_string(), "/other".to_string()]);
    holder("/todo", vec![(OperationType::Post, named("new post")), (OperationType::Put, named("new put"))], vec![])
        .update_path_items(&mut paths);
    assert_eq!(keys(&paths), vec!["/todo".to_string(), "/other".to_string()]);
    assert_eq!(
        kinds(&paths.get("/todo").unwrap().operations),
        vec![
            (OperationType::Get, Some("old get".to_string())),
            (OperationType::Post, Some("new post".to_string())),
            (OperationType::Put, Some("new put".to_string())),
        ]
    );
    assert_eq!(
        kinds(&paths.get("/other").unwrap().operations),
        vec![
            (OperationType::Get, Some("old get".to_string())),
            (OperationType::Post, Some("old post".to_string())),
        ]
    );
    holder("todo", vec![(OperationType::Get, named("raw"))], vec![]).update_path_items(&mut paths);
    assert_eq!(keys(&paths), vec!["/todo".to_string(), "/other".to_string(), "todo".to_string()]);
}

#[test]
fn a_handler_that_says_nothing_brings_the_empty_operation() {
    let router = on::<Plain>(MethodFilter::get(), "list".to_string());
    assert_eq!(router.def.operations.len(), 1);
    let (kind, operation) = router.def.operations.get_index(0).unwrap();
    assert_eq!(kind, OperationType::Get);
    assert_eq!(operation, &Operation::default());
    assert!(router.components.is_empty());
    assert!(router.def.parameters.is_empty());
    assert_eq!(router.inner.len(), 1);
}

#[test]
fn a_described_handler_keeps_what_the_router_had() {
    let mut start = MethodRouter::new().on_defined(
        MethodFilter::get().or(MethodFilter::delete()),
        "first".to_string(),
        named("first"),
        vec![holding("Old", "1")],
    );
    start.def.parameters.push(Parameter { name: "p".to_string(), document: "1".to_string() });
    let router = start.on::<Described>(MethodFilter::get().or(MethodFilter::put()), "second".to_string());
    assert_eq!(
        kinds(&router.def.operations),
        vec![
            (OperationType::Get, Some("described".to_string())),
            (OperationType::Delete, Some("first".to_string())),
            (OperationType::Put, Some("described".to_string())),
        ]
    );
    assert_eq!(router.components, vec![holding("Old", "1"), holding("Todo", "{}")]);
    assert_eq!(router.def.parameters.len(), 1);
}
