use restify::components::Components;
use restify::config::Config;
use restify::controller::{ControllerDecl, ControllerDetails};
use restify::error::Error;
use restify::into_router::{mount_contributions, IntoRouter};
use restify::link::{find_controller, find_module, link, link_module};
use restify::method::{MethodFilter, OperationType};
use restify::method_routing::{Layer, MethodRouter};
use restify::models::{NamedSchema, Operation, ReferenceOr, Schema};
use restify::module::{ModuleDetails, ModuleGraph};
use restify::module_decl::ModuleDecl;
use restify::routing::Router;
use restify::syntax::{
    Attribute, DeriveInput, Expr, ImplItem, ImplItemFn, ItemImpl, ListItem, Meta, MetaList,
    MetaNameValue, Signature,
};

fn attribute(name: &str, meta: Meta) -> Attribute {
    Attribute { name: name.to_string(), meta }
}

fn option(name: &str, value: Expr) -> ListItem {
    ListItem::NameValue(MetaNameValue { name: name.to_string(), value })
}

fn list(name: &str, items: &[&str]) -> ListItem {
    ListItem::List(MetaList { name: name.to_string(), items: items.iter().map(|s| s.to_string()).collect() })
}

fn literal(text: &str) -> ListItem {
    ListItem::Literal(text.to_string())
}

fn schema(name: &str, document: &str) -> Components {
    Components {
        schemas: vec![NamedSchema {
            name: name.to_string(),
            schema: ReferenceOr::Object(Schema { document: document.to_string() }),
        }],
        parameters: vec![],
        security_schemes: vec![],
    }
}

fn handler(name: &str, method: &str, path: Option<&str>, components: Vec<Components>) -> ImplItem {
    let meta = match path {
        Some(path) => Meta::List(vec![literal(path)]),
        None => Meta::Path,
    };
    ImplItem::Fn(ImplItemFn {
        attrs: vec![attribute(method, meta)],
        sig: Signature { ident: name.to_string(), has_receiver: false, has_output: true, is_async: true },
        operation: Operation::default(),
        components,
    })
}

fn controller(type_: &str, path: &str, items: Vec<ImplItem>, wrap: Option<&str>) -> ControllerDecl {
    let mut args = vec![literal(path)];
    if let Some(wrap) = wrap {
        args.push(option("wrap", Expr::Other(wrap.to_string())));
    }
    restify::controller::expand(
        ItemImpl { attrs: vec![], items, self_ty: type_.to_string(), implements_trait: false },
        args,
        &Config::default(),
    )
    .unwrap()
}

fn module(ident: &str, imports: &[&str], controllers: &[&str]) -> ModuleDecl {
    restify::module_decl::expand(
        DeriveInput {
            ident: ident.to_string(),
            attrs: vec![attribute("module", Meta::List(vec![list("imports", imports), list("controllers", controllers)]))],
        },
        &Config::default(),
    )
    .unwrap()
}

fn app_controller() -> ControllerDecl {
    controller("AppController", "/", vec![handler("up", "get", None, vec![])], Some("TraceLayer::new_for_http()"))
}

fn todo_controller() -> ControllerDecl {
    controller(
        "TodoController",
        "/todo",
        vec![
            handler("get_all", "get", None, vec![schema("TodoEntity", "{\"type\":\"object\"}")]),
            handler("get_one", "get", Some("/{id}"), vec![schema("TodoEntity", "{\"type\":\"object\"}")]),
            handler("create", "post", None, vec![schema("CreateTodoDto", "{}")]),
            handler("update", "patch", Some("/{id}"), vec![schema("UpdateTodoDto", "{}")]),
            handler("delete", "delete", Some("/{id}"), vec![]),
        ],
        Some("TraceLayer::new_for_http()"),
    )
}

fn table(router: &Router) -> Vec<(String, MethodFilter, String)> {
    router
        .routes()
        .iter()
        .flat_map(|route| {
            route.method.inner.iter().map(|e| (route.path.clone(), e.filter, e.handler.clone())).collect::<Vec<_>>()
        })
        .collect()
}

fn described(router: &Router) -> Vec<(String, Vec<(OperationType, Option<String>)>)> {
    (0..router.paths().len())
        .map(|i| {
            let (path, item) = router.paths().get_index(i).unwrap();
            let operations = (0..item.operations.len())
                .map(|k| {
                    let (kind, operation) = item.operations.get_index(k).unwrap();
                    (kind, operation.operation_id.clone())
                })
                .collect();
            (path.to_string(), operations)
        })
        .collect()
}

#[test]
fn the_todo_application_resolves_into_one_route_table_and_one_description() {
    let modules = vec![module("AppModule", &["TodoModule"], &["AppController"]), module("TodoModule", &[], &["TodoController"])];
    let controllers = vec![app_controller(), todo_controller()];
    let graph = link(&modules, &controllers, "AppModule").unwrap();
    let router = graph.into_router(&mut ()).unwrap();
    assert_eq!(
        table(&router),
        vec![
            ("/".to_string(), MethodFilter::get(), "up".to_string()),
            ("/todo".to_string(), MethodFilter::get(), "get_all".to_string()),
            ("/todo/{id}".to_string(), MethodFilter::get(), "get_one".to_string()),
            ("/todo".to_string(), MethodFilter::post(), "create".to_string()),
            ("/todo/{id}".to_string(), MethodFilter::patch(), "update".to_string()),
            ("/todo/{id}".to_string(), MethodFilter::delete(), "delete".to_string()),
        ]
    );
    assert_eq!(
        described(&router),
        vec![
            ("/".to_string(), vec![(OperationType::Get, Some("get_-6666cd76f96956469e7be39d750cc7d9".to_string()))]),
            (
                "/todo".to_string(),
                vec![
                    (OperationType::Get, Some("get_todo-b18fa0240f10475845bd69f02d5333ab".to_string())),
                    (OperationType::Post, Some("post_todo-b18fa0240f10475845bd69f02d5333ab".to_string())),
                ]
            ),
            (
                "/todo/{id}".to_string(),
                vec![
                    (OperationType::Get, Some("get_todo-037b0e6eb304dba70ab8c8a78602f6bb".to_string())),
                    (OperationType::Patch, Some("patch_todo-037b0e6eb304dba70ab8c8a78602f6bb".to_string())),
                    (OperationType::Delete, Some("delete_todo-037b0e6eb304dba70ab8c8a78602f6bb".to_string())),
                ]
            ),
        ]
    );
    let names: Vec<String> = router.components().schemas.iter().map(|s| s.name.clone()).collect();
    assert_eq!(names, vec!["TodoEntity".to_string(), "CreateTodoDto".to_string(), "UpdateTodoDto".to_string()]);
    for route in router.routes() {
        assert_eq!(
            route.method.inner[0].layers,
            vec![Layer { name: "TraceLayer::new_for_http()".to_string(), route_only: false }]
        );
    }
}

#[test]
fn building_twice_gives_the_same_table_and_description() {
    let build = || {
        let modules = vec![module("AppModule", &["TodoModule"], &["AppController"]), module("TodoModule", &[], &["TodoController"])];
        let controllers = vec![app_controller(), todo_controller()];
        link(&modules, &controllers, "AppModule").unwrap().into_router(&mut ()).unwrap()
    };
    let first = build();
    let second = build();
    assert_eq!(table(&first), table(&second));
    assert_eq!(described(&first), described(&second));
    assert_eq!(first.components(), second.components());
}

#[test]
fn a_diamond_import_mounts_the_shared_controller_twice() {
    let modules = vec![
        module("Root", &["A", "C"], &[]),
        module("A", &["B"], &[]),
        module("B", &[], &["TodoController"]),
        module("C", &["B"], &[]),
    ];
    let graph = link(&modules, &vec![todo_controller()], "Root").unwrap();
    let router = graph.into_router(&mut ()).unwrap();
    assert_eq!(router.routes().len(), 10);
    let paths: Vec<String> = router.routes().iter().map(|r| r.path.clone()).collect();
    assert_eq!(paths[..5], paths[5..]);
    assert_eq!(paths[0], "/todo");
    assert_eq!(paths[1], "/todo/{id}");
    assert_eq!(router.paths().len(), 2);
    assert_eq!(router.components().schemas.len(), 3);
}

#[test]
fn a_cyclic_declaration_does_not_start() {
    let modules = vec![
        module("Root", &["A"], &["AppController"]),
        module("A", &["B"], &[]),
        module("B", &["Root"], &["TodoController"]),
    ];
    let graph = link(&modules, &vec![app_controller(), todo_controller()], "Root").unwrap();
    assert_eq!(graph.into_router(&mut ()).err(), Some(Error::CyclicModuleImport { trace: vec![0, 1, 2, 0] }));
}

#[test]
fn conflicting_schemas_of_two_controllers_do_not_start() {
    let other = controller(
        "OtherController",
        "/other",
        vec![handler("read", "get", None, vec![schema("TodoEntity", "{\"type\":\"string\"}")])],
        None,
    );
    let modules = vec![module("Root", &[], &["TodoController", "OtherController"])];
    let graph = link(&modules, &vec![todo_controller(), other], "Root").unwrap();
    assert_eq!(
        graph.into_router(&mut ()).err(),
        Some(Error::SchemaDefinitionConflict { name: "TodoEntity".to_string() })
    );
}

#[test]
fn the_context_is_handed_through_untouched() {
    let modules = vec![module("Root", &[], &["AppController"])];
    let graph = link(&modules, &vec![app_controller()], "Root").unwrap();
    let mut context = vec![1, 2, 3];
    let router = graph.into_router(&mut context).unwrap();
    assert_eq!(context, vec![1, 2, 3]);
    assert_eq!(router.routes().len(), 1);
}

#[test]
fn names_that_are_not_declared_are_reported() {
    let controllers = vec![app_controller()];
    assert_eq!(
        link(&vec![module("Root", &[], &[])], &controllers, "Other").err(),
        Some(Error::UnknownName { name: "Other".to_string() })
    );
    assert_eq!(
        link(&vec![module("Root", &["Missing"], &["Gone"])], &controllers, "Root").err(),
        Some(Error::UnknownName { name: "Missing".to_string() })
    );
    assert_eq!(
        link(&vec![module("Root", &[], &["AppController", "Gone"])], &controllers, "Root").err(),
        Some(Error::UnknownName { name: "Gone".to_string() })
    );
    assert_eq!(
        link(&vec![module("Root", &["Leaf"], &[]), module("Leaf", &[], &["Gone"])], &controllers, "Root").err(),
        Some(Error::UnknownName { name: "Gone".to_string() })
    );
}

#[test]
fn a_controller_with_conflicting_schemas_does_not_link() {
    let broken = controller(
        "Broken",
        "/broken",
        vec![
            handler("a", "get", None, vec![schema("X", "1")]),
            handler("b", "post", None, vec![schema("X", "2")]),
        ],
        None,
    );
    assert_eq!(
        link(&vec![module("Root", &[], &["Broken"])], &vec![broken], "Root").err(),
        Some(Error::SchemaDefinitionConflict { name: "X".to_string() })
    );
}

#[test]
fn names_are_looked_up_in_declaration_order() {
    let modules = vec![module("A", &[], &[]), module("B", &["A", "B"], &["TodoController"]), module("A", &["B"], &[])];
    let controllers = vec![app_controller(), todo_controller(), app_controller()];
    assert_eq!(find_module(&modules, "A"), Some(0));
    assert_eq!(find_module(&modules, "B"), Some(1));
    assert_eq!(find_module(&modules, "C"), None);
    assert_eq!(find_controller(&controllers, "AppController"), Some(0));
    assert_eq!(find_controller(&controllers, "TodoController"), Some(1));
    assert_eq!(find_controller(&controllers, "Other"), None);
    let details = link_module(&modules[1], &modules, &controllers).unwrap();
    assert_eq!(details.imports, vec![0, 1]);
    assert_eq!(details.controllers.len(), 1);
    assert_eq!(details.controllers[0].path, "/todo");
    assert_eq!(details.controllers[0].return_.routes().len(), 5);
    let graph = link(&modules, &controllers, "B").unwrap();
    assert_eq!(graph.root(), 1);
    assert_eq!(graph.modules()[2].imports, vec![1]);
}

#[test]
fn contributions_are_mounted_in_order_under_their_paths() {
    let users = Router::new()
        .route("/", MethodRouter::new().on_defined(MethodFilter::get(), "users".to_string(), Operation::default(), vec![]))
        .unwrap();
    let todos = Router::new()
        .route("/{id}", MethodRouter::new().on_defined(MethodFilter::get(), "todo".to_string(), Operation::default(), vec![]))
        .unwrap();
    let first = ControllerDetails { path: "/users/".to_string(), return_: users };
    let second = ControllerDetails { path: "todo".to_string(), return_: todos };
    let router = mount_contributions(&vec![&second, &first, &second]).unwrap();
    assert_eq!(
        table(&router),
        vec![
            ("/todo/{id}".to_string(), MethodFilter::get(), "todo".to_string()),
            ("/users".to_string(), MethodFilter::get(), "users".to_string()),
            ("/todo/{id}".to_string(), MethodFilter::get(), "todo".to_string()),
        ]
    );
    assert!(mount_contributions(&vec![]).unwrap().routes().is_empty());
}

#[test]
fn a_graph_of_routers_turns_into_one_router() {
    let leaf = Router::new()
        .route("/x", MethodRouter::new().on_defined(MethodFilter::put(), "x".to_string(), Operation::default(), vec![]))
        .unwrap();
    let graph = ModuleGraph::new(
        vec![
            ModuleDetails { imports: vec![1, 1], controllers: vec![], middlewares: vec!["log".to_string()] },
            ModuleDetails {
                imports: vec![],
                controllers: vec![ControllerDetails { path: "/leaf".to_string(), return_: leaf }],
                middlewares: vec![],
            },
        ],
        0,
    )
    .unwrap();
    let router = graph.into_router(&mut 7u8).unwrap();
    assert_eq!(
        table(&router),
        vec![
            ("/leaf/x".to_string(), MethodFilter::put(), "x".to_string()),
            ("/leaf/x".to_string(), MethodFilter::put(), "x".to_string()),
        ]
    );
    assert_eq!(described(&router).len(), 1);
}
