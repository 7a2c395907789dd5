use restify::components::Components;
use restify::config::Config;
use restify::controller::{
    collect_routes, read_controller_options, Controller, ControllerArgs, ControllerDecl,
    ControllerDetails,
};
use restify::error::Error;
use restify::method::OperationType;
use restify::method_routing::Layer;
use restify::models::{NamedSchema, Operation, ReferenceOr, Schema};
use restify::syntax::{
    Attribute, Expr, ImplItem, ImplItemFn, ItemImpl, ListItem, Meta, MetaList, MetaNameValue,
    Signature,
};

fn attribute(name: &str, meta: Meta) -> Attribute {
    Attribute { name: name.to_string(), meta }
}

fn option(name: &str, value: Expr) -> ListItem {
    ListItem::NameValue(MetaNameValue { name: name.to_string(), value })
}

fn list(name: &str, items: &[&str]) -> ListItem {
    ListItem::List(MetaList { name: name.to_string(), items: items.iter().map(|s| s.to_string()).collect() })
}

fn literal(text: &str) -> ListItem {
    ListItem::Literal(text.to_string())
}

fn schema(name: &str, document: &str) -> Components {
    Components {
        schemas: vec![NamedSchema {
            name: name.to_string(),
            schema: ReferenceOr::Object(Schema { document: document.to_string() }),
        }],
        parameters: vec![],
        security_schemes: vec![],
    }
}

fn handler(name: &str, attrs: Vec<Attribute>, components: Vec<Components>) -> ImplItem {
    ImplItem::Fn(ImplItemFn {
        attrs,
        sig: Signature { ident: name.to_string(), has_receiver: false, has_output: true, is_async: true },
        operation: Operation::default(),
        components,
    })
}

fn todo_block() -> ItemImpl {
    ItemImpl {
        attrs: vec![],
        items: vec![
            handler("get_all", vec![attribute("get", Meta::Path)], vec![schema("Todo", "{}")]),
            ImplItem::Other,
            handler("get_one", vec![attribute("get", Meta::List(vec![literal("/{id}")]))], vec![schema("Todo", "{}")]),
            handler("helper", vec![attribute("inline", Meta::Path)], vec![]),
            handler("create", vec![attribute("post", Meta::Path)], vec![]),
            handler(
                "update",
                vec![attribute("patch", Meta::List(vec![literal("/{id}"), option("wrap", Expr::Path("Audit".to_string()))]))],
                vec![],
            ),
            handler("delete", vec![attribute("delete", Meta::List(vec![literal("/{id}")]))], vec![]),
        ],
        self_ty: "TodoController".to_string(),
        implements_trait: false,
    }
}

#[test]
fn controller_arguments_start_with_the_mount_path() {
    let args = ControllerArgs::parse(vec![literal("/todo"), option("wrap", Expr::Path("Log".to_string()))]).unwrap();
    assert_eq!(args.path, "/todo");
    assert_eq!(args.options, vec![option("wrap", Expr::Path("Log".to_string()))]);
    assert_eq!(ControllerArgs::parse(vec![]), Err(Error::MissingPath));
    assert_eq!(
        ControllerArgs::parse(vec![option("wrap", Expr::Path("Log".to_string()))]),
        Err(Error::MissingPath)
    );
    assert_eq!(
        ControllerArgs::parse(vec![literal("/a"), option("wrap", Expr::Path("Log".to_string())), literal("/b")]),
        Err(Error::MultiplePathsSpecified)
    );
}

#[test]
fn controller_options_are_wrap_and_state() {
    let (wrappers, state) = read_controller_options(&vec![
        option("wrap", Expr::Other("TraceLayer::new_for_http()".to_string())),
        list("state", &["AppState"]),
        option("wrap", Expr::Path("Auth".to_string())),
        list("state", &["Arc<Other>"]),
    ])
    .unwrap();
    assert_eq!(
        wrappers,
        vec![Expr::Other("TraceLayer::new_for_http()".to_string()), Expr::Path("Auth".to_string())]
    );
    assert_eq!(state, Some("Arc<Other>".to_string()));
    assert_eq!(read_controller_options(&vec![]), Ok((vec![], None)));
}

#[test]
fn faults_of_controller_options() {
    assert_eq!(
        read_controller_options(&vec![option("guard", Expr::Path("x".to_string()))]),
        Err(Error::UnknownAttributeKey)
    );
    assert_eq!(read_controller_options(&vec![list("wrap", &["x"])]), Err(Error::MalformedOption));
    assert_eq!(
        read_controller_options(&vec![option("state", Expr::Path("AppState".to_string()))]),
        Err(Error::MalformedOption)
    );
    assert_eq!(read_controller_options(&vec![list("state", &["fn ("])]), Err(Error::InvalidType));
    assert_eq!(read_controller_options(&vec![list("state", &["A", "B"])]), Err(Error::InvalidType));
    assert_eq!(read_controller_options(&vec![list("state", &[])]), Err(Error::InvalidType));
    assert_eq!(read_controller_options(&vec![ListItem::Word("wrap".to_string())]), Err(Error::MalformedOption));
    assert_eq!(read_controller_options(&vec![ListItem::Word("other".to_string())]), Err(Error::UnknownAttributeKey));
    assert_eq!(read_controller_options(&vec![literal("/late")]), Err(Error::MultiplePathsSpecified));
    assert_eq!(
        read_controller_options(&vec![list("state", &["fn ("]), option("guard", Expr::Path("x".to_string()))]),
        Err(Error::InvalidType)
    );
}

#[test]
fn routes_are_collected_in_declaration_order() {
    let (routes, left, places) = collect_routes(todo_block().items).unwrap();
    assert_eq!(places, vec![0, 2, 4, 5, 6]);
    assert_eq!(routes.iter().map(|r| r.attribute).collect::<Vec<_>>(), vec![0, 0, 0, 0, 0]);
    let names: Vec<String> = routes.iter().map(|r| r.name.clone()).collect();
    assert_eq!(
        names,
        vec![
            "get_all".to_string(),
            "get_one".to_string(),
            "create".to_string(),
            "update".to_string(),
            "delete".to_string(),
        ]
    );
    assert_eq!(left.len(), 7);
    assert_eq!(left[1], ImplItem::Other);
    assert_eq!(left[3], handler("helper", vec![attribute("inline", Meta::Path)], vec![]));
    assert_eq!(left[0], handler("get_all", vec![], vec![schema("Todo", "{}")]));
}

#[test]
fn the_first_faulty_item_stops_the_collection() {
    let items = vec![
        handler("fine", vec![attribute("get", Meta::Path)], vec![]),
        handler("both", vec![attribute("get", Meta::Path), attribute("put", Meta::Path)], vec![]),
        handler("meta", vec![attribute("get", Meta::NameValue(Expr::Lit("x".to_string())))], vec![]),
    ];
    assert_eq!(collect_routes(items).err(), Some(Error::MultipleMethodsOnHandler));
}

#[test]
fn a_controller_is_read_from_its_block() {
    let args = ControllerArgs {
        path: "/todo".to_string(),
        options: vec![option("wrap", Expr::Other("TraceLayer::new_for_http()".to_string()))],
    };
    let controller = ControllerDecl::new(todo_block(), args, &Config::default()).unwrap();
    assert_eq!(controller.path, "/todo");
    assert_eq!(controller.type_, "TodoController");
    assert_eq!(controller.state, None);
    assert_eq!(controller.routes.len(), 5);
    assert_eq!(controller.items.len(), 7);
    assert_eq!(controller.wrappers, vec![Expr::Other("TraceLayer::new_for_http()".to_string())]);
}

#[test]
fn a_controller_takes_its_state_from_the_settings_when_it_names_none() {
    let config = Config::new(Some("AppState".to_string()), None).unwrap();
    let plain = restify::controller::expand(todo_block(), vec![literal("/todo")], &config).unwrap();
    assert_eq!(plain.state, Some("AppState".to_string()));
    let own = restify::controller::expand(todo_block(), vec![literal("/todo"), list("state", &["Own"])], &config).unwrap();
    assert_eq!(own.state, Some("Own".to_string()));
    let broken = Config { state: Some("fn (".to_string()), module_context: None };
    assert_eq!(
        restify::controller::expand(todo_block(), vec![literal("/todo")], &broken).err(),
        Some(Error::InvalidType)
    );
    assert!(restify::controller::expand(todo_block(), vec![literal("/todo"), list("state", &["Own"])], &broken).is_ok());
}

#[test]
fn faults_of_a_controller_block() {
    let mut with_trait = todo_block();
    with_trait.implements_trait = true;
    assert_eq!(
        restify::controller::expand(with_trait, vec![], &Config::default()).err(),
        Some(Error::UnsupportedImplTrait)
    );
    assert_eq!(
        restify::controller::expand(todo_block(), vec![], &Config::default()).err(),
        Some(Error::MissingPath)
    );
    assert_eq!(
        restify::controller::expand(todo_block(), vec![literal("/a"), literal("/b")], &Config::default()).err(),
        Some(Error::MultiplePathsSpecified)
    );
    let mut faulty = todo_block();
    faulty.items.push(handler("both", vec![attribute("get", Meta::Path), attribute("put", Meta::Path)], vec![]));
    assert_eq!(
        restify::controller::expand(faulty, vec![literal("/todo"), option("guard", Expr::Path("x".to_string()))], &Config::default())
            .err(),
        Some(Error::MultipleMethodsOnHandler)
    );
    assert_eq!(
        restify::controller::expand(todo_block(), vec![literal("/todo"), option("guard", Expr::Path("x".to_string()))], &Config::default())
            .err(),
        Some(Error::UnknownAttributeKey)
    );
}

#[test]
fn a_configured_controller_mounts_its_routes_in_order() {
    let controller = restify::controller::expand(
        todo_block(),
        vec![
            literal("/todo"),
            option("wrap", Expr::Other("TraceLayer::new_for_http()".to_string())),
            option("wrap", Expr::Path("Auth".to_string())),
        ],
        &Config::default(),
    )
    .unwrap();
    let details = controller.configure().unwrap();
    assert_eq!(details.path, "/todo");
    let router = details.return_;
    let table: Vec<(String, String)> =
        router.routes().iter().map(|r| (r.path.clone(), r.method.inner[0].handler.clone())).collect();
    assert_eq!(
        table,
        vec![
            ("/".to_string(), "get_all".to_string()),
            ("/{id}".to_string(), "get_one".to_string()),
            ("/".to_string(), "create".to_string()),
            ("/{id}".to_string(), "update".to_string()),
            ("/{id}".to_string(), "delete".to_string()),
        ]
    );
    let outer = vec![
        Layer { name: "TraceLayer::new_for_http()".to_string(), route_only: false },
        Layer { name: "Auth".to_string(), route_only: false },
    ];
    assert_eq!(router.routes()[0].method.inner[0].layers, outer);
    assert_eq!(
        router.routes()[3].method.inner[0].layers,
        vec![
            Layer { name: "Audit".to_string(), route_only: false },
            Layer { name: "TraceLayer::new_for_http()".to_string(), route_only: false },
            Layer { name: "Auth".to_string(), route_only: false },
        ]
    );
    assert_eq!(router.paths().len(), 2);
    let root = router.paths().get("/").unwrap();
    assert_eq!(root.operations.get_index(0).unwrap().0, OperationType::Get);
    assert_eq!(root.operations.get_index(1).unwrap().0, OperationType::Post);
    assert_eq!(router.components().schemas.len(), 1);
}

#[test]
fn a_controller_with_conflicting_schemas_does_not_configure() {
    let block = ItemImpl {
        attrs: vec![],
        items: vec![
            handler("a", vec![attribute("get", Meta::Path)], vec![schema("Todo", "one")]),
            handler("b", vec![attribute("post", Meta::Path)], vec![schema("Todo", "two")]),
        ],
        self_ty: "Broken".to_string(),
        implements_trait: false,
    };
    let controller = restify::controller::expand(block, vec![literal("/broken")], &Config::default()).unwrap();
    assert_eq!(
        controller.configure().err(),
        Some(Error::SchemaDefinitionConflict { name: "Todo".to_string() })
    );
}

struct Fixed;

impl Controller for Fixed {
    type Context = u32;
    type Return = &'static str;

    fn configure(ctx: &mut u32) -> ControllerDetails<&'static str> {
        *ctx += 1;
        ControllerDetails { path: "/fixed".to_string(), return_: "routes" }
    }
}

#[test]
fn a_controller_type_configures_itself() {
    let mut calls = 0;
    let details = Fixed::configure(&mut calls);
    assert_eq!(details.path, "/fixed");
    assert_eq!(details.return_, "routes");
    assert_eq!(calls, 1);
}
