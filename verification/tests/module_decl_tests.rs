use restify::config::Config;
use restify::error::Error;
use restify::module_decl::{expand, ModuleDecl};
use restify::syntax::{Attribute, DeriveInput, Expr, ListItem, Meta, MetaList, MetaNameValue};
use restify::type_syntax::is_type;

fn list(name: &str, items: &[&str]) -> ListItem {
    ListItem::List(MetaList { name: name.to_string(), items: items.iter().map(|s| s.to_string()).collect() })
}

fn module_attribute(items: Vec<ListItem>) -> Attribute {
    Attribute { name: "module".to_string(), meta: Meta::List(items) }
}

fn input(attrs: Vec<Attribute>) -> DeriveInput {
    DeriveInput { ident: "AppModule".to_string(), attrs }
}

#[test]
fn a_module_is_read_from_its_attributes() {
    let module = expand(
        input(vec![
            Attribute { name: "derive".to_string(), meta: Meta::List(vec![ListItem::Word("Module".to_string())]) },
            module_attribute(vec![list("imports", &["TodoModule", "UserModule"]), list("controllers", &["AppController"])]),
            module_attribute(vec![
                list("imports", &["AuditModule"]),
                list("middlewares", &["Self::hello_middleware"]),
                list("state", &["AppState"]),
                list("context", &["Registry"]),
            ]),
            Attribute { name: "module".to_string(), meta: Meta::Path },
        ]),
        &Config::default(),
    )
    .unwrap();
    assert_eq!(
        module,
        ModuleDecl {
            ident: "AppModule".to_string(),
            imports: vec!["TodoModule".to_string(), "UserModule".to_string(), "AuditModule".to_string()],
            controllers: vec!["AppController".to_string()],
            middlewares: vec!["Self::hello_middleware".to_string()],
            state: Some("AppState".to_string()),
            context: Some("Registry".to_string()),
        }
    );
}

#[test]
fn a_module_without_attributes_declares_nothing() {
    let module = expand(input(vec![]), &Config::default()).unwrap();
    assert_eq!(
        module,
        ModuleDecl {
            ident: "AppModule".to_string(),
            imports: vec![],
            controllers: vec![],
            middlewares: vec![],
            state: None,
            context: None,
        }
    );
}

#[test]
fn a_module_takes_missing_bindings_from_the_settings() {
    let config = Config::new(Some("DefaultState".to_string()), Some("DefaultContext".to_string())).unwrap();
    let plain = expand(input(vec![]), &config).unwrap();
    assert_eq!(plain.state, Some("DefaultState".to_string()));
    assert_eq!(plain.context, Some("DefaultContext".to_string()));
    let own = expand(input(vec![module_attribute(vec![list("state", &["Own"])])]), &config).unwrap();
    assert_eq!(own.state, Some("Own".to_string()));
    assert_eq!(own.context, Some("DefaultContext".to_string()));
}

#[test]
fn the_last_binding_of_a_module_wins() {
    let module = expand(
        input(vec![module_attribute(vec![list("state", &["First"]), list("state", &["Second"])])]),
        &Config::default(),
    )
    .unwrap();
    assert_eq!(module.state, Some("Second".to_string()));
}

#[test]
fn faults_of_a_module_declaration() {
    let config = Config::default();
    assert_eq!(
        expand(input(vec![module_attribute(vec![list("routes", &["x"])])]), &config),
        Err(Error::UnknownAttributeKey)
    );
    assert_eq!(
        expand(input(vec![module_attribute(vec![ListItem::Word("imports".to_string())])]), &config),
        Err(Error::MalformedOption)
    );
    assert_eq!(
        expand(
            input(vec![module_attribute(vec![ListItem::NameValue(MetaNameValue {
                name: "state".to_string(),
                value: Expr::Path("AppState".to_string()),
            })])]),
            &config
        ),
        Err(Error::MalformedOption)
    );
    assert_eq!(
        expand(input(vec![module_attribute(vec![list("state", &["fn ("])])]), &config),
        Err(Error::InvalidType)
    );
    assert_eq!(
        expand(input(vec![module_attribute(vec![list("context", &["A", "B"])])]), &config),
        Err(Error::InvalidType)
    );
    assert_eq!(
        expand(
            input(vec![Attribute { name: "module".to_string(), meta: Meta::NameValue(Expr::Lit("x".to_string())) }]),
            &config
        ),
        Err(Error::UnsupportedMeta)
    );
    let broken = Config { state: None, module_context: Some("fn (".to_string()) };
    assert_eq!(expand(input(vec![]), &broken), Err(Error::InvalidType));
    assert!(expand(input(vec![module_attribute(vec![list("context", &["Own"])])]), &broken).is_ok());
}

#[test]
fn settings_have_to_name_types() {
    assert_eq!(Config::default(), Config { state: None, module_context: None });
    let config = Config::new(Some("crate::AppState".to_string()), Some("()".to_string())).unwrap();
    assert_eq!(config.state, Some("crate::AppState".to_string()));
    assert_eq!(config.module_context, Some("()".to_string()));
    assert!(config.check());
    assert_eq!(Config::new(Some("not a type!".to_string()), None), Err(Error::InvalidType));
    assert_eq!(Config::new(None, Some("".to_string())), Err(Error::InvalidType));
    assert!(Config::new(None, None).is_ok());
    assert!(!Config { state: Some("1 +".to_string()), module_context: None }.check());
}

#[test]
fn types_are_recognised_by_their_syntax() {
    assert!(is_type("AppState"));
    assert!(is_type("std::sync::Arc<Mutex<HashMap<String, u8>>>"));
    assert!(is_type("()"));
    assert!(is_type("&'static str"));
    assert!(!is_type(""));
    assert!(!is_type("fn ("));
    assert!(!is_type("let x = 1;"));
    assert!(!is_type("A B"));
}
