//! Declarative composition of an HTTP surface.
//!
//! An application declares modules that import other modules and own
//! controllers, and controllers that own routes. This library resolves such
//! a declaration into one ordered route table and one aggregated API
//! description:
//!
//! * [`route`] and [`controller`] read the declaration of a controller into
//!   its routes and configure it into a [`routing::Router`];
//! * [`module`] resolves a graph of modules, depth first and in declared
//!   order, into the contributions of its controllers, and finds cycles;
//! * [`routing`] keeps the route table and aggregates the description: it
//!   normalises paths, merges operations, names them ([`operation_id`]) and
//!   registers components ([`components`]);
//! * [`into_router`] puts the two together;
//! * [`module_decl`] and [`link`] read modules as they are declared and look
//!   up the names that they use; [`injectable`] decides how a declared
//!   extractor is implemented; [`config`] holds the default bindings.
//!
//! Handlers and middleware are known by name only. Nothing here accepts
//! connections or runs a handler: the resolved table is what a transport
//! mounts.

pub mod api_component;
pub mod components;
pub mod config;
pub mod controller;
pub mod definition_holder;
pub mod digest;
pub mod error;
pub mod error_component;
pub mod injectable;
pub mod into_router;
pub mod link;
pub mod method;
pub mod method_routing;
pub mod models;
pub mod module;
pub mod module_decl;
pub mod module_laws;
pub mod operation_id;
pub mod operation_map;
pub mod ordered;
pub mod path_item_definition;
pub mod paths;
pub mod pattern;
pub mod route;
pub mod routing;
pub mod schema_document;
pub mod simple;
pub mod syntax;
pub mod text;
pub mod type_syntax;

pub use api_component::ApiComponent;
pub use components::Components;
pub use config::Config;
pub use controller::{Controller, ControllerDetails};
pub use definition_holder::DefinitionHolder;
pub use error::Error;
pub use error_component::ApiErrorComponent;
pub use into_router::IntoRouter;
pub use method::{MethodFilter, MethodType, OperationType};
pub use method_routing::{on, MethodRouter};
pub use module::{resolve_module, Module, ModuleDetails, ModuleGraph};
pub use path_item_definition::PathItemDefinition;
pub use route::{MethodArgs, Route};
pub use routing::{RouteWrapper, Router};
