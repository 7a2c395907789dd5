use restify::controller::ControllerDetails;
use restify::error::Error;
use restify::module::{configure_module_recursive, resolve_module, Module, ModuleDetails, ModuleGraph};

fn controller(path: &str, label: &'static str) -> ControllerDetails<&'static str> {
    ControllerDetails { path: path.to_string(), return_: label }
}

fn module(imports: Vec<usize>, controllers: Vec<ControllerDetails<&'static str>>) -> ModuleDetails<&'static str> {
    ModuleDetails { imports, controllers, middlewares: vec![] }
}

fn labels(found: &[&ControllerDetails<&'static str>]) -> Vec<&'static str> {
    found.iter().map(|c| c.return_).collect()
}

#[test]
fn a_module_contributes_its_own_controllers_before_those_of_its_imports() {
    // M1 owns C1 and C2 and imports nothing; M2 imports M1 and owns C3.
    let m1 = module(vec![], vec![controller("/one", "C1"), controller("/two", "C2")]);
    let m2 = module(vec![0], vec![controller("/three", "C3")]);
    let graph = ModuleGraph::new(vec![m1, m2], 1).unwrap();
    let found = resolve_module(&graph).unwrap();
    assert_eq!(labels(&found), vec!["C3", "C1", "C2"]);
}

#[test]
fn declaration_order_is_kept_at_every_level() {
    let graph = ModuleGraph::new(
        vec![
            module(vec![2, 1], vec![controller("/r1", "R1"), controller("/r2", "R2")]),
            module(vec![], vec![controller("/a1", "A1"), controller("/a2", "A2")]),
            module(vec![3], vec![controller("/b1", "B1")]),
            module(vec![], vec![controller("/c1", "C1"), controller("/c2", "C2")]),
        ],
        0,
    )
    .unwrap();
    let found = resolve_module(&graph).unwrap();
    assert_eq!(labels(&found), vec!["R1", "R2", "B1", "C1", "C2", "A1", "A2"]);
    let paths: Vec<&str> = found.iter().map(|c| c.path.as_str()).collect();
    assert_eq!(paths, vec!["/r1", "/r2", "/b1", "/c1", "/c2", "/a1", "/a2"]);
}

#[test]
fn resolving_twice_gives_the_same_sequence() {
    let graph = ModuleGraph::new(
        vec![
            module(vec![1, 2], vec![controller("/r", "R")]),
            module(vec![2], vec![controller("/a", "A")]),
            module(vec![], vec![controller("/b", "B")]),
        ],
        0,
    )
    .unwrap();
    let first = labels(&resolve_module(&graph).unwrap());
    let second = labels(&resolve_module(&graph).unwrap());
    assert_eq!(first, second);
    assert_eq!(first, vec!["R", "A", "B", "B"]);
}

#[test]
fn a_module_imported_along_two_ways_contributes_twice() {
    // The root imports A and C; both import B.
    let root = module(vec![1, 3], vec![controller("/", "Root")]);
    let a = module(vec![2], vec![controller("/a", "A")]);
    let b = module(vec![], vec![controller("/b1", "B1"), controller("/b2", "B2")]);
    let c = module(vec![2], vec![controller("/c", "C")]);
    let graph = ModuleGraph::new(vec![root, a, b, c], 0).unwrap();
    let found = resolve_module(&graph).unwrap();
    assert_eq!(labels(&found), vec!["Root", "A", "B1", "B2", "C", "B1", "B2"]);
    assert_eq!(found[2].path, "/b1");
    assert_eq!(found[5].path, "/b1");
}

#[test]
fn a_module_that_imports_itself_is_a_cycle() {
    let graph = ModuleGraph::new(vec![module(vec![0], vec![controller("/", "Root")])], 0).unwrap();
    assert_eq!(resolve_module(&graph).err(), Some(Error::CyclicModuleImport { trace: vec![0, 0] }));
}

#[test]
fn a_module_that_imports_itself_through_others_is_a_cycle() {
    let graph = ModuleGraph::new(
        vec![
            module(vec![1], vec![controller("/r", "R")]),
            module(vec![2], vec![controller("/a", "A")]),
            module(vec![3, 1], vec![controller("/b", "B")]),
            module(vec![], vec![controller("/c", "C")]),
        ],
        0,
    )
    .unwrap();
    assert_eq!(resolve_module(&graph).err(), Some(Error::CyclicModuleImport { trace: vec![0, 1, 2, 1] }));
}

#[test]
fn a_cycle_behind_a_sound_import_is_found() {
    let graph = ModuleGraph::new(
        vec![
            module(vec![1, 2], vec![]),
            module(vec![], vec![controller("/a", "A")]),
            module(vec![0], vec![controller("/b", "B")]),
        ],
        0,
    )
    .unwrap();
    assert_eq!(resolve_module(&graph).err(), Some(Error::CyclicModuleImport { trace: vec![0, 2, 0] }));
}

#[test]
fn a_cycle_that_the_root_does_not_reach_is_no_fault() {
    let graph = ModuleGraph::new(
        vec![
            module(vec![1], vec![controller("/r", "R")]),
            module(vec![], vec![controller("/a", "A")]),
            module(vec![3], vec![]),
            module(vec![2], vec![]),
        ],
        0,
    )
    .unwrap();
    assert_eq!(labels(&resolve_module(&graph).unwrap()), vec!["R", "A"]);
}

#[test]
fn a_long_chain_resolves() {
    let n = 200;
    let mut modules = Vec::new();
    for i in 0..n {
        let imports = if i + 1 < n { vec![i + 1] } else { vec![] };
        modules.push(module(imports, vec![controller("/x", "X")]));
    }
    let graph = ModuleGraph::new(modules, 0).unwrap();
    assert_eq!(resolve_module(&graph).unwrap().len(), n);
}

#[test]
fn a_graph_needs_its_root_and_its_imports() {
    assert!(ModuleGraph::<&'static str>::new(vec![], 0).is_none());
    assert!(ModuleGraph::new(vec![module(vec![], vec![])], 1).is_none());
    assert!(ModuleGraph::new(vec![module(vec![1], vec![])], 0).is_none());
    assert!(ModuleGraph::new(vec![module(vec![], vec![]), module(vec![0, 2], vec![])], 0).is_none());
    let graph = ModuleGraph::new(vec![module(vec![1], vec![]), module(vec![], vec![])], 1).unwrap();
    assert_eq!(graph.root(), 1);
    assert_eq!(graph.modules().len(), 2);
    assert_eq!(graph.modules()[0].imports, vec![1]);
}

#[test]
fn resolution_of_one_module_continues_the_stack() {
    let modules = vec![
        module(vec![1], vec![controller("/r", "R")]),
        module(vec![], vec![controller("/a", "A")]),
    ];
    let mut stack = vec![1];
    let mut found = Vec::new();
    let result = configure_module_recursive(&modules, 0, &mut stack, &mut found);
    assert_eq!(result, Err(Error::CyclicModuleImport { trace: vec![1, 0, 1] }));
    assert_eq!(stack, vec![1]);
    let mut empty = Vec::new();
    let mut found = Vec::new();
    assert_eq!(configure_module_recursive(&modules, 0, &mut empty, &mut found), Ok(()));
    assert_eq!(labels(&found), vec!["R", "A"]);
    assert!(empty.is_empty());
}

struct Declared {
    imports: Vec<usize>,
    label: &'static str,
}

impl Module for Declared {
    type Context = Vec<&'static str>;
    type ControllerReturn = &'static str;

    fn details(&self, ctx: &mut Vec<&'static str>) -> ModuleDetails<&'static str> {
        ctx.push(self.label);
        ModuleDetails {
            imports: self.imports.clone(),
            controllers: vec![controller("/", self.label)],
            middlewares: vec![],
        }
    }
}

#[test]
fn modules_declare_themselves_once_and_in_order() {
    let modules = vec![
        Declared { imports: vec![1, 2], label: "root" },
        Declared { imports: vec![2], label: "left" },
        Declared { imports: vec![], label: "leaf" },
    ];
    let mut seen = Vec::new();
    let graph = ModuleGraph::declare(&modules, &mut seen, 0).unwrap();
    assert_eq!(seen, vec!["root", "left", "leaf"]);
    assert_eq!(labels(&resolve_module(&graph).unwrap()), vec!["root", "left", "leaf", "leaf"]);
    let mut seen = Vec::new();
    assert!(ModuleGraph::declare(&modules, &mut seen, 3).is_none());
}
