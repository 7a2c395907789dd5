//! From declarations to a graph: the names that modules use for what they
//! import and own are looked up among what is declared.

use vstd::prelude::*;
use vstd::string::*;
use crate::controller::{mounted_routes, ControllerDecl, ControllerDetails};
use crate::error::Error;
use crate::module::{ModuleDetails, ModuleGraph};
use crate::module_decl::ModuleDecl;
use crate::routing::{aggregated, contributions, Router};
use crate::text::same_text;

verus! {

/// The names of the modules `modules`, in order.
pub open spec fn module_names(modules: Seq<ModuleDecl>) -> Seq<Seq<char>> {
    modules.map_values(|m: ModuleDecl| m.ident@)
}

/// The names of the types of the controllers `controllers`, in order.
pub open spec fn controller_names(controllers: Seq<ControllerDecl>) -> Seq<Seq<char>> {
    controllers.map_values(|c: ControllerDecl| c.type_@)
}

/// Whether the controller `controller` configures: the schemas of its routes
/// do not conflict.
pub open spec fn configures(controller: ControllerDecl) -> bool {
    aggregated(contributions(mounted_routes(controller.routes@))) is Ok
}

/// Whether `place` is the place of the module called `name`.
pub open spec fn is_place_of(place: usize, name: Seq<char>, modules: Seq<ModuleDecl>) -> bool {
    module_names(modules).index_of_first(name) == Some(place as int)
}

/// Whether `owned` is the configured controller whose type is called `name`.
pub open spec fn is_configured(
    owned: ControllerDetails<Router>,
    name: Seq<char>,
    controllers: Seq<ControllerDecl>,
) -> bool {
    &&& controller_names(controllers).index_of_first(name) matches Some(at)
    &&& 0 <= at < controllers.len()
    &&& owned.path@ == controllers[at].path@
    &&& owned.return_@ == controllers[at].spec_table()
}

/// Whether the controller type called `name` is declared and configures.
pub open spec fn is_ready(name: Seq<char>, controllers: Seq<ControllerDecl>) -> bool {
    &&& controller_names(controllers).index_of_first(name) matches Some(at)
    &&& 0 <= at < controllers.len()
    &&& configures(controllers[at])
}

/// Whether `details` is what the module `module` declares among `modules`
/// and `controllers`: its imports are the places of the modules that it
/// names, and its controllers are the configured controllers that it names,
/// both in declared order.
pub open spec fn is_linked(
    details: ModuleDetails<Router>,
    module: ModuleDecl,
    modules: Seq<ModuleDecl>,
    controllers: Seq<ControllerDecl>,
) -> bool {
    &&& details.middlewares.deep_view() == module.middlewares.deep_view()
    &&& details.imports@.len() == module.imports@.len()
    &&& forall|k: int|
        0 <= k < module.imports@.len() ==> is_place_of(
            #[trigger] details.imports@[k],
            module.imports@[k]@,
            modules,
        )
    &&& details.controllers@.len() == module.controllers@.len()
    &&& forall|k: int|
        0 <= k < module.controllers@.len() ==> is_configured(
            #[trigger] details.controllers@[k],
            module.controllers@[k]@,
            controllers,
        )
}

/// Whether every name that the module `module` uses is declared, and every
/// controller that it owns configures.
pub open spec fn is_linkable(
    module: ModuleDecl,
    modules: Seq<ModuleDecl>,
    controllers: Seq<ControllerDecl>,
) -> bool {
    &&& forall|k: int|
        0 <= k < module.imports@.len() ==> module_names(modules).contains(
            #[trigger] module.imports@[k]@,
        )
    &&& forall|k: int|
        0 <= k < module.controllers@.len() ==> is_ready(
            #[trigger] module.controllers@[k]@,
            controllers,
        )
}

/// Whether `e` is a fault of linking among `modules` and `controllers`: a
/// name that is declared neither as a module nor as a controller, or the
/// conflict of a declared controller that does not configure.
pub open spec fn is_link_fault(
    e: Error,
    modules: Seq<ModuleDecl>,
    controllers: Seq<ControllerDecl>,
) -> bool {
    match e {
        Error::UnknownName { name } => !module_names(modules).contains(name@)
            || !controller_names(controllers).contains(name@),
        Error::SchemaDefinitionConflict { name } => exists|at: int|
            0 <= at < controllers.len() && aggregated(
                contributions(mounted_routes((#[trigger] controllers[at]).routes@)),
            ) == Err::<crate::routing::DocumentView, Seq<char>>(name@),
        _ => false,
    }
}

/// Finds the first module that is called `name`.
pub fn find_module(modules: &Vec<ModuleDecl>, name: &str) -> (r: Option<usize>)
    ensures
        match r {
            Some(i) => is_place_of(i, name@, modules@) && i < modules.len(),
            None => !module_names(modules@).contains(name@),
        },
{
    let ghost names = module_names(modules@);
    let mut i: usize = 0;
    while i < modules.len()
        invariant
            i <= modules.len(),
            names == module_names(modules@),
            forall|j: int| 0 <= j < i ==> names[j] != name@,
        decreases modules.len() - i,
    {
        if same_text(modules[i].ident.as_str(), name) {
            proof {
                assert(names[i as int] == name@);
                names.index_of_first_ensures(name@);
                let found = names.index_of_first(name@)->Some_0;
                if found > i {
                    assert(names[i as int] != name@);
                }
            }
            return Some(i);
        }
        i = i + 1;
    }
    None
}

/// Finds the first controller whose type is called `name`.
pub fn find_controller(controllers: &Vec<ControllerDecl>, name: &str) -> (r: Option<usize>)
    ensures
        match r {
            Some(i) => controller_names(controllers@).index_of_first(name@) == Some(i as int) && i
                < controllers.len(),
            None => !controller_names(controllers@).contains(name@),
        },
{
    let ghost names = controller_names(controllers@);
    let mut i: usize = 0;
    while i < controllers.len()
        invariant
            i <= controllers.len(),
            names == controller_names(controllers@),
            forall|j: int| 0 <= j < i ==> names[j] != name@,
        decreases controllers.len() - i,
    {
        if same_text(controllers[i].type_.as_str(), name) {
            proof {
                assert(names[i as int] == name@);
                names.index_of_first_ensures(name@);
                let found = names.index_of_first(name@)->Some_0;
                if found > i {
                    assert(names[i as int] != name@);
                }
            }
            return Some(i);
        }
        i = i + 1;
    }
    None
}

/// Looks up what the module `module` names. Fails with the first name that is
/// not declared, the imports before the controllers, or with the conflict of
/// the first controller that does not configure.
#[verifier::loop_isolation(false)]
pub fn link_module(
    module: &ModuleDecl,
    modules: &Vec<ModuleDecl>,
    controllers: &Vec<ControllerDecl>,
) -> (r: Result<ModuleDetails<Router>, Error>)
    ensures
        match r {
            Ok(details) => is_linkable(*module, modules@, controllers@) && is_linked(
                details,
                *module,
                modules@,
                controllers@,
            ),
            Err(e) => {
                &&& !is_linkable(*module, modules@, controllers@)
                &&& is_link_fault(e, modules@, controllers@)
            },
        },
{
    let mut imports: Vec<usize> = Vec::new();
    let mut k: usize = 0;
    while k < module.imports.len()
        invariant
            k <= module.imports.len(),
            imports@.len() == k,
            forall|j: int|
                0 <= j < k ==> is_place_of(#[trigger] imports@[j], module.imports@[j]@, modules@),
            forall|j: int|
                0 <= j < k ==> module_names(modules@).contains(#[trigger] module.imports@[j]@),
        decreases module.imports.len() - k,
    {
        proof {
            module_names(modules@).index_of_first_ensures(module.imports@[k as int]@);
        }
        match find_module(modules, module.imports[k].as_str()) {
            Some(place) => {
                imports.push(place);
            },
            None => {
                assert(!module_names(modules@).contains(module.imports@[k as int]@));
                return Err(Error::UnknownName { name: module.imports[k].clone() });
            },
        }
        k = k + 1;
    }
    let mut owned: Vec<ControllerDetails<Router>> = Vec::new();
    let mut c: usize = 0;
    while c < module.controllers.len()
        invariant
            c <= module.controllers.len(),
            owned@.len() == c,
            forall|j: int|
                0 <= j < c ==> is_configured(
                    #[trigger] owned@[j],
                    module.controllers@[j]@,
                    controllers@,
                ),
            forall|j: int|
                0 <= j < c ==> is_ready(#[trigger] module.controllers@[j]@, controllers@),
        decreases module.controllers.len() - c,
    {
        let ghost name = module.controllers@[c as int]@;
        proof {
            controller_names(controllers@).index_of_first_ensures(name);
        }
        match find_controller(controllers, module.controllers[c].as_str()) {
            Some(at) => match controllers[at].configure() {
                Ok(details) => {
                    assert(is_configured(details, name, controllers@));
                    assert(is_ready(name, controllers@));
                    owned.push(details);
                },
                Err(e) => {
                    assert(!is_ready(name, controllers@));
                    return Err(e);
                },
            },
            None => {
                assert(!is_ready(name, controllers@));
                return Err(Error::UnknownName { name: module.controllers[c].clone() });
            },
        }
        c = c + 1;
    }
    let middlewares = module.middlewares.clone();
    assert(middlewares.deep_view() =~= module.middlewares.deep_view()) by {
        assert forall|i: int| 0 <= i < middlewares@.len() implies middlewares@[i]@
            == module.middlewares@[i]@ by {
            assert(cloned(module.middlewares@[i], middlewares@[i]));
        }
    }
    Ok(ModuleDetails { imports, controllers: owned, middlewares })
}

/// Builds the graph of the declared modules with the module called `root`
/// as its root. Each module keeps its place. Succeeds exactly where the root
/// and every name that a module uses are declared and every controller that
/// a module owns configures.
#[verifier::loop_isolation(false)]
pub fn link(modules: &Vec<ModuleDecl>, controllers: &Vec<ControllerDecl>, root: &str) -> (r: Result<
    ModuleGraph<Router>,
    Error,
>)
    ensures
        match r {
            Ok(graph) => {
                &&& is_place_of(graph.spec_root(), root@, modules@)
                &&& graph.spec_modules().len() == modules@.len()
                &&& forall|i: int|
                    0 <= i < modules@.len() ==> is_linkable(
                        #[trigger] modules@[i],
                        modules@,
                        controllers@,
                    )
                &&& forall|i: int|
                    0 <= i < modules@.len() ==> is_linked(
                        #[trigger] graph.spec_modules()[i],
                        modules@[i],
                        modules@,
                        controllers@,
                    )
            },
            Err(e) => {
                &&& is_link_fault(e, modules@, controllers@)
                &&& !module_names(modules@).contains(root@) || exists|i: int|
                    0 <= i < modules@.len() && !is_linkable(
                        #[trigger] modules@[i],
                        modules@,
                        controllers@,
                    )
            },
        },
{
    let start = match find_module(modules, root) {
        Some(place) => place,
        None => {
            return Err(Error::UnknownName { name: String::from_str(root) });
        },
    };
    let mut linked: Vec<ModuleDetails<Router>> = Vec::new();
    let mut i: usize = 0;
    while i < modules.len()
        invariant
            i <= modules.len(),
            linked@.len() == i,
            forall|j: int|
                0 <= j < i ==> is_linkable(#[trigger] modules@[j], modules@, controllers@),
            forall|j: int|
                0 <= j < i ==> is_linked(
                    #[trigger] linked@[j],
                    modules@[j],
                    modules@,
                    controllers@,
                ),
        decreases modules.len() - i,
    {
        match link_module(&modules[i], modules, controllers) {
            Ok(details) => {
                linked.push(details);
            },
            Err(e) => {
                assert(!is_linkable(modules@[i as int], modules@, controllers@));
                return Err(e);
            },
        }
        i = i + 1;
    }
    proof {
        assert forall|m: int, k: int|
            0 <= m < linked@.len() && 0 <= k < linked@[m].imports@.len() implies (
        #[trigger] linked@[m].imports@[k]) < linked@.len() by {
            assert(is_linked(linked@[m], modules@[m], modules@, controllers@));
            assert(is_place_of(linked@[m].imports@[k], modules@[m].imports@[k]@, modules@));
            module_names(modules@).index_of_first_ensures(modules@[m].imports@[k]@);
        }
    }
    match ModuleGraph::new(linked, start) {
        Some(graph) => Ok(graph),
        None => Err(Error::UnknownName { name: String::from_str(root) }),
    }
}

} // verus!
