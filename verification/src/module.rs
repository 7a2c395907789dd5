//! Modules: units that import other modules and own controllers, and the
//! resolution of a module graph into the ordered contributions of all the
//! controllers that its root reaches.
//!
//! Resolution walks the graph depth first and in declared order: a module's
//! own controllers come first, then what each of its imports resolves to. A
//! module that is reached along two ways contributes twice. A module that is
//! reached again on the way that leads to it is a cycle, and resolution fails
//! with the way as its trace.

use vstd::prelude::*;
use crate::controller::ControllerDetails;
use crate::error::Error;

verus! {

/// What a module declares: the modules that it imports, by their place in
/// the graph, the controllers that it owns, and its middleware.
pub struct ModuleDetails<Ret> {
    pub imports: Vec<usize>,
    pub controllers: Vec<ControllerDetails<Ret>>,
    /// The middleware of the module, by name. The transport applies it;
    /// resolution carries it along untouched.
    pub middlewares: Vec<String>,
}

/// A unit that declares itself.
pub trait Module {
    type Context;

    type ControllerReturn;

    /// Whether `details` is what this module declares when it is asked with
    /// the context `before`, which it leaves as `after`. A module that does
    /// not say what it declares may declare anything.
    open spec fn declares(
        &self,
        before: Self::Context,
        after: Self::Context,
        details: ModuleDetails<Self::ControllerReturn>,
    ) -> bool {
        true
    }

    fn details(&self, ctx: &mut Self::Context) -> (r: ModuleDetails<Self::ControllerReturn>)
        ensures
            self.declares(*old(ctx), *final(ctx), r),
    ;
}

/// Whether `declared` is what the modules `modules` declare when they are
/// asked one after the other, each with the context as the one before left
/// it: `contexts` holds the context before the first and after each.
pub open spec fn are_declared<M: Module>(
    modules: Seq<M>,
    contexts: Seq<M::Context>,
    declared: Seq<ModuleDetails<M::ControllerReturn>>,
) -> bool {
    &&& contexts.len() == modules.len() + 1
    &&& declared.len() == modules.len()
    &&& forall|i: int|
        0 <= i < modules.len() ==> (#[trigger] modules[i]).declares(
            contexts[i],
            contexts[i + 1],
            declared[i],
        )
}

/// Whether every import of every module is a place in `modules`.
pub open spec fn is_closed<Ret>(modules: Seq<ModuleDetails<Ret>>) -> bool {
    forall|m: int, k: int|
        0 <= m < modules.len() && 0 <= k < modules[m].imports@.len() ==> (
        #[trigger] modules[m].imports@[k]) < modules.len()
}

/// What resolving a module gives: the contributions in order, or the trace
/// of a cycle.
pub type Resolution<Ret> = Result<Seq<ControllerDetails<Ret>>, Seq<usize>>;

/// The resolution of the module `module`, reached along `stack`: the trace
/// `stack` and `module` where the module is on the stack already; else its
/// own controllers, followed by the resolutions of its imports.
pub open spec fn walk<Ret>(modules: Seq<ModuleDetails<Ret>>, module: usize, stack: Seq<usize>) -> Resolution<Ret>
    decreases modules.len() - stack.len(), 0nat,
{
    if module >= modules.len() || stack.contains(module) || stack.len() >= modules.len() {
        Err(stack.push(module))
    } else {
        match walk_imports(modules, modules[module as int].imports@, stack.push(module)) {
            Ok(rest) => Ok(modules[module as int].controllers@ + rest),
            Err(trace) => Err(trace),
        }
    }
}

/// The resolutions of the modules `imports`, each reached along `stack`, one
/// after the other; the trace of the first that fails.
pub open spec fn walk_imports<Ret>(
    modules: Seq<ModuleDetails<Ret>>,
    imports: Seq<usize>,
    stack: Seq<usize>,
) -> Resolution<Ret>
    decreases modules.len() - stack.len(), 1 + imports.len(),
{
    if imports.len() == 0 {
        Ok(Seq::empty())
    } else {
        match walk(modules, imports[0], stack) {
            Ok(first) => match walk_imports(modules, imports.drop_first(), stack) {
                Ok(rest) => Ok(first + rest),
                Err(trace) => Err(trace),
            },
            Err(trace) => Err(trace),
        }
    }
}

/// The resolution of the graph `modules` from its root `root`.
pub open spec fn resolved<Ret>(modules: Seq<ModuleDetails<Ret>>, root: usize) -> Resolution<Ret> {
    walk(modules, root, Seq::empty())
}

/// What the references of `found` refer to, in order.
pub open spec fn referred<Ret>(found: Seq<&ControllerDetails<Ret>>) -> Seq<ControllerDetails<Ret>> {
    found.map_values(|c: &ControllerDetails<Ret>| *c)
}

/// A graph of modules with the module at which resolution starts.
pub struct ModuleGraph<Ret> {
    modules: Vec<ModuleDetails<Ret>>,
    root: usize,
}

impl<Ret> ModuleGraph<Ret> {
    #[verifier::type_invariant]
    closed spec fn imports_exist(&self) -> bool {
        is_closed(self.modules@) && self.root < self.modules@.len()
    }

    /// The modules of the graph.
    pub closed spec fn spec_modules(&self) -> Seq<ModuleDetails<Ret>> {
        self.modules@
    }

    /// The place of the root.
    pub closed spec fn spec_root(&self) -> usize {
        self.root
    }

    /// The graph of `modules` with the root `root`, where the root and all
    /// imports are places in `modules`; nothing else is a graph.
    pub fn new(modules: Vec<ModuleDetails<Ret>>, root: usize) -> (r: Option<ModuleGraph<Ret>>)
        ensures
            match r {
                Some(graph) => {
                    &&& graph.spec_modules() == modules@
                    &&& graph.spec_root() == root
                    &&& is_closed(modules@)
                    &&& root < modules@.len()
                },
                None => !is_closed(modules@) || root >= modules@.len(),
            },
    {
        if root >= modules.len() {
            return None;
        }
        let mut m: usize = 0;
        while m < modules.len()
            invariant
                m <= modules.len(),
                forall|i: int, k: int|
                    0 <= i < m && 0 <= k < modules@[i].imports@.len() ==> (
                    #[trigger] modules@[i].imports@[k]) < modules@.len(),
            decreases modules.len() - m,
        {
            let mut k: usize = 0;
            while k < modules[m].imports.len()
                invariant
                    m < modules.len(),
                    k <= modules@[m as int].imports@.len(),
                    forall|j: int|
                        0 <= j < k ==> (#[trigger] modules@[m as int].imports@[j]) < modules@.len(),
                decreases modules[m as int].imports.len() - k,
            {
                if modules[m].imports[k] >= modules.len() {
                    assert(!is_closed(modules@));
                    return None;
                }
                k = k + 1;
            }
            m = m + 1;
        }
        Some(ModuleGraph { modules, root })
    }

    /// Builds the graph of the modules `modules` with the root `root`. Each
    /// module is asked once for what it declares, in order, with `ctx` as
    /// the module before left it. The result is the graph of what they
    /// declared, where the root and all declared imports are places in it,
    /// and nothing else.
    pub fn declare<M: Module<ControllerReturn = Ret>>(
        modules: &Vec<M>,
        ctx: &mut M::Context,
        root: usize,
    ) -> (r: Option<ModuleGraph<Ret>>)
        ensures
            exists|contexts: Seq<M::Context>, declared: Seq<ModuleDetails<Ret>>|
                {
                    &&& #[trigger] are_declared(modules@, contexts, declared)
                    &&& contexts[0] == *old(ctx)
                    &&& contexts.last() == *final(ctx)
                    &&& match r {
                        Some(graph) => {
                            &&& graph.spec_modules() == declared
                            &&& graph.spec_root() == root
                            &&& is_closed(declared)
                            &&& root < declared.len()
                        },
                        None => !is_closed(declared) || root >= declared.len(),
                    }
                },
    {
        let mut declared: Vec<ModuleDetails<Ret>> = Vec::new();
        let ghost mut contexts: Seq<M::Context> = seq![*ctx];
        let mut i: usize = 0;
        while i < modules.len()
            invariant
                i <= modules.len(),
                declared@.len() == i,
                contexts.len() == i + 1,
                contexts[0] == *old(ctx),
                contexts.last() == *ctx,
                forall|j: int|
                    0 <= j < i ==> (#[trigger] modules@[j]).declares(
                        contexts[j],
                        contexts[j + 1],
                        declared@[j],
                    ),
            decreases modules.len() - i,
        {
            let details = modules[i].details(ctx);
            declared.push(details);
            proof {
                contexts = contexts.push(*ctx);
            }
            i = i + 1;
        }
        let ghost all = declared@;
        assert(are_declared(modules@, contexts, all));
        ModuleGraph::new(declared, root)
    }

    /// The modules of the graph. Their imports are places in the graph.
    pub fn modules(&self) -> (r: &Vec<ModuleDetails<Ret>>)
        ensures
            r@ == self.spec_modules(),
            is_closed(self.spec_modules()),
    {
        proof {
            use_type_invariant(self);
        }
        &self.modules
    }

    /// The place of the root, which is a place in the graph.
    pub fn root(&self) -> (r: usize)
        ensures
            r == self.spec_root(),
            r < self.spec_modules().len(),
    {
        proof {
            use_type_invariant(self);
        }
        self.root
    }
}

/// Whether `stack` holds `module`.
fn is_on_stack(stack: &Vec<usize>, module: usize) -> (r: bool)
    ensures
        r == stack@.contains(module),
{
    let mut i: usize = 0;
    while i < stack.len()
        invariant
            i <= stack.len(),
            forall|j: int| 0 <= j < i ==> stack@[j] != module,
        decreases stack.len() - i,
    {
        if stack[i] == module {
            return true;
        }
        i = i + 1;
    }
    false
}

/// Whether `stack` is a way that a walk can be on: its modules are places in
/// the graph, and none stands twice.
pub open spec fn is_way<Ret>(modules: Seq<ModuleDetails<Ret>>, stack: Seq<usize>) -> bool {
    &&& stack.no_duplicates()
    &&& forall|i: int| 0 <= i < stack.len() ==> (#[trigger] stack[i]) < modules.len()
}

/// Resolves `module`, a place in a graph whose imports are places, reached
/// along the way `stack`, and puts its contributions behind `controllers`.
/// Fails exactly where the walk comes back to a module on its way. On a
/// cycle `controllers` may have grown; the stack is as it was in either
/// case.
#[verifier::loop_isolation(false)]
pub fn configure_module_recursive<'a, Ret>(
    modules: &'a Vec<ModuleDetails<Ret>>,
    module: usize,
    stack: &mut Vec<usize>,
    controllers: &mut Vec<&'a ControllerDetails<Ret>>,
) -> (r: Result<(), Error>)
    requires
        is_closed(modules@),
        module < modules@.len(),
        is_way(modules@, old(stack)@),
    ensures
        final(stack)@ == old(stack)@,
        match r {
            Ok(()) => {
                &&& walk(modules@, module, old(stack)@) is Ok
                &&& referred(final(controllers)@) == referred(old(controllers)@) + walk(
                    modules@,
                    module,
                    old(stack)@,
                )->Ok_0
            },
            Err(e) => {
                &&& e matches Error::CyclicModuleImport { trace }
                &&& walk(modules@, module, old(stack)@) == Err::<
                    Seq<ControllerDetails<Ret>>,
                    Seq<usize>,
                >(trace@)
                &&& crate::module_laws::ends_with_revisit(trace@)
            },
        },
    decreases modules@.len() - old(stack)@.len(),
{
    proof {
        crate::module_laws::law_walk_fails_only_on_revisit(modules@, module, stack@);
    }
    if is_on_stack(stack, module) {
        let mut trace: Vec<usize> = stack.clone();
        trace.push(module);
        return Err(Error::CyclicModuleImport { trace });
    }
    proof {
        if stack@.len() >= modules@.len() {
            crate::module_laws::lemma_full_stack_holds_all(modules@.len(), stack@, module);
        }
    }
    let ghost before = referred(controllers@);
    let ghost outer = stack@;
    let details = &modules[module];
    let mut c: usize = 0;
    while c < details.controllers.len()
        invariant
            c <= details.controllers.len(),
            referred(controllers@) == before + details.controllers@.take(c as int),
        decreases details.controllers.len() - c,
    {
        let ghost sofar = controllers@;
        controllers.push(&details.controllers[c]);
        assert(referred(controllers@) =~= referred(sofar).push(details.controllers@[c as int]));
        assert(details.controllers@.take(c + 1) =~= details.controllers@.take(c as int).push(
            details.controllers@[c as int],
        ));
        assert(referred(controllers@) =~= before + details.controllers@.take(c + 1));
        c = c + 1;
    }
    assert(details.controllers@.take(c as int) =~= details.controllers@);
    stack.push(module);
    let ghost inner = stack@;
    assert(is_way(modules@, inner)) by {
        assert forall|i: int, j: int|
            0 <= i < inner.len() && 0 <= j < inner.len() && i != j implies inner[i] != inner[j] by {
            if i < outer.len() {
                assert(outer.contains(outer[i]));
            }
            if j < outer.len() {
                assert(outer.contains(outer[j]));
            }
        }
    }
    let ghost own = before + details.controllers@;
    let ghost imports = details.imports@;
    let mut k: usize = 0;
    assert(imports.skip(0) =~= imports);
    let ghost mut gathered: Seq<ControllerDetails<Ret>> = Seq::empty();
    while k < details.imports.len()
        invariant
            k <= details.imports.len(),
            imports == details.imports@,
            inner == outer.push(module),
            stack@ == inner,
            inner.len() <= modules@.len(),
            referred(controllers@) == own + gathered,
            match walk_imports(modules@, imports.skip(k as int), inner) {
                Ok(rest) => walk_imports(modules@, imports, inner) == Ok::<
                    Seq<ControllerDetails<Ret>>,
                    Seq<usize>,
                >(gathered + rest),
                Err(trace) => walk_imports(modules@, imports, inner) == Err::<
                    Seq<ControllerDetails<Ret>>,
                    Seq<usize>,
                >(trace),
            },
        decreases details.imports.len() - k,
    {
        let ghost rest = imports.skip(k as int);
        assert(rest[0] == imports[k as int]);
        assert(rest.drop_first() =~= imports.skip(k + 1));
        match configure_module_recursive(modules, details.imports[k], stack, controllers) {
            Ok(()) => {
                proof {
                    let first = walk(modules@, imports[k as int], inner)->Ok_0;
                    assert(own + gathered + first =~= own + (gathered + first));
                    match walk_imports(modules@, imports.skip(k + 1), inner) {
                        Ok(more) => {
                            assert(gathered + (first + more) =~= (gathered + first) + more);
                        },
                        Err(_) => {},
                    }
                    gathered = gathered + first;
                }
            },
            Err(e) => {
                let _ = stack.pop();
                assert(stack@ =~= outer);
                return Err(e);
            },
        }
        k = k + 1;
    }
    let _ = stack.pop();
    proof {
        assert(stack@ =~= outer);
        assert(imports.skip(k as int) =~= Seq::<usize>::empty());
        assert(gathered + Seq::<ControllerDetails<Ret>>::empty() =~= gathered);
        assert(before + (details.controllers@ + gathered) =~= own + gathered);
    }
    Ok(())
}

/// Resolves the graph from its root: the contributions of every controller
/// that the root reaches, in the order of a depth-first walk in declared
/// order, a module's own controllers before those of its imports. Fails
/// exactly where the walk comes back to a module on its way; the trace is
/// then the way from the root to that module, which it ends with.
pub fn resolve_module<'a, Ret>(graph: &'a ModuleGraph<Ret>) -> (r: Result<
    Vec<&'a ControllerDetails<Ret>>,
    Error,
>)
    ensures
        match r {
            Ok(controllers) => resolved(graph.spec_modules(), graph.spec_root()) == Ok::<
                Seq<ControllerDetails<Ret>>,
                Seq<usize>,
            >(referred(controllers@)),
            Err(e) => {
                &&& e matches Error::CyclicModuleImport { trace }
                &&& resolved(graph.spec_modules(), graph.spec_root()) == Err::<
                    Seq<ControllerDetails<Ret>>,
                    Seq<usize>,
                >(trace@)
                &&& crate::module_laws::is_cycle_trace(graph.spec_modules(), trace@)
                &&& trace@[0] == graph.spec_root()
            },
        },
{
    let modules = graph.modules();
    let mut controllers: Vec<&'a ControllerDetails<Ret>> = Vec::new();
    let mut stack: Vec<usize> = Vec::new();
    assert(referred(controllers@) =~= Seq::<ControllerDetails<Ret>>::empty());
    match configure_module_recursive(modules, graph.root(), &mut stack, &mut controllers) {
        Ok(()) => {
            proof {
                let found = walk(modules@, graph.spec_root(), Seq::<usize>::empty())->Ok_0;
                assert(Seq::<ControllerDetails<Ret>>::empty() + found =~= found);
            }
            Ok(controllers)
        },
        Err(e) => {
            proof {
                crate::module_laws::law_trace_is_cycle(modules@, graph.spec_root());
            }
            Err(e)
        },
    }
}

} // verus!
