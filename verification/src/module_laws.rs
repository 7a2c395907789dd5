//! What holds of every resolution of a module graph.

use vstd::prelude::*;
use vstd::set_lib::{lemma_int_range, lemma_len_subset, lemma_subset_equality, set_int_range};
use crate::controller::ControllerDetails;
use crate::module::{is_closed, is_way, resolved, walk, walk_imports, ModuleDetails};

verus! {

/// Whether `chain` is a way through the graph: each of its modules is a
/// place in the graph and imports the next.
pub open spec fn is_import_chain<Ret>(modules: Seq<ModuleDetails<Ret>>, chain: Seq<usize>) -> bool {
    &&& forall|i: int| 0 <= i < chain.len() ==> (#[trigger] chain[i]) < modules.len()
    &&& forall|i: int|
        0 <= i < chain.len() - 1 ==> modules[chain[i] as int].imports@.contains(
            #[trigger] chain[i + 1],
        )
}

/// Whether `trace` is the trace of a cycle: a way through the graph that
/// meets no module twice until its last module, which it has met before.
pub open spec fn is_cycle_trace<Ret>(modules: Seq<ModuleDetails<Ret>>, trace: Seq<usize>) -> bool {
    &&& trace.len() > 0
    &&& is_import_chain(modules, trace)
    &&& trace.drop_last().no_duplicates()
    &&& trace.drop_last().contains(trace.last())
}

/// Where the imports of a module resolve, each of them resolves.
proof fn lemma_each_import_resolves<Ret>(
    modules: Seq<ModuleDetails<Ret>>,
    imports: Seq<usize>,
    stack: Seq<usize>,
    k: int,
)
    requires
        walk_imports(modules, imports, stack) is Ok,
        0 <= k < imports.len(),
    ensures
        walk(modules, imports[k], stack) is Ok,
    decreases imports.len(),
{
    if k > 0 {
        lemma_each_import_resolves(modules, imports.drop_first(), stack, k - 1);
    }
}

/// Where the root resolves, every module on a way from the root resolves
/// when it is reached along that way.
proof fn lemma_way_resolves<Ret>(modules: Seq<ModuleDetails<Ret>>, chain: Seq<usize>, i: int)
    requires
        is_import_chain(modules, chain),
        0 <= i < chain.len(),
        walk(modules, chain[0], Seq::<usize>::empty()) is Ok,
    ensures
        walk(modules, chain[i], chain.take(i)) is Ok,
    decreases i,
{
    if i == 0 {
        assert(chain.take(0) =~= Seq::<usize>::empty());
    } else {
        lemma_way_resolves(modules, chain, i - 1);
        let from = chain[i - 1];
        let imports = modules[from as int].imports@;
        assert(modules[chain[i - 1] as int].imports@.contains(chain[(i - 1) + 1]));
        assert(imports.contains(chain[i]));
        let k = choose|k: int| 0 <= k < imports.len() && imports[k] == chain[i];
        assert(chain.take(i - 1).push(from) =~= chain.take(i));
        lemma_each_import_resolves(modules, imports, chain.take(i), k);
    }
}

/// A module that imports itself, directly or through others, on a way from
/// the root, makes resolution fail: where a way from the root meets a module
/// twice, the graph does not resolve.
pub proof fn law_cycle_is_rejected<Ret>(
    modules: Seq<ModuleDetails<Ret>>,
    root: usize,
    chain: Seq<usize>,
)
    requires
        is_import_chain(modules, chain),
        chain.len() > 0,
        chain[0] == root,
        !chain.no_duplicates(),
    ensures
        resolved(modules, root) is Err,
{
    if resolved(modules, root) is Ok {
        let (i, j) = choose|i: int, j: int|
            0 <= i < chain.len() && 0 <= j < chain.len() && i != j && chain[i] == chain[j];
        let (early, late) = if i < j {
            (i, j)
        } else {
            (j, i)
        };
        lemma_way_resolves(modules, chain, late);
        assert(chain.take(late)[early] == chain[late]);
        assert(chain.take(late).contains(chain[late]));
    }
}

/// A stack that holds as many modules as the graph, each once, holds every
/// module of the graph.
pub proof fn lemma_full_stack_holds_all(n: nat, stack: Seq<usize>, module: usize)
    requires
        stack.no_duplicates(),
        forall|i: int| 0 <= i < stack.len() ==> (#[trigger] stack[i]) < n,
        stack.len() >= n,
        module < n,
    ensures
        stack.contains(module),
{
    let places = stack.map_values(|m: usize| m as int);
    assert(places.no_duplicates()) by {
        assert forall|i: int, j: int|
            0 <= i < places.len() && 0 <= j < places.len() && i != j implies places[i]
            != places[j] by {
            assert(stack[i] != stack[j]);
        }
    }
    places.unique_seq_to_set();
    let held = places.to_set();
    let all = set_int_range(0, n as int);
    lemma_int_range(0, n as int);
    assert(held.subset_of(all)) by {
        assert forall|p: int| held.contains(p) implies all.contains(p) by {
            let i = choose|i: int| 0 <= i < places.len() && places[i] == p;
            assert(stack[i] < n);
        }
    }
    lemma_len_subset(held, all);
    lemma_subset_equality(held, all);
    assert(all.contains(module as int));
    assert(held.contains(module as int));
    let i = choose|i: int| 0 <= i < places.len() && places[i] == module as int;
    assert(stack[i] == module);
}

/// One more module at the end of a way that it continues is a way.
proof fn lemma_chain_grows<Ret>(modules: Seq<ModuleDetails<Ret>>, chain: Seq<usize>, next: usize)
    requires
        is_import_chain(modules, chain),
        next < modules.len(),
        chain.len() > 0 ==> modules[chain.last() as int].imports@.contains(next),
    ensures
        is_import_chain(modules, chain.push(next)),
{
    let longer = chain.push(next);
    assert forall|i: int| 0 <= i < longer.len() - 1 implies modules[longer[i] as int].imports@.contains(
        #[trigger] longer[i + 1],
    ) by {
        if i + 1 < chain.len() {
            assert(longer[i] == chain[i]);
            assert(longer[i + 1] == chain[i + 1]);
        } else {
            assert(longer[i] == chain.last());
        }
    }
}

/// Where resolving a module fails, the trace is the trace of a cycle that
/// continues the way along which the module was reached.
proof fn lemma_walk_trace<Ret>(modules: Seq<ModuleDetails<Ret>>, module: usize, stack: Seq<usize>)
    requires
        is_closed(modules),
        is_import_chain(modules, stack.push(module)),
        stack.no_duplicates(),
    ensures
        walk(modules, module, stack) matches Err(trace) ==> {
            &&& is_cycle_trace(modules, trace)
            &&& trace.len() > stack.len()
            &&& trace.take(stack.len() as int + 1) == stack.push(module)
        },
    decreases modules.len() - stack.len(), 0nat,
{
    let on = stack.push(module);
    assert(on[stack.len() as int] == module);
    assert(module < modules.len());
    assert forall|i: int| 0 <= i < stack.len() implies (#[trigger] stack[i]) < modules.len() by {
        assert(on[i] == stack[i]);
    }
    if stack.contains(module) || stack.len() >= modules.len() {
        if !stack.contains(module) {
            lemma_full_stack_holds_all(modules.len(), stack, module);
        }
        assert(on.drop_last() =~= stack);
        assert(on.take(stack.len() as int + 1) =~= on);
    } else {
        assert(on.no_duplicates()) by {
            assert forall|i: int, j: int|
                0 <= i < on.len() && 0 <= j < on.len() && i != j implies on[i] != on[j] by {
                if i < stack.len() {
                    assert(stack.contains(stack[i]));
                }
                if j < stack.len() {
                    assert(stack.contains(stack[j]));
                }
            }
        }
        let imports = modules[module as int].imports@;
        lemma_walk_imports_trace(modules, imports, on, imports);
        match walk_imports(modules, imports, on) {
            Err(trace) => {
                assert(trace.take(stack.len() as int + 1) =~= trace.take(on.len() as int));
            },
            Ok(_) => {},
        }
    }
}

/// Where resolving the imports of the module at the end of a way fails, the
/// trace is the trace of a cycle that continues the way.
proof fn lemma_walk_imports_trace<Ret>(
    modules: Seq<ModuleDetails<Ret>>,
    imports: Seq<usize>,
    stack: Seq<usize>,
    all: Seq<usize>,
)
    requires
        is_closed(modules),
        is_import_chain(modules, stack),
        stack.no_duplicates(),
        stack.len() > 0,
        all == modules[stack.last() as int].imports@,
        forall|k: int| 0 <= k < imports.len() ==> all.contains(#[trigger] imports[k]),
    ensures
        walk_imports(modules, imports, stack) matches Err(trace) ==> {
            &&& is_cycle_trace(modules, trace)
            &&& trace.len() > stack.len()
            &&& trace.take(stack.len() as int) == stack
        },
    decreases modules.len() - stack.len(), 1 + imports.len(),
{
    if imports.len() > 0 {
        let first = imports[0];
        assert(all.contains(first));
        let k = choose|k: int| 0 <= k < all.len() && all[k] == first;
        assert(stack[stack.len() - 1] < modules.len());
        assert(first < modules.len());
        lemma_chain_grows(modules, stack, first);
        lemma_walk_trace(modules, first, stack);
        match walk(modules, first, stack) {
            Err(trace) => {
                assert(trace.take(stack.len() as int) =~= trace.take(stack.len() as int + 1).take(
                    stack.len() as int,
                ));
                assert(stack.push(first).take(stack.len() as int) =~= stack);
            },
            Ok(_) => {
                let rest = imports.drop_first();
                assert forall|k: int| 0 <= k < rest.len() implies all.contains(
                    #[trigger] rest[k],
                ) by {
                    assert(rest[k] == imports[k + 1]);
                }
                lemma_walk_imports_trace(modules, rest, stack, all);
            },
        }
    }
}

/// Whether a trace ends with a module that it has met before, and meets no
/// other module twice.
pub open spec fn ends_with_revisit(trace: Seq<usize>) -> bool {
    &&& trace.len() > 0
    &&& trace.drop_last().no_duplicates()
    &&& trace.drop_last().contains(trace.last())
}

/// In a graph whose imports are places, resolving a module that is a place,
/// reached along a way, fails only by coming back to a module on the way:
/// never because a module is no place, and never because the way is full.
pub proof fn law_walk_fails_only_on_revisit<Ret>(
    modules: Seq<ModuleDetails<Ret>>,
    module: usize,
    stack: Seq<usize>,
)
    requires
        is_closed(modules),
        module < modules.len(),
        is_way(modules, stack),
    ensures
        walk(modules, module, stack) matches Err(trace) ==> ends_with_revisit(trace),
    decreases modules.len() - stack.len(), 0nat,
{
    let on = stack.push(module);
    if stack.contains(module) || stack.len() >= modules.len() {
        if !stack.contains(module) {
            lemma_full_stack_holds_all(modules.len(), stack, module);
        }
        assert(on.drop_last() =~= stack);
    } else {
        assert(is_way(modules, on)) by {
            assert forall|i: int, j: int|
                0 <= i < on.len() && 0 <= j < on.len() && i != j implies on[i] != on[j] by {
                if i < stack.len() {
                    assert(stack.contains(stack[i]));
                }
                if j < stack.len() {
                    assert(stack.contains(stack[j]));
                }
            }
        }
        lemma_imports_fail_only_on_revisit(modules, module, modules[module as int].imports@, on);
    }
}

/// Resolving imports of a module, reached along a way, fails only by coming
/// back to a module on the way.
proof fn lemma_imports_fail_only_on_revisit<Ret>(
    modules: Seq<ModuleDetails<Ret>>,
    owner: usize,
    imports: Seq<usize>,
    stack: Seq<usize>,
)
    requires
        is_closed(modules),
        owner < modules.len(),
        is_way(modules, stack),
        stack.len() > 0,
        forall|k: int|
            0 <= k < imports.len() ==> modules[owner as int].imports@.contains(
                #[trigger] imports[k],
            ),
    ensures
        walk_imports(modules, imports, stack) matches Err(trace) ==> ends_with_revisit(trace),
    decreases modules.len() - stack.len(), 1 + imports.len(),
{
    if imports.len() > 0 {
        let all = modules[owner as int].imports@;
        let first = imports[0];
        assert(all.contains(first));
        let k = choose|k: int| 0 <= k < all.len() && all[k] == first;
        assert(modules[owner as int].imports@[k] < modules.len());
        law_walk_fails_only_on_revisit(modules, first, stack);
        let rest = imports.drop_first();
        assert forall|k: int| 0 <= k < rest.len() implies all.contains(#[trigger] rest[k]) by {
            assert(rest[k] == imports[k + 1]);
        }
        lemma_imports_fail_only_on_revisit(modules, owner, rest, stack);
    }
}

/// Where a graph does not resolve, the trace is the trace of a cycle that
/// starts at the root: a way from the root that meets no module twice until
/// its last module, which it has met before.
pub proof fn law_trace_is_cycle<Ret>(modules: Seq<ModuleDetails<Ret>>, root: usize)
    requires
        is_closed(modules),
        root < modules.len(),
        resolved(modules, root) is Err,
    ensures
        is_cycle_trace(modules, resolved(modules, root)->Err_0),
        resolved(modules, root)->Err_0[0] == root,
{
    let none = Seq::<usize>::empty();
    assert(none.push(root)[0] == root);
    assert(is_import_chain(modules, none.push(root)));
    lemma_walk_trace(modules, root, none);
    let trace = resolved(modules, root)->Err_0;
    assert(trace.take(1)[0] == trace[0]);
}

/// A graph resolves exactly where no way from the root meets a module twice.
pub proof fn law_resolves_iff_acyclic<Ret>(modules: Seq<ModuleDetails<Ret>>, root: usize)
    requires
        is_closed(modules),
        root < modules.len(),
    ensures
        resolved(modules, root) is Err <==> exists|chain: Seq<usize>|
            #![trigger is_import_chain(modules, chain)]
            is_import_chain(modules, chain) && chain.len() > 0 && chain[0] == root
                && !chain.no_duplicates(),
{
    if resolved(modules, root) is Err {
        law_trace_is_cycle(modules, root);
        let trace = resolved(modules, root)->Err_0;
        let front = trace.drop_last();
        let i = choose|i: int| 0 <= i < front.len() && front[i] == trace.last();
        assert(trace[i] == trace[trace.len() - 1]);
        assert(is_import_chain(modules, trace));
    }
    if exists|chain: Seq<usize>|
        #![trigger is_import_chain(modules, chain)]
        is_import_chain(modules, chain) && chain.len() > 0 && chain[0] == root
            && !chain.no_duplicates() {
        let chain = choose|chain: Seq<usize>|
            #![trigger is_import_chain(modules, chain)]
            is_import_chain(modules, chain) && chain.len() > 0 && chain[0] == root
                && !chain.no_duplicates();
        law_cycle_is_rejected(modules, root, chain);
    }
}

/// Resolving a graph twice gives the same: whatever two resolutions of one
/// graph from one root are, they are the same sequence of contributions or
/// the same trace.
pub proof fn law_resolution_is_determined<Ret>(
    modules: Seq<ModuleDetails<Ret>>,
    root: usize,
    first: crate::module::Resolution<Ret>,
    second: crate::module::Resolution<Ret>,
)
    requires
        first == resolved(modules, root),
        second == resolved(modules, root),
    ensures
        first == second,
{
}

/// A module without imports, reached along a way that does not hold it,
/// resolves to its own controllers.
pub proof fn law_leaf_resolves_to_own<Ret>(
    modules: Seq<ModuleDetails<Ret>>,
    module: usize,
    stack: Seq<usize>,
)
    requires
        module < modules.len(),
        !stack.contains(module),
        stack.len() < modules.len(),
        modules[module as int].imports@.len() == 0,
    ensures
        walk(modules, module, stack) == Ok::<Seq<ControllerDetails<Ret>>, Seq<usize>>(
            modules[module as int].controllers@,
        ),
{
    assert(modules[module as int].controllers@ + Seq::<ControllerDetails<Ret>>::empty()
        =~= modules[module as int].controllers@);
}

/// The order of resolution: a module's own controllers, in declared order,
/// and then the controllers of the module that it imports. For a root that
/// imports one module without imports, the resolution is the root's
/// controllers followed by the imported module's.
pub proof fn law_own_controllers_before_imports<Ret>(
    modules: Seq<ModuleDetails<Ret>>,
    root: usize,
    import: usize,
)
    requires
        root < modules.len(),
        import < modules.len(),
        root != import,
        modules[root as int].imports@ == seq![import],
        modules[import as int].imports@.len() == 0,
    ensures
        resolved(modules, root) == Ok::<Seq<ControllerDetails<Ret>>, Seq<usize>>(
            modules[root as int].controllers@ + modules[import as int].controllers@,
        ),
{
    let none = Seq::<usize>::empty();
    let on = none.push(root);
    let imports = modules[root as int].imports@;
    assert(!on.contains(import)) by {
        if on.contains(import) {
            let i = choose|i: int| 0 <= i < on.len() && on[i] == import;
        }
    }
    law_leaf_resolves_to_own(modules, import, on);
    assert(imports.drop_first() =~= Seq::<usize>::empty());
    let theirs = modules[import as int].controllers@;
    assert(theirs + Seq::<ControllerDetails<Ret>>::empty() =~= theirs);
    assert(walk_imports(modules, imports.drop_first(), on) == Ok::<
        Seq<ControllerDetails<Ret>>,
        Seq<usize>,
    >(Seq::empty()));
    assert(walk_imports(modules, imports, on) == Ok::<Seq<ControllerDetails<Ret>>, Seq<usize>>(
        theirs,
    ));
}

/// A module that is imported along two ways contributes twice. For a root
/// that imports `left` and `right`, which both import `shared`, a module
/// without imports, the resolution holds the controllers of `shared` once
/// behind those of `left` and once behind those of `right`.
pub proof fn law_diamond_contributes_twice<Ret>(
    modules: Seq<ModuleDetails<Ret>>,
    root: usize,
    left: usize,
    right: usize,
    shared: usize,
)
    requires
        root < modules.len(),
        left < modules.len(),
        right < modules.len(),
        shared < modules.len(),
        root != left,
        root != right,
        root != shared,
        left != shared,
        right != shared,
        modules[root as int].imports@ == seq![left, right],
        modules[left as int].imports@ == seq![shared],
        modules[right as int].imports@ == seq![shared],
        modules[shared as int].imports@.len() == 0,
    ensures
        resolved(modules, root) == Ok::<Seq<ControllerDetails<Ret>>, Seq<usize>>(
            modules[root as int].controllers@ + modules[left as int].controllers@
                + modules[shared as int].controllers@ + modules[right as int].controllers@
                + modules[shared as int].controllers@,
        ),
{
    let none = Seq::<usize>::empty();
    let on_root = none.push(root);
    let ours = modules[root as int].controllers@;
    let lefts = modules[left as int].controllers@;
    let rights = modules[right as int].controllers@;
    let shareds = modules[shared as int].controllers@;
    let empty = Seq::<ControllerDetails<Ret>>::empty();
    assert(modules.len() >= 3) by {
        lemma_three_places(modules.len(), root, left, shared);
    }
    lemma_branch(modules, root, left, shared);
    lemma_branch(modules, root, right, shared);
    let imports = modules[root as int].imports@;
    let rest = imports.drop_first();
    assert(rest =~= seq![right]);
    assert(rest.drop_first() =~= Seq::<usize>::empty());
    assert(rest[0] == right);
    assert(imports[0] == left);
    assert(walk_imports(modules, rest.drop_first(), on_root) == Ok::<
        Seq<ControllerDetails<Ret>>,
        Seq<usize>,
    >(empty));
    assert((rights + shareds) + empty =~= rights + shareds);
    assert(walk_imports(modules, rest, on_root) == Ok::<Seq<ControllerDetails<Ret>>, Seq<usize>>(
        rights + shareds,
    ));
    assert(walk_imports(modules, imports, on_root) == Ok::<
        Seq<ControllerDetails<Ret>>,
        Seq<usize>,
    >((lefts + shareds) + (rights + shareds)));
    assert(ours + ((lefts + shareds) + (rights + shareds)) =~= ours + lefts + shareds + rights
        + shareds);
}

/// Three different places need a graph of three modules.
proof fn lemma_three_places(n: nat, a: usize, b: usize, c: usize)
    requires
        a < n,
        b < n,
        c < n,
        a != b,
        a != c,
        b != c,
    ensures
        n >= 3,
{
}

/// A module that the root imports and that imports one module without
/// imports resolves to its own controllers and then the other module's.
proof fn lemma_branch<Ret>(modules: Seq<ModuleDetails<Ret>>, root: usize, branch: usize, leaf: usize)
    requires
        root < modules.len(),
        branch < modules.len(),
        leaf < modules.len(),
        modules.len() >= 3,
        root != branch,
        root != leaf,
        branch != leaf,
        modules[branch as int].imports@ == seq![leaf],
        modules[leaf as int].imports@.len() == 0,
    ensures
        walk(modules, branch, Seq::<usize>::empty().push(root)) == Ok::<
            Seq<ControllerDetails<Ret>>,
            Seq<usize>,
        >(modules[branch as int].controllers@ + modules[leaf as int].controllers@),
{
    let on_root = Seq::<usize>::empty().push(root);
    let on_branch = on_root.push(branch);
    assert(!on_root.contains(branch)) by {
        if on_root.contains(branch) {
            let i = choose|i: int| 0 <= i < on_root.len() && on_root[i] == branch;
        }
    }
    assert(!on_branch.contains(leaf)) by {
        if on_branch.contains(leaf) {
            let i = choose|i: int| 0 <= i < on_branch.len() && on_branch[i] == leaf;
        }
    }
    law_leaf_resolves_to_own(modules, leaf, on_branch);
    let imports = modules[branch as int].imports@;
    let theirs = modules[leaf as int].controllers@;
    assert(imports.drop_first() =~= Seq::<usize>::empty());
    assert(imports[0] == leaf);
    assert(theirs + Seq::<ControllerDetails<Ret>>::empty() =~= theirs);
    assert(walk_imports(modules, imports.drop_first(), on_branch) == Ok::<
        Seq<ControllerDetails<Ret>>,
        Seq<usize>,
    >(Seq::empty()));
    assert(walk_imports(modules, imports, on_branch) == Ok::<
        Seq<ControllerDetails<Ret>>,
        Seq<usize>,
    >(theirs));
}

} // verus!
