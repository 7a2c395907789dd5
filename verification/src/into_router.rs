//! From a module graph to one router: the route table of the whole
//! application and its API description.

use vstd::prelude::*;
use vstd::string::*;
use crate::controller::ControllerDetails;
use crate::error::Error;
use crate::module::{referred, resolve_module, resolved, ModuleGraph};
use crate::routing::{aggregated, contributions, lemma_aggregated_conflict_stays, mounted_all, DocumentView, RouteWrapperView, Router};

verus! {

/// The route table of the contributions `found`: the routes of each, in
/// order, under the mount path of its controller.
pub open spec fn table_of(found: Seq<ControllerDetails<Router>>) -> Seq<RouteWrapperView>
    decreases found.len(),
{
    if found.len() == 0 {
        Seq::empty()
    } else {
        table_of(found.drop_last()) + mounted_all(found.last().path@, found.last().return_@)
    }
}

/// Mounts the contributions `found`, in order, each under the mount path of
/// its controller. Fails exactly where the schemas of the routes conflict.
#[verifier::loop_isolation(false)]
pub fn mount_contributions(found: &Vec<&ControllerDetails<Router>>) -> (r: Result<Router, Error>)
    ensures
        match r {
            Ok(router) => {
                &&& router@ == table_of(referred(found@))
                &&& aggregated(contributions(router@)) is Ok
            },
            Err(e) => {
                &&& e matches Error::SchemaDefinitionConflict { name }
                &&& aggregated(contributions(table_of(referred(found@)))) == Err::<
                    DocumentView,
                    Seq<char>,
                >(name@)
            },
        },
{
    let ghost all = referred(found@);
    let mut router = Router::new();
    let mut i: usize = 0;
    assert(all.take(0) =~= Seq::<ControllerDetails<Router>>::empty());
    while i < found.len()
        invariant
            i <= found.len(),
            router@ == table_of(all.take(i as int)),
            aggregated(contributions(router@)) is Ok,
        decreases found.len() - i,
    {
        let details = found[i];
        assert(all.take(i + 1).drop_last() =~= all.take(i as int));
        assert(all.take(i + 1).last() == *details);
        match router.nest(details.path.as_str(), &details.return_) {
            Ok(next) => {
                router = next;
            },
            Err(e) => {
                proof {
                    lemma_table_grows(all, i + 1);
                    let whole = table_of(all);
                    let part = table_of(all.take(i + 1));
                    assert(contributions(whole).take(part.len() as int) =~= contributions(part));
                    lemma_aggregated_conflict_stays(contributions(whole), part.len() as int);
                }
                return Err(e);
            },
        }
        i = i + 1;
    }
    assert(all.take(i as int) =~= all);
    Ok(router)
}

/// The table of the first contributions is the front of the table of all.
proof fn lemma_table_grows(found: Seq<ControllerDetails<Router>>, n: int)
    requires
        0 <= n <= found.len(),
    ensures
        table_of(found.take(n)).len() <= table_of(found).len(),
        table_of(found).take(table_of(found.take(n)).len() as int) == table_of(found.take(n)),
    decreases found.len() - n,
{
    if n < found.len() {
        lemma_table_grows(found, n + 1);
        assert(found.take(n + 1).drop_last() =~= found.take(n));
        let shorter = table_of(found.take(n));
        let longer = table_of(found.take(n + 1));
        assert(longer.take(shorter.len() as int) =~= shorter);
        assert(table_of(found).take(shorter.len() as int) =~= table_of(found).take(
            longer.len() as int,
        ).take(shorter.len() as int));
    } else {
        assert(found.take(n) =~= found);
        assert(table_of(found).take(table_of(found).len() as int) =~= table_of(found));
    }
}

/// What resolving and mounting a graph gives: the cycle where the graph has
/// one; else the table of its contributions, unless their schemas conflict.
pub open spec fn routed(graph: ModuleGraph<Router>, r: Result<Router, Error>) -> bool {
    match resolved(graph.spec_modules(), graph.spec_root()) {
        Err(cycle) => r matches Err(Error::CyclicModuleImport { trace }) && trace@ == cycle,
        Ok(found) => match r {
            Ok(router) => router@ == table_of(found) && aggregated(
                contributions(table_of(found)),
            ) is Ok,
            Err(e) => {
                &&& e matches Error::SchemaDefinitionConflict { name }
                &&& aggregated(contributions(table_of(found))) == Err::<DocumentView, Seq<char>>(
                    name@,
                )
            },
        },
    }
}

/// Building an application twice gives the same: two results of resolving
/// and mounting one graph agree on whether the application starts, on the
/// route table and the description where it does, and on the cycle or the
/// schema in conflict where it does not.
pub proof fn law_build_is_determined(
    graph: ModuleGraph<Router>,
    first: Result<Router, Error>,
    second: Result<Router, Error>,
)
    requires
        routed(graph, first),
        routed(graph, second),
    ensures
        first is Ok <==> second is Ok,
        first is Ok ==> first->Ok_0@ == second->Ok_0@ && aggregated(
            contributions(first->Ok_0@),
        ) == aggregated(contributions(second->Ok_0@)),
        first matches Err(Error::CyclicModuleImport { trace }) ==> second matches Err(
            Error::CyclicModuleImport { trace: again },
        ) && trace@ == again@,
        first matches Err(Error::SchemaDefinitionConflict { name }) ==> second matches Err(
            Error::SchemaDefinitionConflict { name: again },
        ) && name@ == again@,
{
}

/// Something that turns into the router of a whole application.
pub trait IntoRouter<Ctx> {
    fn into_router(self, ctx: &mut Ctx) -> Result<Router, Error>;
}

impl<Ctx> IntoRouter<Ctx> for ModuleGraph<Router> {
    /// Resolves the graph and mounts every contribution, in the order of
    /// resolution, under the mount path of its controller. The context is
    /// handed through untouched.
    fn into_router(self, ctx: &mut Ctx) -> (r: Result<Router, Error>)
        ensures
            routed(self, r),
            *final(ctx) == *old(ctx),
    {
        match resolve_module(&self) {
            Ok(found) => mount_contributions(&found),
            Err(e) => Err(e),
        }
    }
}

} // verus!
