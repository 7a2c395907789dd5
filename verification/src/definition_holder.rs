//! What a unit that holds a part of the description hands to the aggregator.

use vstd::prelude::*;
use crate::components::{Components, ComponentsView};
use crate::method::OperationType;
use crate::models::OperationView;
use crate::operation_map::OperationMap;
use crate::paths::{merged_at, Paths};

verus! {

/// `paths` after a holder with the path `path` and the operations
/// `operations` has updated them: a holder without operations leaves no
/// trace.
pub open spec fn path_items_updated(
    paths: Seq<(Seq<char>, crate::paths::PathItemView)>,
    path: Seq<char>,
    operations: Seq<(OperationType, OperationView)>,
) -> Seq<(Seq<char>, crate::paths::PathItemView)> {
    if operations.len() == 0 {
        paths
    } else {
        merged_at(paths, path, operations)
    }
}

/// A unit that holds a path, the operations at that path and the components
/// that they refer to.
///
/// The three spec functions say what a holder holds; each method hands out
/// what its spec function says. A holder that does not say what it holds may
/// hold anything. Handing out the operations or the components may use them
/// up, but leaves the path alone, and handing out the components leaves the
/// operations alone.
pub trait DefinitionHolder {
    /// The path that the holder holds.
    open spec fn held_path(&self) -> Seq<char> {
        vstd::pervasive::arbitrary()
    }

    /// The operations that the holder holds, in their order.
    open spec fn held_operations(&self) -> Seq<(OperationType, OperationView)> {
        vstd::pervasive::arbitrary()
    }

    /// The components that the holder holds, in their order.
    open spec fn held_components(&self) -> Seq<ComponentsView> {
        vstd::pervasive::arbitrary()
    }

    fn path(&self) -> (r: &str)
        ensures
            r@ == self.held_path(),
    ;

    fn operations(&mut self) -> (r: OperationMap)
        ensures
            r@ == old(self).held_operations(),
            final(self).held_path() == old(self).held_path(),
    ;

    fn components(&mut self) -> (r: Vec<Components>)
        ensures
            r.deep_view() == old(self).held_components(),
            final(self).held_path() == old(self).held_path(),
            final(self).held_operations() == old(self).held_operations(),
    ;

    /// Registers the holder's operations at the holder's path: behind the
    /// operations that the path had, replacing those of the same kind. A
    /// holder without operations leaves the paths as they were.
    fn update_path_items(&mut self, path_op_map: &mut Paths)
        ensures
            final(path_op_map)@ == path_items_updated(
                old(path_op_map)@,
                old(self).held_path(),
                old(self).held_operations(),
            ),
            final(self).held_path() == old(self).held_path(),
    {
        let ops = self.operations();
        if !ops.is_empty() {
            let path = self.path();
            path_op_map.merge_operations(path, &ops);
        }
    }
}

} // verus!
