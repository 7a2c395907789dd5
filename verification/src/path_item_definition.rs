//! What a handler says of itself for the API description.

use vstd::prelude::*;
use crate::components::Components;
use crate::models::{Operation, OperationView};

verus! {

/// The description that a handler brings along: whether it shows in the
/// description at all, its operation, and the components that the operation
/// refers to. A handler that says nothing is visible and has an empty
/// operation without components; one that says something else says so by
/// the spec function that stands before the method.
pub trait PathItemDefinition {
    /// Whether the handler shows in the description, as a handler does
    /// unless it says otherwise.
    open spec fn is_visible_is_default() -> bool {
        true
    }

    fn is_visible() -> (r: bool)
        ensures
            Self::is_visible_is_default() ==> r,
    {
        true
    }

    /// Whether the handler brings the operation that says nothing.
    open spec fn operation_is_default() -> bool {
        true
    }

    fn operation() -> (r: Operation)
        ensures
            Self::operation_is_default() ==> r.deep_view() == OperationView::empty(),
    {
        Operation::default()
    }

    /// Whether the handler brings no components.
    open spec fn components_are_default() -> bool {
        true
    }

    fn components() -> (r: Vec<Components>)
        ensures
            Self::components_are_default() ==> r@.len() == 0,
    {
        Vec::new()
    }
}

} // verus!
