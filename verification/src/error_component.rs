//! What an error type says of itself for the API description.

use vstd::prelude::*;
use crate::models::{ReferenceOr, Response, Schema};

verus! {

/// The schema of an error under the status code that carries it.
#[derive(Debug, PartialEq, Eq)]
pub struct ErrorSchema {
    pub status: String,
    pub name: String,
    pub schema: ReferenceOr<Schema>,
}

/// An error type that describes its responses.
pub trait ApiErrorComponent {
    fn schemas_by_status_code() -> Vec<ErrorSchema>;

    fn error_responses() -> Vec<(String, Response)>;
}

} // verus!
