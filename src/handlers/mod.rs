//! The repository's queries and its create operation, as the API serves them.
pub mod card;
pub mod note;

use vstd::prelude::*;

verus! {

/// Why a request could not be served.
#[derive(Copy, Clone, Debug, PartialEq, Eq, Hash, Structural)]
pub enum ApiError {
    /// No item has the requested id.
    NotFound,
    /// A note with the same term already exists.
    Conflict,
}

} // verus!
