//! Error taxonomy of the model registry.

use vstd::prelude::*;

verus! {

/// Errors surfaced by registry operations.
#[derive(Clone, Copy, PartialEq, Eq, Structural, Debug)]
pub enum NnioError {
    /// The named model does not exist in the registry.
    NotFound,
    /// A model of that name already exists and overwriting was not requested.
    AlreadyExists,
    /// The named model already has a live worker.
    AlreadyLoaded,
    /// The operation needs a live worker but the model is unloaded.
    NotLoaded,
    /// A worker round trip did not yield the expected response.
    CommunicationFailure,
    /// The external model runtime failed opaquely.
    RuntimeFailure,
}

} // verus!
