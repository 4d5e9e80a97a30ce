use vstd::prelude::*;

verus! {

/// Why a session operation failed.
///
/// A malformed operation descriptor is not an error: the executor treats it
/// as the pass-through operation.
#[derive(Debug)]
pub enum StreamError {
    /// The handle names no live session.
    SessionNotFound,
    /// The chunk bytes are not valid text.
    EncodingError(String),
    /// The chunk text is not parseable as delimited tabular data.
    DecodeError(String),
    /// The engine could not execute the deferred operation, e.g. the
    /// descriptor names a column the accumulated table does not have.
    EngineComputeError(String),
}

} // verus!
