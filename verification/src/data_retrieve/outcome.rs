//! How one run of the pipeline can end.

use vstd::prelude::*;

verus! {

/// Why a run of the pipeline stopped. Every kind ends the run: no stage
/// retries, and no stage replaces the error that another has raised.
#[derive(Clone, Copy, Debug, PartialEq, Eq, Structural)]
pub enum PipelineError {
    /// The remote side could not be reached.
    NetworkError,
    /// The address or the answer of the remote side was not acceptable.
    ProtocolError,
    /// A configured time limit was exceeded.
    TimeoutError,
    /// The local filesystem refused an operation.
    IOError,
    /// The stored archive does not have the announced number of bytes.
    IntegrityError,
    /// The compressed stream or the archive structure is invalid.
    CorruptArchiveError,
    /// An archive entry would land outside the target directory.
    PathTraversalError,
}

/// How a successful run of the pipeline ended.
#[derive(Clone, Copy, Debug, PartialEq, Eq, Structural)]
pub enum PrepareOutcome {
    /// The dataset was already there; nothing was fetched.
    AlreadyPresent,
    /// The dataset was fetched, stored and unpacked.
    Materialized,
}

} // verus!
