use vstd::prelude::*;

verus! {

/// Every failure the service can report to a caller or record on a job.
///
/// A `MissingParameter` message is exactly the name of the missing circuit
/// input; the transport layer is responsible for any further wording.
#[derive(Debug, Clone, PartialEq, Eq)]
pub enum ProvingServerError {
    /// A row or a prover that a request named does not exist.
    NotFound,
    /// The single-slot job queue already holds a job id; the caller may retry.
    QueueFull,
    /// An artifact could not be fetched; the message identifies the artifact.
    FetchFailed { message: String },
    /// The circuit engine failed to build a circuit or to produce a proof.
    EngineError { message: String },
    /// A required circuit input is absent; the message is the missing name.
    MissingParameter { message: String },
    /// The relational store failed an operation.
    StoreError { message: String },
    /// The prover is registered but its capability is not prepared yet.
    NotReady,
}

} // verus!
