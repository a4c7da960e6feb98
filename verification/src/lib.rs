//! The control plane of a zero-knowledge-proof service: registered provers
//! and their preparation jobs persisted in a relational store, a bounded
//! single-slot hand-off from registration to the one background worker, the
//! worker's job state machine, and the validation and authorization of
//! proof requests. Artifact downloads, the circuit engine and the transport
//! are collaborators at the edge; their calls are made by the surrounding
//! program, against the contracts stated here.

use vstd::prelude::*;

pub mod cache;
pub mod errors;
pub mod laws;
pub mod models;
pub mod queue;
pub mod service;
pub mod store;
pub mod utils;

verus! {

/// Greeting served at the service root.
pub fn index() -> (r: &'static str)
    ensures
        r@ == "Hello, world!"@,
{
    "Hello, world!"
}

} // verus!
