//! Errors of the profiling backend.
use vstd::prelude::*;

verus! {

/// The error type of the profiling backend's stream; it carries no detail.
#[derive(Debug, Clone, Copy, PartialEq, Eq, Structural)]
pub struct ProfilingError;

} // verus!
