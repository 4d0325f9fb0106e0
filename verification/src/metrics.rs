//! State of the metrics endpoint.
use vstd::prelude::*;

verus! {

/// Shared state of the `/metrics` endpoint; it carries nothing.
#[derive(Debug, Clone, Copy, Default)]
pub struct MetricsState;

} // verus!
