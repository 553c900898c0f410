//! DetNet latency budget evaluation (RFC 9320). The delays it adds up are fractional
//! microseconds, kept as floating-point numbers; the evaluation itself stays with the
//! caller, and the library holds the evaluator.
use vstd::prelude::*;

verus! {

/// The latency budget evaluator; it has no state.
#[derive(Debug, Clone, Copy)]
pub struct DetNetLatencyBudgetEngine;

impl Default for DetNetLatencyBudgetEngine {
    fn default() -> (r: Self)
        ensures
            r == DetNetLatencyBudgetEngine,
    {
        DetNetLatencyBudgetEngine
    }
}

impl DetNetLatencyBudgetEngine {
    pub fn new() -> (r: Self)
        ensures
            r == DetNetLatencyBudgetEngine,
    {
        DetNetLatencyBudgetEngine
    }
}

} // verus!
