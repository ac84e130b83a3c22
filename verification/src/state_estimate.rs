//! Timestamped snapshot of the estimated state.

use vstd::prelude::*;

use crate::SCALE;

verus! {

/// Confidence derived from a covariance trace: `SCALE * k / (k + trace)`,
/// a monotone decreasing function of the trace. `k` is the trace value at
/// which confidence has fallen to one half.
pub open spec fn confidence_of_trace(k: int, trace: int) -> int {
    (SCALE * k) / (k + trace)
}

/// Computes `confidence_of_trace(k, trace)`.
pub fn confidence_from_trace(k: u64, trace: u64) -> (c: u64)
    requires
        1 <= k <= 1_000_000,
        trace <= 8_000_000_000,
    ensures
        c == confidence_of_trace(k as int, trace as int),
        c <= SCALE,
{
    let num: u64 = SCALE * k;
    let den: u64 = k + trace;
    let c = num / den;
    proof {
        vstd::arithmetic::div_mod::lemma_div_is_ordered(
            SCALE * k, SCALE * (k + trace), k + trace);
        vstd::arithmetic::mul::lemma_mul_inequality(k as int, k + trace, SCALE as int);
        vstd::arithmetic::mul::lemma_mul_is_commutative(SCALE as int, k + trace);
        vstd::arithmetic::div_mod::lemma_div_multiples_vanish(SCALE as int, k + trace);
    }
    c
}

/// A larger trace never yields a larger confidence.
pub proof fn lemma_confidence_antitone(k: int, t1: int, t2: int)
    requires
        1 <= k,
        0 <= t1 <= t2,
    ensures
        confidence_of_trace(k, t2) <= confidence_of_trace(k, t1),
{
    vstd::arithmetic::mul::lemma_mul_nonnegative(SCALE as int, k);
    vstd::arithmetic::div_mod::lemma_div_is_ordered_by_denominator(
        SCALE * k, k + t1, k + t2);
}

/// Estimated satellite power state: a snapshot of the filter's state
/// vector with its confidence and covariance trace, in the crate's scaled
/// units. Produced per predict/update cycle and never persisted.
#[derive(Clone, Copy, Debug, PartialEq, Eq, Structural)]
pub struct StateEstimate {
    /// Seconds since the epoch at which this estimate was produced.
    pub timestamp: u64,
    /// Estimated battery charge (milli-percent of full charge).
    pub battery_charge: u64,
    /// Estimated battery voltage (milli-volts).
    pub battery_voltage: u64,
    /// Estimated solar input power (milli-watts).
    pub solar_input: u64,
    /// Estimated battery efficiency in `[0, SCALE]`.
    pub battery_efficiency: u64,
    /// Confidence in this estimate, in `[0, SCALE]`.
    pub confidence: u64,
    /// Trace of the covariance diagonal (scaled), the uncertainty measure.
    pub covariance_trace: u64,
}

impl StateEstimate {
    /// Is the estimate trustworthy: confidence above 0.7 and covariance
    /// trace below 100 units?
    pub fn is_reliable(&self) -> (r: bool)
        ensures
            r <==> self.confidence > 700 && self.covariance_trace < 100_000,
    {
        self.confidence > 700 && self.covariance_trace < 100_000
    }
}

} // verus!
