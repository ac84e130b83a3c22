//! Error taxonomy of the estimation pipeline.

use vstd::prelude::*;

verus! {

/// The telemetry field that a range check speaks about.
#[derive(Clone, Copy, Debug, PartialEq, Eq, Structural)]
pub enum Field {
    BatteryVoltage,
    BatteryCharge,
    BatteryTemp,
    BusVoltage,
    BusCurrent,
    SolarInput,
    SolarPanelTemp,
    PayloadTemp,
    Quality,
}

/// Every failure the pipeline reports to its caller.
///
/// No failure is ever converted into a placeholder numeric value: each one
/// is returned as a typed result, and retry or reset policy is the
/// caller's decision.
#[derive(Clone, Copy, Debug, PartialEq, Eq, Structural)]
pub enum Error {
    /// A measurement field lies outside its configured `[min, max]` range
    /// (scaled by `SCALE`). Validation fails on the first violated field.
    OutOfRange(Field, u64, u64),
    /// The covariance trace exceeded the configured divergence threshold.
    /// Fatal to the filter instance until an explicit `reset`.
    FilterDivergence(u64),
    /// The innovation covariance was not invertible during an update.
    /// Fatal for that call only. With the strictly positive measurement
    /// noise enforced at construction this cannot arise, but it is part of
    /// the pipeline's error taxonomy.
    SingularInnovationCovariance,
    /// Inconsistent configuration handed to a constructor, such as an
    /// empty range or a noise magnitude outside the supported bounds.
    ConfigurationError,
}

} // verus!
