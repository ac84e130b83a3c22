//! Satellite telemetry state estimation.
//!
//! Estimates the hidden state of a satellite power subsystem from noisy
//! periodic telemetry and keeps producing usable estimates through
//! communication dropouts. All physical quantities are carried as scaled
//! integers with three decimal digits of resolution (milli-units), so that
//! every numeric step of the pipeline has an exact contract.

use vstd::prelude::*;

pub mod dropout_handler;
pub mod error;
pub mod hidden_state_inference;
pub mod kalman;
pub mod measurement;
pub mod record;
pub mod state_estimate;

pub use dropout_handler::{DropoutHandler, DropoutStatus};
pub use error::{Error, Field};
pub use hidden_state_inference::{
    DropoutAwareInference, HiddenStateEstimate, HiddenStateInferenceEngine, InferenceMap,
};
pub use kalman::{KalmanFilter, KalmanState};
pub use measurement::{Measurement, MeasurementValidator};
pub use state_estimate::StateEstimate;

verus! {

/// One thousandth of a physical unit: the resolution of every scaled
/// quantity in this crate (volts, ampere-hours, watts, ratios).
pub const SCALE: u64 = 1000;

/// Upper bound on any scaled telemetry reading accepted by the pipeline;
/// keeps all intermediate filter arithmetic inside `u64`.
pub const READING_MAX: u64 = 10_000_000;

/// Crate version string.
pub fn version() -> (v: &'static str)
    ensures
        v@.len() > 0,
{
    proof {
        reveal_strlit("0.1.0");
    }
    "0.1.0"
}

/// Runs one measurement through the whole normal path: validates it
/// against the nominal ranges, feeds it to the filter (charge, voltage
/// and solar channels measured), and returns the fresh estimate stamped
/// with the measurement's timestamp. A validation failure names the first
/// violated field and leaves the filter untouched.
pub fn process_measurement(
    measurement: &Measurement,
    kalman: &mut KalmanFilter,
) -> (r: Result<StateEstimate, Error>)
    requires
        old(kalman).wf(),
    ensures
        final(kalman).wf(),
        final(kalman).same_config(*old(kalman)),
        final(kalman).cov_trace() <= old(kalman).cov_trace(),
        match measurement::default_validator().first_violation(*measurement) {
            Some((f, lo, hi)) => {
                &&& r == Result::<StateEstimate, Error>::Err(Error::OutOfRange(f, lo, hi))
                &&& *final(kalman) == *old(kalman)
            },
            None => {
                &&& old(kalman).diverged ==> *final(kalman) == *old(kalman)
                    && r == Result::<StateEstimate, Error>::Err(
                        Error::FilterDivergence(old(kalman).cov_trace() as u64))
                &&& !old(kalman).diverged ==> {
                    &&& final(kalman).charge.x == old(kalman).charge.updated_x(
                        Some(kalman::charge_z(*measurement, *old(kalman))))
                    &&& final(kalman).voltage.x == old(kalman).voltage.updated_x(
                        Some(measurement.battery_voltage))
                    &&& final(kalman).solar.x == old(kalman).solar.updated_x(
                        Some(measurement.solar_input))
                    &&& final(kalman).efficiency.x == old(kalman).efficiency.updated_x(None)
                    &&& final(kalman).charge.p == old(kalman).charge.stepped_cov()
                    &&& final(kalman).voltage.p == old(kalman).voltage.stepped_cov()
                    &&& final(kalman).solar.p == old(kalman).solar.stepped_cov()
                    &&& final(kalman).efficiency.p == old(kalman).efficiency.stepped_cov()
                    &&& match r {
                        Ok(est) => {
                            &&& final(kalman).cov_trace()
                                <= old(kalman).divergence_threshold
                            &&& !final(kalman).diverged
                            &&& est.timestamp == measurement.timestamp
                            &&& est.battery_charge == final(kalman).charge.x
                            &&& est.battery_voltage == final(kalman).voltage.x
                            &&& est.solar_input == final(kalman).solar.x
                            &&& est.battery_efficiency == final(kalman).efficiency.x
                            &&& est.confidence == state_estimate::confidence_of_trace(
                                kalman::CONFIDENCE_HALF_TRACE as int,
                                final(kalman).cov_trace())
                            &&& est.covariance_trace == final(kalman).cov_trace()
                        },
                        Err(e) => {
                            &&& final(kalman).cov_trace()
                                > old(kalman).divergence_threshold
                            &&& final(kalman).diverged
                            &&& e == Error::FilterDivergence(final(kalman).cov_trace() as u64)
                        },
                    }
                }
            },
        },
{
    let validator = MeasurementValidator::default();
    match validator.validate(measurement) {
        Err(e) => {
            return Err(e);
        },
        Ok(()) => {},
    }
    proof {
        vstd::arithmetic::div_mod::lemma_div_nonincreasing(
            (measurement.battery_charge * 100) as int,
            old(kalman).nominal_capacity as int);
    }
    let zc: u64 = (measurement.battery_charge * 100) / kalman.nominal_capacity;
    match kalman.update(
        Some(zc), Some(measurement.battery_voltage), Some(measurement.solar_input), None) {
        Err(e) => Err(e),
        Ok(est0) => Ok(StateEstimate {
            timestamp: measurement.timestamp,
            battery_charge: est0.battery_charge,
            battery_voltage: est0.battery_voltage,
            solar_input: est0.solar_input,
            battery_efficiency: est0.battery_efficiency,
            confidence: est0.confidence,
            covariance_trace: est0.covariance_trace,
        }),
    }
}

} // verus!
