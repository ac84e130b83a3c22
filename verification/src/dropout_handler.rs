//! Telemetry dropout detection and state prediction during gaps.
//!
//! A two-state machine (Normal / Dropout) wrapping its own Kalman
//! estimator, used strictly for forward prediction during gaps. A dropout
//! is entered when the gap since the last accepted measurement exceeds a
//! configured threshold — in wall-clock seconds on the measurement path,
//! or in sample indices on the index path — and left by the next
//! measurement, which triggers one normal update rather than a replay of
//! every skipped step.

use vstd::prelude::*;

use vstd::arithmetic::div_mod::{
    lemma_div_is_ordered, lemma_div_nonincreasing, lemma_fundamental_div_mod,
    lemma_fundamental_div_mod_converse, lemma_mod_division_less_than_divisor,
};
use vstd::arithmetic::mul::{
    lemma_mul_inequality, lemma_mul_is_commutative, lemma_mul_is_distributive_sub,
    lemma_mul_nonnegative, lemma_mul_upper_bound,
};

use crate::error::Error;
use crate::kalman::{
    charge_z, predict_iter, KalmanFilter, CONFIDENCE_HALF_TRACE, LOAD_MAX, DT_MAX,
};
use crate::measurement::Measurement;
use crate::state_estimate::{confidence_from_trace, confidence_of_trace, StateEstimate};
use crate::SCALE;

verus! {

/// `factor^g`, evaluated in scaled arithmetic: the confidence retained
/// after `g` decay steps, starting from `SCALE` (full confidence).
pub open spec fn decay_pow(factor: int, g: nat) -> int
    decreases g,
{
    if g == 0 {
        SCALE as int
    } else {
        (decay_pow(factor, (g - 1) as nat) * factor) / (SCALE as int)
    }
}

/// Decayed confidence stays within `[0, SCALE]`.
pub proof fn lemma_decay_bounds(factor: int, g: nat)
    requires
        0 <= factor <= SCALE,
    ensures
        0 <= decay_pow(factor, g) <= SCALE,
    decreases g,
{
    if g > 0 {
        lemma_decay_bounds(factor, (g - 1) as nat);
        let d = decay_pow(factor, (g - 1) as nat);
        lemma_mul_nonnegative(d, factor);
        vstd::arithmetic::div_mod::lemma_div_pos_is_pos(d * factor, SCALE as int);
        lemma_mul_inequality(factor, SCALE as int, d);
        lemma_mul_is_commutative(factor, d);
        lemma_mul_is_commutative(SCALE as int, d);
        lemma_div_is_ordered(d * factor, d * SCALE, SCALE as int);
        vstd::arithmetic::div_mod::lemma_div_by_multiple(d, SCALE as int);
    }
}

/// Decayed confidence never grows with the number of decay steps.
pub proof fn lemma_decay_nonincreasing(factor: int, g1: nat, g2: nat)
    requires
        0 <= factor <= SCALE,
        g1 <= g2,
    ensures
        decay_pow(factor, g2) <= decay_pow(factor, g1),
    decreases g2,
{
    if g1 < g2 {
        lemma_decay_nonincreasing(factor, g1, (g2 - 1) as nat);
        let d = decay_pow(factor, (g2 - 1) as nat);
        lemma_decay_bounds(factor, (g2 - 1) as nat);
        lemma_mul_inequality(factor, SCALE as int, d);
        lemma_mul_is_commutative(factor, d);
        lemma_mul_is_commutative(SCALE as int, d);
        lemma_div_is_ordered(d * factor, d * SCALE, SCALE as int);
        vstd::arithmetic::div_mod::lemma_div_by_multiple(d, SCALE as int);
    }
}

/// Once the decayed confidence reaches zero it stays there.
proof fn lemma_decay_zero_absorbs(factor: int, g1: nat, g2: nat)
    requires
        0 <= factor <= SCALE,
        g1 <= g2,
        decay_pow(factor, g1) == 0,
    ensures
        decay_pow(factor, g2) == 0,
    decreases g2,
{
    if g1 < g2 {
        lemma_decay_zero_absorbs(factor, g1, (g2 - 1) as nat);
    }
}

/// Computes `decay_pow(factor, steps)`.
pub(crate) fn decay_confidence(factor: u64, steps: u64) -> (c: u64)
    requires
        factor <= SCALE,
    ensures
        c == decay_pow(factor as int, steps as nat),
        c <= SCALE,
{
    let mut acc: u64 = SCALE;
    let mut i: u64 = 0;
    while i < steps && acc > 0
        invariant
            i <= steps,
            factor <= SCALE,
            acc == decay_pow(factor as int, i as nat),
            acc <= SCALE,
        decreases steps - i,
    {
        proof {
            lemma_mul_upper_bound(acc as int, SCALE as int, factor as int, SCALE as int);
        }
        acc = (acc * factor) / SCALE;
        i = i + 1;
    }
    proof {
        if acc == 0 {
            lemma_decay_zero_absorbs(factor as int, i as nat, steps as nat);
        }
    }
    acc
}

/// Confidence assigned after a dropout of `g` samples on a filter whose
/// covariance trace is `trace`: the exponential per-sample decay times
/// the covariance-based confidence.
pub open spec fn dropout_confidence(factor: int, trace: int, g: nat) -> int {
    (decay_pow(factor, g) * confidence_of_trace(CONFIDENCE_HALF_TRACE as int, trace))
        / (SCALE as int)
}

/// Dropout confidence never grows with the gap length, all else equal.
pub proof fn lemma_dropout_confidence_nonincreasing(factor: int, trace: int, g1: nat, g2: nat)
    requires
        0 <= factor <= SCALE,
        0 <= trace,
        g1 <= g2,
    ensures
        dropout_confidence(factor, trace, g2) <= dropout_confidence(factor, trace, g1),
{
    let c = confidence_of_trace(CONFIDENCE_HALF_TRACE as int, trace);
    lemma_mul_nonnegative(SCALE as int, CONFIDENCE_HALF_TRACE as int);
    vstd::arithmetic::div_mod::lemma_div_pos_is_pos(
        SCALE * (CONFIDENCE_HALF_TRACE as int), CONFIDENCE_HALF_TRACE + trace);
    lemma_decay_nonincreasing(factor, g1, g2);
    lemma_mul_inequality(decay_pow(factor, g2), decay_pow(factor, g1), c);
    lemma_div_is_ordered(decay_pow(factor, g2) * c, decay_pow(factor, g1) * c, SCALE as int);
}

/// Dropout confidence is strictly decreasing in the elapsed gap, all else
/// equal, as long as it is still large enough for one decay step to be
/// visible at the scaled resolution: confidence after a longer gap is
/// strictly below confidence after a shorter one.
pub proof fn lemma_dropout_confidence_strictly_decreasing(
    factor: int,
    trace: int,
    g1: nat,
    g2: nat,
)
    requires
        1 <= factor < SCALE,
        0 <= trace,
        g1 < g2,
        (SCALE - factor) * dropout_confidence(factor, trace, g1) >= SCALE,
    ensures
        dropout_confidence(factor, trace, g2) < dropout_confidence(factor, trace, g1),
{
    let s = SCALE as int;
    let c = confidence_of_trace(CONFIDENCE_HALF_TRACE as int, trace);
    lemma_mul_nonnegative(s, CONFIDENCE_HALF_TRACE as int);
    vstd::arithmetic::div_mod::lemma_div_pos_is_pos(
        s * (CONFIDENCE_HALF_TRACE as int), CONFIDENCE_HALF_TRACE + trace);
    let d1 = decay_pow(factor, g1);
    let d2 = decay_pow(factor, g2);
    let a = decay_pow(factor, (g1 + 1) as nat);
    lemma_decay_bounds(factor, g1);
    lemma_decay_bounds(factor, g2);
    lemma_decay_bounds(factor, (g1 + 1) as nat);
    lemma_decay_nonincreasing(factor, (g1 + 1) as nat, g2);
    let conf1 = dropout_confidence(factor, trace, g1);
    // s·a <= d1·factor, and hence s·(d1 − a) >= d1·(s − factor).
    lemma_fundamental_div_mod(d1 * factor, s);
    lemma_mod_division_less_than_divisor(d1 * factor, s);
    lemma_mul_is_distributive_sub(d1, s, factor);
    lemma_mul_is_commutative(d1, s);
    // (s·(d1 − a))·c >= (d1·(s − factor))·c.
    lemma_mul_inequality(d1 * (s - factor), s * (d1 - a), c);
    // d1·c >= s·conf1.
    lemma_fundamental_div_mod(d1 * c, s);
    lemma_mod_division_less_than_divisor(d1 * c, s);
    // (d1·(s − factor))·c == (s − factor)·(d1·c) >= (s − factor)·(s·conf1)
    // == s·((s − factor)·conf1) >= s·s.
    assert((d1 * (s - factor)) * c == (s - factor) * (d1 * c)) by (nonlinear_arith);
    lemma_mul_inequality(s * conf1, d1 * c, s - factor);
    lemma_mul_is_commutative(s * conf1, s - factor);
    lemma_mul_is_commutative(d1 * c, s - factor);
    assert((s - factor) * (s * conf1) == s * ((s - factor) * conf1)) by (nonlinear_arith);
    lemma_mul_inequality(s, (s - factor) * conf1, s);
    lemma_mul_is_commutative(s, (s - factor) * conf1);
    assert(s * ((d1 - a) * c) >= s * s) by {
        assert((s * (d1 - a)) * c == s * ((d1 - a) * c)) by (nonlinear_arith);
    }
    assert((d1 - a) * c >= s) by (nonlinear_arith)
        requires
            s * ((d1 - a) * c) >= s * s,
            s >= 1,
    {}
    // Therefore d2·c <= a·c <= d1·c − s.
    lemma_mul_inequality(d2, a, c);
    lemma_mul_is_distributive_sub(c, d1, a);
    lemma_mul_is_commutative(c, d1);
    lemma_mul_is_commutative(c, a);
    lemma_mul_is_commutative(c, d1 - a);
    // And so the scaled confidence drops by at least one.
    lemma_div_is_ordered(d2 * c, d1 * c - s, s);
    let rem = (d1 * c) % s;
    lemma_fundamental_div_mod_converse(d1 * c - s, s, conf1 - 1, rem);
    lemma_mul_is_distributive_sub(s, conf1, 1);
}

/// Current dropout status, queryable at any time.
#[derive(Clone, Copy, Debug, PartialEq, Eq, Structural)]
pub struct DropoutStatus {
    /// Is the machine in the Dropout state?
    pub in_dropout: bool,
    /// Seconds since the dropout began, when one is in progress.
    pub dropout_duration: Option<i64>,
}

/// Detects telemetry dropouts and fills gaps with forward predictions
/// from an exclusively owned Kalman estimator.
#[derive(Clone, Copy, Debug)]
pub struct DropoutHandler {
    /// The owned estimator, used for forward prediction during gaps and
    /// for normal updates outside them; never shared.
    pub kalman: KalmanFilter,
    /// Wall-clock gap (seconds) beyond which a dropout is declared.
    pub gap_threshold: u64,
    /// Sample-index gap beyond which a dropout is declared.
    pub dropout_threshold_samples: u32,
    /// Per-sample confidence decay factor (scaled, below `SCALE`).
    pub decay_factor: u64,
    /// Per-ten-seconds confidence decay factor on the measurement path.
    pub time_decay_factor: u64,
    /// Last accepted measurement, if any.
    pub last_measurement: Option<Measurement>,
    /// Last sample index at which telemetry was valid (index path).
    pub last_valid_sample: u32,
    /// Is the machine in the Dropout state?
    pub in_dropout: bool,
    /// Time at which the current dropout began (measurement path).
    pub dropout_start: Option<u64>,
    /// Sample index at which the current dropout began (index path).
    pub dropout_start_sample: u32,
    /// Last control input (load power, milli-watts) handed to the gap
    /// predictor; dropout cycles advance the estimator under it.
    pub last_control_input: u64,
}

impl DropoutHandler {
    pub open spec fn wf(self) -> bool {
        &&& self.kalman.wf()
        &&& 1 <= self.gap_threshold
        &&& 1 <= self.decay_factor < SCALE
        &&& 1 <= self.time_decay_factor <= SCALE
        &&& self.last_control_input <= LOAD_MAX
        &&& self.last_measurement matches Some(l) ==> l.wf()
    }

    /// The configuration fields, which no processing step changes.
    pub open spec fn same_settings(self, other: DropoutHandler) -> bool {
        &&& self.gap_threshold == other.gap_threshold
        &&& self.dropout_threshold_samples == other.dropout_threshold_samples
        &&& self.decay_factor == other.decay_factor
        &&& self.time_decay_factor == other.time_decay_factor
    }

    /// Seconds elapsed between the last accepted measurement and `m`
    /// (zero when there is none, or when time moved backwards).
    pub open spec fn gap_seconds(self, m: Measurement) -> int {
        match self.last_measurement {
            Some(last) => if m.timestamp >= last.timestamp {
                m.timestamp - last.timestamp
            } else {
                0
            },
            None => 0,
        }
    }

    /// Does accepting `m` now reveal a communication dropout?
    pub open spec fn detects_dropout(self, m: Measurement) -> bool {
        self.last_measurement is Some && self.gap_seconds(m) > self.gap_threshold
    }

    /// A handler in the Normal state around a freshly initialized
    /// estimator (nominal voltage 28 V, capacity 100 Ah), with a 5 s and
    /// 5-sample dropout threshold.
    pub fn new(dt: u64) -> (h: DropoutHandler)
        requires
            1 <= dt <= DT_MAX,
        ensures
            h.wf(),
            !h.in_dropout,
            h.dropout_start is None,
            h.last_measurement is None,
            h.last_valid_sample == 0,
            h.gap_threshold == 5,
            h.dropout_threshold_samples == 5,
            h.decay_factor == 905,
            h.time_decay_factor == 950,
            h.kalman.dt == dt,
            !h.kalman.diverged,
            h.kalman.nominal_voltage == 28_000,
            h.kalman.nominal_capacity == 100,
            h.last_control_input == 0,
    {
        DropoutHandler {
            kalman: KalmanFilter::new(28_000, 100, dt),
            gap_threshold: 5,
            dropout_threshold_samples: 5,
            decay_factor: 905,
            time_decay_factor: 950,
            last_measurement: None,
            last_valid_sample: 0,
            in_dropout: false,
            dropout_start: None,
            dropout_start_sample: 0,
            last_control_input: 0,
        }
    }

    /// Processes one measurement. If the gap since the last accepted
    /// measurement exceeds the threshold, the machine enters Dropout:
    /// the owned estimator advances one predict step under the last known
    /// control input, and its estimate is returned with the confidence
    /// degraded by `time_decay_factor ^ (gap/10 s)`. Otherwise the
    /// machine is in Normal: the measurement drives one filter update
    /// (charge, voltage and solar channels measured) and the fresh
    /// estimate is returned; a filter failure is propagated and leaves
    /// the last accepted measurement unchanged.
    pub fn process(&mut self, m: &Measurement) -> (r: Result<Option<StateEstimate>, Error>)
        requires
            old(self).wf(),
            m.wf(),
        ensures
            final(self).wf(),
            final(self).same_settings(*old(self)),
            final(self).kalman.same_config(old(self).kalman),
            final(self).last_valid_sample == old(self).last_valid_sample,
            final(self).dropout_start_sample == old(self).dropout_start_sample,
            final(self).last_control_input == old(self).last_control_input,
            old(self).detects_dropout(*m) ==> {
                &&& final(self).in_dropout
                &&& final(self).dropout_start == Some(m.timestamp)
                &&& final(self).last_measurement == Some(*m)
                &&& final(self).kalman == old(self).kalman.predict_step(
                    old(self).last_control_input as int)
                &&& match r {
                    Ok(Some(est)) => {
                        &&& est.timestamp == m.timestamp
                        &&& est.battery_charge == final(self).kalman.charge.x
                        &&& est.battery_voltage == final(self).kalman.voltage.x
                        &&& est.solar_input == final(self).kalman.solar.x
                        &&& est.battery_efficiency == final(self).kalman.efficiency.x
                        &&& est.confidence == (confidence_of_trace(
                            CONFIDENCE_HALF_TRACE as int, final(self).kalman.cov_trace())
                            * decay_pow(old(self).time_decay_factor as int,
                                (old(self).gap_seconds(*m) / 10) as nat)) / (SCALE as int)
                        &&& est.covariance_trace == final(self).kalman.cov_trace()
                    },
                    _ => false,
                }
            },
            !old(self).detects_dropout(*m) ==> {
                &&& !final(self).in_dropout
                &&& final(self).dropout_start is None
                &&& old(self).kalman.diverged ==> {
                    &&& final(self).kalman == old(self).kalman
                    &&& final(self).last_measurement == old(self).last_measurement
                    &&& r == Result::<Option<StateEstimate>, Error>::Err(
                        Error::FilterDivergence(old(self).kalman.cov_trace() as u64))
                }
                &&& !old(self).kalman.diverged ==> {
                    &&& final(self).kalman.charge.x == old(self).kalman.charge.updated_x(
                        Some(charge_z(*m, old(self).kalman)))
                    &&& final(self).kalman.voltage.x == old(self).kalman.voltage.updated_x(
                        Some(m.battery_voltage))
                    &&& final(self).kalman.solar.x == old(self).kalman.solar.updated_x(
                        Some(m.solar_input))
                    &&& final(self).kalman.efficiency.x
                        == old(self).kalman.efficiency.updated_x(None)
                    &&& final(self).kalman.charge.p == old(self).kalman.charge.stepped_cov()
                    &&& final(self).kalman.voltage.p == old(self).kalman.voltage.stepped_cov()
                    &&& final(self).kalman.solar.p == old(self).kalman.solar.stepped_cov()
                    &&& final(self).kalman.efficiency.p
                        == old(self).kalman.efficiency.stepped_cov()
                    &&& final(self).kalman.cov_trace() <= old(self).kalman.cov_trace()
                    &&& match r {
                        Ok(Some(est)) => {
                            &&& final(self).kalman.cov_trace()
                                <= old(self).kalman.divergence_threshold
                            &&& !final(self).kalman.diverged
                            &&& final(self).last_measurement == Some(*m)
                            &&& est.timestamp == m.timestamp
                            &&& est.battery_charge == final(self).kalman.charge.x
                            &&& est.battery_voltage == final(self).kalman.voltage.x
                            &&& est.solar_input == final(self).kalman.solar.x
                            &&& est.battery_efficiency == final(self).kalman.efficiency.x
                            &&& est.confidence == confidence_of_trace(
                                CONFIDENCE_HALF_TRACE as int, final(self).kalman.cov_trace())
                            &&& est.covariance_trace == final(self).kalman.cov_trace()
                        },
                        Err(e) => {
                            &&& final(self).kalman.cov_trace()
                                > old(self).kalman.divergence_threshold
                            &&& final(self).kalman.diverged
                            &&& final(self).last_measurement == old(self).last_measurement
                            &&& e == Error::FilterDivergence(
                                final(self).kalman.cov_trace() as u64)
                        },
                        Ok(None) => false,
                    }
                }
            },
    {
        let gap: u64 = match &self.last_measurement {
            Some(last) => if m.timestamp >= last.timestamp {
                m.timestamp - last.timestamp
            } else {
                0
            },
            None => 0,
        };
        let have_last = match &self.last_measurement {
            Some(_) => true,
            None => false,
        };
        if have_last && gap > self.gap_threshold {
            // Dropout detected: advance the estimator one predict step
            // under the last known control input and degrade confidence.
            self.in_dropout = true;
            self.dropout_start = Some(m.timestamp);
            self.kalman.predict(self.last_control_input);
            let est0 = self.kalman.get_estimate(m.timestamp);
            let deg = decay_confidence(self.time_decay_factor, gap / 10);
            proof {
                lemma_mul_upper_bound(
                    est0.confidence as int, SCALE as int, deg as int, SCALE as int);
            }
            let conf = (est0.confidence * deg) / SCALE;
            let est = StateEstimate {
                timestamp: est0.timestamp,
                battery_charge: est0.battery_charge,
                battery_voltage: est0.battery_voltage,
                solar_input: est0.solar_input,
                battery_efficiency: est0.battery_efficiency,
                confidence: conf,
                covariance_trace: est0.covariance_trace,
            };
            self.last_measurement = Some(*m);
            return Ok(Some(est));
        }
        // Normal path: one measurement-driven update.
        self.in_dropout = false;
        self.dropout_start = None;
        proof {
            lemma_div_nonincreasing((m.battery_charge * 100) as int,
                old(self).kalman.nominal_capacity as int);
        }
        let zc: u64 = (m.battery_charge * 100) / self.kalman.nominal_capacity;
        match self.kalman.update(
            Some(zc), Some(m.battery_voltage), Some(m.solar_input), None) {
            Err(e) => Err(e),
            Ok(est0) => {
                self.last_measurement = Some(*m);
                Ok(Some(StateEstimate {
                    timestamp: m.timestamp,
                    battery_charge: est0.battery_charge,
                    battery_voltage: est0.battery_voltage,
                    solar_input: est0.solar_input,
                    battery_efficiency: est0.battery_efficiency,
                    confidence: est0.confidence,
                    covariance_trace: est0.covariance_trace,
                }))
            },
        }
    }

    /// The current dropout status: whether the machine is in Dropout,
    /// and how many seconds have passed since the dropout began.
    pub fn dropout_status(&self, now: u64) -> (st: DropoutStatus)
        requires
            now < 0x4000_0000_0000_0000,
        ensures
            st.in_dropout == self.in_dropout,
            st.dropout_duration == match self.dropout_start {
                Some(start) => Some((if now >= start {
                    now - start
                } else {
                    0
                }) as i64),
                None => None::<i64>,
            },
    {
        DropoutStatus {
            in_dropout: self.in_dropout,
            dropout_duration: match &self.dropout_start {
                Some(start) => {
                    let s = *start;
                    Some((if now >= s {
                        now - s
                    } else {
                        0
                    }) as i64)
                },
                None => None,
            },
        }
    }

    /// Declares a dropout when the sample-index gap since the last valid
    /// sample exceeds the configured threshold; otherwise changes nothing.
    pub fn check_dropout(&mut self, current_sample: u32) -> (r: bool)
        requires
            old(self).wf(),
        ensures
            final(self).wf(),
            r <==> (if current_sample >= old(self).last_valid_sample {
                current_sample - old(self).last_valid_sample
            } else {
                0
            }) > old(self).dropout_threshold_samples,
            r ==> *final(self) == (DropoutHandler {
                in_dropout: true,
                dropout_start_sample: old(self).last_valid_sample,
                ..*old(self)
            }),
            !r ==> *final(self) == *old(self),
    {
        let gap: u32 = if current_sample >= self.last_valid_sample {
            current_sample - self.last_valid_sample
        } else {
            0
        };
        if gap > self.dropout_threshold_samples {
            self.in_dropout = true;
            self.dropout_start_sample = self.last_valid_sample;
            true
        } else {
            false
        }
    }

    /// Records the sample index at which telemetry resumed and returns
    /// the machine to the Normal state.
    pub fn update_last_valid(&mut self, sample: u32)
        requires
            old(self).wf(),
        ensures
            final(self).wf(),
            *final(self) == (DropoutHandler {
                last_valid_sample: sample,
                in_dropout: false,
                ..*old(self)
            }),
    {
        self.last_valid_sample = sample;
        self.in_dropout = false;
    }

    /// Confidence retained after a dropout of the given length: the
    /// per-sample exponential decay times the covariance-based factor.
    pub fn estimate_confidence_degradation(&self, gap_duration_samples: u32) -> (c: u64)
        requires
            self.wf(),
        ensures
            c == dropout_confidence(
                self.decay_factor as int, self.kalman.cov_trace(),
                gap_duration_samples as nat),
            c <= SCALE,
    {
        let deg = decay_confidence(self.decay_factor, gap_duration_samples as u64);
        let covf = confidence_from_trace(CONFIDENCE_HALF_TRACE, self.kalman.uncertainty());
        proof {
            lemma_mul_upper_bound(deg as int, SCALE as int, covf as int, SCALE as int);
        }
        (deg * covf) / SCALE
    }
}

/// The gap-fill entry for missing index `start + i`: the state after
/// `i + 1` forward predictions, confidence-scored by its own elapsed gap.
pub open spec fn gap_entry(h: DropoutHandler, load: int, start: int, i: nat) -> StateEstimate {
    let kf = predict_iter(h.kalman, load, (i + 1) as nat);
    StateEstimate {
        timestamp: (start + i) as u64,
        battery_charge: kf.charge.x,
        battery_voltage: kf.voltage.x,
        solar_input: kf.solar.x,
        battery_efficiency: kf.efficiency.x,
        confidence: dropout_confidence(
            h.decay_factor as int, kf.cov_trace(), (i + 1) as nat) as u64,
        covariance_trace: kf.cov_trace() as u64,
    }
}

impl DropoutHandler {
    /// Fills the closed index range `[gap_start, gap_end]` with one
    /// forward prediction per missing sample, each entry independently
    /// confidence-scored by its elapsed gap length. No measurement
    /// updates occur for intermediate indices.
    pub fn fill_dropout_gap(
        &mut self,
        gap_start: u32,
        gap_end: u32,
        load_power: u64,
    ) -> (r: Vec<(u32, StateEstimate)>)
        requires
            old(self).wf(),
            gap_start <= gap_end,
            gap_end - gap_start < 0xFFFF_FFFF,
            load_power <= LOAD_MAX,
        ensures
            final(self).wf(),
            final(self).same_settings(*old(self)),
            *final(self) == (DropoutHandler {
                kalman: final(self).kalman,
                last_control_input: load_power,
                ..*old(self)
            }),
            final(self).kalman == predict_iter(
                old(self).kalman, load_power as int, (gap_end - gap_start + 1) as nat),
            r@.len() == gap_end - gap_start + 1,
            forall|i: int| 0 <= i < r@.len() ==> #[trigger] r@[i]
                == ((gap_start + i) as u32,
                    gap_entry(*old(self), load_power as int, gap_start as int, i as nat)),
    {
        let ghost oh = *self;
        self.last_control_input = load_power;
        let mut out: Vec<(u32, StateEstimate)> = Vec::new();
        let mut idx: u64 = gap_start as u64;
        let end: u64 = gap_end as u64;
        while idx <= end
            invariant
                oh.wf(),
                load_power <= LOAD_MAX,
                gap_start <= idx <= end + 1,
                end == gap_end,
                gap_start <= gap_end,
                end - gap_start < 0xFFFF_FFFF,
                *self == (DropoutHandler {
                    kalman: self.kalman,
                    last_control_input: load_power,
                    ..oh
                }),
                self.kalman == predict_iter(
                    oh.kalman, load_power as int, (idx - gap_start) as nat),
                self.kalman.wf(),
                out@.len() == idx - gap_start,
                forall|i: int| 0 <= i < out@.len() ==> #[trigger] out@[i]
                    == ((gap_start + i) as u32,
                        gap_entry(oh, load_power as int, gap_start as int, i as nat)),
            decreases end + 1 - idx,
        {
            let ghost n_before = (idx - gap_start) as nat;
            let st = self.kalman.predict(load_power);
            proof {
                assert(predict_iter(oh.kalman, load_power as int, (n_before + 1) as nat)
                    == predict_iter(oh.kalman, load_power as int, n_before).predict_step(
                        load_power as int));
            }
            let elapsed: u64 = idx - gap_start as u64 + 1;
            let conf = self.estimate_confidence_degradation(elapsed as u32);
            let trace = self.kalman.uncertainty();
            let est = StateEstimate {
                timestamp: idx,
                battery_charge: st.charge,
                battery_voltage: st.voltage,
                solar_input: st.solar,
                battery_efficiency: st.efficiency,
                confidence: conf,
                covariance_trace: trace,
            };
            out.push((idx as u32, est));
            proof {
                let i = idx - gap_start;
                assert(out@[i].1 == gap_entry(oh, load_power as int, gap_start as int, i as nat));
            }
            idx = idx + 1;
        }
        out
    }

    /// Returns the machine to its initial Normal state and resets the
    /// owned estimator to its configured nominal point.
    pub fn reset(&mut self)
        requires
            old(self).wf(),
        ensures
            final(self).wf(),
            final(self).same_settings(*old(self)),
            final(self).kalman.same_config(old(self).kalman),
            !final(self).in_dropout,
            final(self).dropout_start is None,
            final(self).last_measurement is None,
            final(self).last_control_input == 0,
            !final(self).kalman.diverged,
            final(self).kalman.charge.x == 80_000,
            final(self).kalman.voltage.x == old(self).kalman.nominal_voltage,
            final(self).kalman.solar.x == 400_000,
            final(self).kalman.efficiency.x == 1_000,
            final(self).kalman.charge.p == old(self).kalman.charge.p0,
            final(self).kalman.voltage.p == old(self).kalman.voltage.p0,
            final(self).kalman.solar.p == old(self).kalman.solar.p0,
            final(self).kalman.efficiency.p == old(self).kalman.efficiency.p0,
    {
        self.in_dropout = false;
        self.dropout_start = None;
        self.last_measurement = None;
        self.last_control_input = 0;
        self.kalman.reset();
    }
}

} // verus!
