//! Linear Kalman estimator for the satellite power subsystem.
//!
//! The canonical estimator tracks four state channels — battery charge,
//! battery voltage, solar input and battery efficiency — in scaled integer
//! units. Its transition, process-noise, measurement and measurement-noise
//! matrices are all diagonal and every channel is measured directly, so the
//! covariance stays diagonal forever and each predict/update step is exact
//! per-channel arithmetic:
//!
//! - predict: `x' = f·x/SCALE (+ physics delta on charge)`, clamped;
//!   `p' = f²·p/SCALE² + q`, saturated at `P_CAP`;
//! - update: innovation `y = z − x`, innovation covariance `s = p + r`,
//!   gain `p/s`, `x' = x + p·y/s` clamped, `p' = p·r/(p + r)`.
//!
//! Each channel carries the exact integer fixed point of its covariance
//! step map; holding `p` at or above that fixed point makes the covariance
//! trace provably non-increasing across consecutive updates.

use vstd::prelude::*;

use vstd::arithmetic::div_mod::{
    lemma_div_is_ordered, lemma_div_nonincreasing, lemma_fundamental_div_mod,
    lemma_hoist_over_denominator, lemma_multiply_divide_le, lemma_multiply_divide_lt,
};
use vstd::arithmetic::mul::{
    lemma_mul_inequality, lemma_mul_is_commutative, lemma_mul_is_distributive_add,
    lemma_mul_nonnegative, lemma_mul_upper_bound,
};

use crate::error::Error;
use crate::measurement::Measurement;
use crate::state_estimate::{confidence_from_trace, confidence_of_trace, StateEstimate};
use crate::{READING_MAX, SCALE};

verus! {

/// `SCALE * SCALE`: divisor of a product of two scaled factors.
pub const SCALE2: u64 = 1_000_000;

/// Saturation bound for a covariance diagonal entry.
pub const P_CAP: u64 = 1_000_000_000;

/// Largest accepted process or measurement noise magnitude.
pub const NOISE_MAX: u64 = 100_000_000;

/// Largest accepted measurement value handed to `update`.
pub const Z_MAX: u64 = 1_000_000_000;

/// Largest accepted control input (load power, milli-watts).
pub const LOAD_MAX: u64 = 10_000_000;

/// Largest accepted time step (seconds).
pub const DT_MAX: u64 = 1_000_000;

/// Largest accepted nominal battery capacity (whole ampere-hours).
pub const CAPACITY_MAX: u64 = 1_000_000;

/// Trace value at which estimate confidence halves (100 units, scaled).
pub const CONFIDENCE_HALF_TRACE: u64 = 100_000;

pub open spec fn min_int(a: int, b: int) -> int {
    if a < b {
        a
    } else {
        b
    }
}

pub open spec fn clamp_int(v: int, lo: int, hi: int) -> int {
    if v < lo {
        lo
    } else if v > hi {
        hi
    } else {
        v
    }
}

/// Clamp `v` into `[lo, hi]`.
pub fn clamp(v: u64, lo: u64, hi: u64) -> (r: u64)
    requires
        lo <= hi,
    ensures
        r == clamp_int(v as int, lo as int, hi as int),
{
    if v < lo {
        lo
    } else if v > hi {
        hi
    } else {
        v
    }
}

/// One state channel of the estimator: its scalar slice of the state
/// vector, covariance, transition and noise matrices, physical clamp
/// range, and the integer fixed point of its covariance step map.
#[derive(Clone, Copy, Debug, PartialEq, Eq, Structural)]
pub struct Channel {
    /// State estimate (scaled physical units).
    pub x: u64,
    /// Covariance diagonal entry (scaled).
    pub p: u64,
    /// Transition factor (per `SCALE`; `f == SCALE` keeps the state).
    pub f: u64,
    /// Process noise added to the covariance each predict (scaled).
    pub q: u64,
    /// Measurement noise (scaled).
    pub r: u64,
    /// Lower physical bound of the state.
    pub lo: u64,
    /// Upper physical bound of the state.
    pub hi: u64,
    /// Integer fixed point of the covariance step map; `p` never falls
    /// below it, which makes updates never increase the covariance.
    pub floor: u64,
    /// Covariance this channel is reset to.
    pub p0: u64,
}

/// Covariance after the predict half-step: `f²·p/SCALE² + q`, saturated.
pub open spec fn pred_cov(f: int, q: int, p: int) -> int {
    min_int((f * f * p) / (SCALE2 as int) + q, P_CAP as int)
}

/// Covariance after the measurement half-step: `p·r/(p + r)`.
pub open spec fn post_cov(r: int, p: int) -> int {
    (p * r) / (p + r)
}

/// Covariance after one full update step (predict then measure).
pub open spec fn step_cov(f: int, q: int, r: int, p: int) -> int {
    post_cov(r, pred_cov(f, q, p))
}

impl Channel {
    pub open spec fn wf(self) -> bool {
        &&& 1 <= self.f <= SCALE
        &&& 1 <= self.q <= NOISE_MAX
        &&& 1 <= self.r <= NOISE_MAX
        &&& self.lo <= self.hi <= READING_MAX
        &&& self.lo <= self.x <= self.hi
        &&& self.floor <= self.p <= P_CAP
        &&& self.floor <= self.p0 <= P_CAP
        &&& step_cov(self.f as int, self.q as int, self.r as int, self.floor as int)
            == self.floor
    }

    /// The channel's covariance step map applied to its current `p`.
    pub open spec fn stepped_cov(self) -> int {
        step_cov(self.f as int, self.q as int, self.r as int, self.p as int)
    }

    /// The channel's predicted covariance.
    pub open spec fn predicted_cov(self) -> int {
        pred_cov(self.f as int, self.q as int, self.p as int)
    }

    /// State after the linear predict half-step, clamped.
    pub open spec fn predicted_x(self) -> int {
        clamp_int((self.f * self.x) / (SCALE as int), self.lo as int, self.hi as int)
    }

    /// Everything but the evolving state and covariance.
    pub open spec fn same_params(self, other: Channel) -> bool {
        &&& self.f == other.f
        &&& self.q == other.q
        &&& self.r == other.r
        &&& self.lo == other.lo
        &&& self.hi == other.hi
        &&& self.floor == other.floor
        &&& self.p0 == other.p0
    }

    /// State after a full update step against measurement `z` (`None`
    /// re-measures the prediction, which leaves the state in place but
    /// still contracts the covariance).
    pub open spec fn updated_x(self, z: Option<u64>) -> int {
        let xp = self.predicted_x();
        let pp = self.predicted_cov();
        let s = pp + self.r;
        match z {
            None => xp,
            Some(zv) => {
                let shifted = if zv >= xp {
                    xp + (pp * (zv - xp)) / s
                } else {
                    xp - (pp * (xp - zv)) / s
                };
                clamp_int(shifted, self.lo as int, self.hi as int)
            },
        }
    }
}

/// `x/y <= z/w` follows from `x·w <= z·y` (cross multiplication).
proof fn lemma_frac_le(x: int, y: int, z: int, w: int)
    requires
        0 <= x,
        0 <= z,
        1 <= y,
        1 <= w,
        x * w <= z * y,
    ensures
        x / y <= z / w,
{
    let d = z / w;
    lemma_fundamental_div_mod(z, w);
    assert(z < w * (d + 1)) by {
        vstd::arithmetic::div_mod::lemma_mod_division_less_than_divisor(z, w);
        lemma_mul_is_distributive_add(w, d, 1);
    }
    assert(x * w < (w * (d + 1)) * y) by (nonlinear_arith)
        requires
            x * w <= z * y,
            z < w * (d + 1),
            1 <= y,
            0 <= x,
            1 <= w,
            0 <= z,
    {}
    assert(x < y * (d + 1)) by (nonlinear_arith)
        requires
            x * w < (w * (d + 1)) * y,
            1 <= w,
            1 <= y,
    {}
    lemma_multiply_divide_lt(x, y, d + 1);
}

/// The measurement half-step never raises the covariance above `p`.
proof fn lemma_post_le_p(r: int, p: int)
    requires
        0 <= p,
        1 <= r,
    ensures
        post_cov(r, p) <= p,
{
    lemma_mul_inequality(r, p + r, p);
    lemma_mul_is_commutative(p, r);
    lemma_mul_is_commutative(p, p + r);
    lemma_div_is_ordered(p * r, (p + r) * p, p + r);
    vstd::arithmetic::div_mod::lemma_div_by_multiple(p, p + r);
    lemma_mul_is_commutative(p + r, p);
}

/// The measurement half-step never raises the covariance above `r`.
proof fn lemma_post_le_r(r: int, p: int)
    requires
        0 <= p,
        1 <= r,
    ensures
        post_cov(r, p) <= r,
{
    lemma_mul_inequality(p, p + r, r);
    lemma_div_is_ordered(p * r, (p + r) * r, p + r);
    vstd::arithmetic::div_mod::lemma_div_by_multiple(r, p + r);
    lemma_mul_is_commutative(p + r, r);
}

/// The measurement half-step is monotone in the incoming covariance.
proof fn lemma_post_mono(r: int, p1: int, p2: int)
    requires
        0 <= p1 <= p2,
        1 <= r,
    ensures
        post_cov(r, p1) <= post_cov(r, p2),
{
    assert((p1 * r) * (p2 + r) <= (p2 * r) * (p1 + r)) by (nonlinear_arith)
        requires
            0 <= p1 <= p2,
            1 <= r,
    {}
    lemma_mul_nonnegative(p1, r);
    lemma_mul_nonnegative(p2, r);
    lemma_frac_le(p1 * r, p1 + r, p2 * r, p2 + r);
}

/// The measurement half-step is 1-Lipschitz in the incoming covariance.
proof fn lemma_post_lipschitz(r: int, p: int, d: int)
    requires
        0 <= p,
        0 <= d,
        1 <= r,
    ensures
        post_cov(r, p + d) <= post_cov(r, p) + d,
{
    lemma_hoist_over_denominator(p * r, d, (p + r) as nat);
    assert(post_cov(r, p) + d == (p * r + d * (p + r)) / (p + r));
    // ((p+d)·r)·(p+r) == (p·r)·(p+r) + (d·r)·(p+r)
    vstd::arithmetic::mul::lemma_mul_is_distributive_add_other_way(r, p, d);
    vstd::arithmetic::mul::lemma_mul_is_distributive_add_other_way(p + r, p * r, d * r);
    // (p·r + d·(p+r))·(p+d+r) == (p·r)·(p+r) + (p·r)·d + (d·(p+r))·(p+d+r)
    vstd::arithmetic::mul::lemma_mul_is_distributive_add_other_way(
        p + d + r, p * r, d * (p + r));
    lemma_mul_is_distributive_add(p * r, p + r, d);
    // (d·r)·(p+r) <= (d·(p+r))·(p+d+r)
    lemma_mul_inequality(r, p + r, d);
    lemma_mul_is_commutative(r, d);
    lemma_mul_is_commutative(p + r, d);
    lemma_mul_inequality(d * r, d * (p + r), p + r);
    lemma_mul_nonnegative(d, p + r);
    lemma_mul_inequality(p + r, p + d + r, d * (p + r));
    lemma_mul_is_commutative(p + r, d * (p + r));
    lemma_mul_is_commutative(p + d + r, d * (p + r));
    lemma_mul_nonnegative(p * r, d);
    assert(((p + d) * r) * (p + r) <= (p * r + d * (p + r)) * (p + d + r));
    lemma_mul_nonnegative(p + d, r);
    lemma_frac_le((p + d) * r, p + d + r, p * r + d * (p + r), p + r);
}

/// The predict half-step is monotone in the incoming covariance.
proof fn lemma_pred_mono(f: int, q: int, p1: int, p2: int)
    requires
        0 <= p1 <= p2,
        1 <= f,
        0 <= q,
    ensures
        pred_cov(f, q, p1) <= pred_cov(f, q, p2),
{
    lemma_mul_nonnegative(f, f);
    lemma_mul_inequality(p1, p2, f * f);
    lemma_mul_is_commutative(p1, f * f);
    lemma_mul_is_commutative(p2, f * f);
    lemma_div_is_ordered(f * f * p1, f * f * p2, SCALE2 as int);
}

/// The predict half-step is 1-Lipschitz in the incoming covariance.
proof fn lemma_pred_lipschitz(f: int, q: int, p: int, d: int)
    requires
        0 <= p,
        0 <= d,
        1 <= f <= SCALE,
        0 <= q,
    ensures
        pred_cov(f, q, p + d) <= pred_cov(f, q, p) + d,
{
    assert(f * f * (p + d) <= f * f * p + (SCALE2 as int) * d) by (nonlinear_arith)
        requires
            1 <= f <= SCALE,
            0 <= p,
            0 <= d,
            SCALE2 == SCALE * SCALE,
    {}
    lemma_div_is_ordered(f * f * (p + d), f * f * p + (SCALE2 as int) * d, SCALE2 as int);
    lemma_hoist_over_denominator(f * f * p, d, SCALE2 as nat);
    lemma_mul_is_commutative(d, SCALE2 as int);
}

/// The predict half-step keeps the covariance at or above `q` and at or
/// above the channel floor.
proof fn lemma_pred_lower(f: int, q: int, p: int)
    requires
        0 <= p,
        1 <= f,
        0 <= q <= NOISE_MAX,
    ensures
        min_int(q, P_CAP as int) <= pred_cov(f, q, p),
        q <= pred_cov(f, q, p),
        0 <= pred_cov(f, q, p),
{
    lemma_mul_nonnegative(f, f);
    lemma_mul_nonnegative(f * f, p);
    vstd::arithmetic::div_mod::lemma_div_pos_is_pos(f * f * p, SCALE2 as int);
}

/// One full covariance step is monotone in the incoming covariance.
proof fn lemma_step_mono(f: int, q: int, r: int, p1: int, p2: int)
    requires
        0 <= p1 <= p2,
        1 <= f,
        0 <= q <= NOISE_MAX,
        1 <= r,
    ensures
        step_cov(f, q, r, p1) <= step_cov(f, q, r, p2),
{
    lemma_pred_mono(f, q, p1, p2);
    lemma_pred_lower(f, q, p1);
    lemma_post_mono(r, pred_cov(f, q, p1), pred_cov(f, q, p2));
}

/// One full covariance step is 1-Lipschitz in the incoming covariance.
proof fn lemma_step_lipschitz(f: int, q: int, r: int, p: int, d: int)
    requires
        0 <= p,
        0 <= d,
        1 <= f <= SCALE,
        0 <= q <= NOISE_MAX,
        1 <= r,
    ensures
        step_cov(f, q, r, p + d) <= step_cov(f, q, r, p) + d,
{
    lemma_pred_lipschitz(f, q, p, d);
    lemma_pred_lower(f, q, p);
    lemma_pred_lower(f, q, p + d);
    let a = pred_cov(f, q, p);
    let b = pred_cov(f, q, p + d);
    lemma_post_mono(r, b, a + d);
    lemma_post_lipschitz(r, a, d);
}

/// Starting at or above the fixed point, one covariance step never
/// increases the covariance and never drops below the fixed point.
proof fn lemma_step_from_floor(f: int, q: int, r: int, c: int, p: int)
    requires
        1 <= f <= SCALE,
        0 <= q <= NOISE_MAX,
        1 <= r,
        0 <= c <= p,
        step_cov(f, q, r, c) == c,
    ensures
        step_cov(f, q, r, p) <= p,
        c <= step_cov(f, q, r, p),
        0 <= step_cov(f, q, r, p),
{
    lemma_step_mono(f, q, r, c, p);
    lemma_step_lipschitz(f, q, r, c, p - c);
}

/// Computes `pred_cov` of the given channel parameters.
fn cov_predict(f: u64, q: u64, p: u64) -> (pp: u64)
    requires
        1 <= f <= SCALE,
        q <= NOISE_MAX,
        p <= P_CAP,
    ensures
        pp == pred_cov(f as int, q as int, p as int),
        pp <= P_CAP,
{
    proof {
        lemma_mul_upper_bound(f as int, SCALE as int, f as int, SCALE as int);
        lemma_mul_upper_bound((f * f) as int, SCALE2 as int, p as int, P_CAP as int);
        lemma_multiply_divide_le((f * f * p) as int, SCALE2 as int, P_CAP as int);
        lemma_mul_is_commutative(SCALE2 as int, P_CAP as int);
    }
    let raw: u64 = (f * f * p) / SCALE2 + q;
    if raw > P_CAP {
        P_CAP
    } else {
        raw
    }
}

/// Computes `step_cov` of the given channel parameters.
fn cov_step(f: u64, q: u64, r: u64, p: u64) -> (pn: u64)
    requires
        1 <= f <= SCALE,
        1 <= q <= NOISE_MAX,
        1 <= r <= NOISE_MAX,
        p <= P_CAP,
    ensures
        pn == step_cov(f as int, q as int, r as int, p as int),
        pn <= r,
{
    let pp = cov_predict(f, q, p);
    let s: u64 = pp + r;
    proof {
        lemma_pred_lower(f as int, q as int, p as int);
        lemma_mul_upper_bound(pp as int, P_CAP as int, r as int, NOISE_MAX as int);
        lemma_post_le_r(r as int, pp as int);
    }
    (pp * r) / s
}

/// Finds the integer fixed point of the covariance step map: the loop
/// climbs from zero and, because the step map is monotone and 1-Lipschitz,
/// the first value it fails to climb past is exact.
fn cov_fixpoint(f: u64, q: u64, r: u64) -> (c: u64)
    requires
        1 <= f <= SCALE,
        1 <= q <= NOISE_MAX,
        1 <= r <= NOISE_MAX,
    ensures
        step_cov(f as int, q as int, r as int, c as int) == c,
        c <= r,
{
    let mut c: u64 = 0;
    let mut y: u64 = cov_step(f, q, r, 0);
    while y > c
        invariant
            1 <= f <= SCALE,
            1 <= q <= NOISE_MAX,
            1 <= r <= NOISE_MAX,
            c <= r,
            y <= r,
            y == step_cov(f as int, q as int, r as int, c as int),
            c <= y,
        decreases r - c,
    {
        let prev: Ghost<u64> = Ghost(c);
        c = y;
        y = cov_step(f, q, r, c);
        proof {
            lemma_step_mono(f as int, q as int, r as int, prev@ as int, c as int);
        }
    }
    c
}

/// Applies one full update step to the channel against measurement `z`.
fn channel_update(ch: &mut Channel, z: Option<u64>)
    requires
        old(ch).wf(),
        z matches Some(zv) ==> zv <= Z_MAX,
    ensures
        final(ch).wf(),
        final(ch).same_params(*old(ch)),
        final(ch).x == old(ch).updated_x(z),
        final(ch).p == old(ch).stepped_cov(),
        final(ch).p <= old(ch).p,
{
    let ghost och = *ch;
    proof {
        lemma_mul_upper_bound(och.f as int, SCALE as int, och.x as int, READING_MAX as int);
    }
    let pp = cov_predict(ch.f, ch.q, ch.p);
    let xp = clamp((ch.f * ch.x) / SCALE, ch.lo, ch.hi);
    let s: u64 = pp + ch.r;
    proof {
        lemma_pred_lower(och.f as int, och.q as int, och.p as int);
    }
    let xn: u64 = match z {
        None => xp,
        Some(zv) => {
            if zv >= xp {
                let d: u64 = zv - xp;
                proof {
                    lemma_mul_upper_bound(pp as int, P_CAP as int, d as int, Z_MAX as int);
                    lemma_mul_inequality(pp as int, s as int, d as int);
                    lemma_multiply_divide_le((pp * d) as int, s as int, d as int);
                }
                xp + (pp * d) / s
            } else {
                let d: u64 = xp - zv;
                proof {
                    lemma_mul_upper_bound(pp as int, P_CAP as int, d as int, Z_MAX as int);
                    lemma_mul_inequality(pp as int, s as int, d as int);
                    lemma_multiply_divide_le((pp * d) as int, s as int, d as int);
                }
                xp - (pp * d) / s
            }
        },
    };
    let xn = clamp(xn, ch.lo, ch.hi);
    proof {
        lemma_mul_upper_bound(pp as int, P_CAP as int, och.r as int, NOISE_MAX as int);
        lemma_post_le_r(och.r as int, pp as int);
        lemma_step_from_floor(
            och.f as int, och.q as int, och.r as int, och.floor as int, och.p as int);
    }
    let pn: u64 = (pp * ch.r) / s;
    ch.x = xn;
    ch.p = pn;
}

/// A snapshot of the estimator's state vector (scaled units).
#[derive(Clone, Copy, Debug, PartialEq, Eq, Structural)]
pub struct KalmanState {
    /// Battery charge (milli-percent of full charge).
    pub charge: u64,
    /// Battery voltage (milli-volts).
    pub voltage: u64,
    /// Solar input power (milli-watts).
    pub solar: u64,
    /// Battery efficiency in `[0, SCALE]`.
    pub efficiency: u64,
    /// Sample index this state was estimated at.
    pub timestamp: u32,
}

/// The canonical linear Kalman estimator of the power subsystem.
///
/// Owns its state vector and covariance exclusively. All matrices are
/// diagonal, so each channel evolves independently; see the module
/// documentation for the exact arithmetic.
#[derive(Clone, Copy, Debug)]
pub struct KalmanFilter {
    /// Battery charge channel (milli-percent, clamped to 20-100 %).
    pub charge: Channel,
    /// Battery voltage channel (milli-volts, clamped to 20-32 V).
    pub voltage: Channel,
    /// Solar input channel (milli-watts, clamped to 0-600 W).
    pub solar: Channel,
    /// Battery efficiency channel (scaled ratio, clamped to 0.5-1).
    pub efficiency: Channel,
    /// Nominal battery voltage (milli-volts).
    pub nominal_voltage: u64,
    /// Nominal battery capacity (whole ampere-hours).
    pub nominal_capacity: u64,
    /// Time step of one predict cycle (seconds).
    pub dt: u64,
    /// Covariance trace above which the filter declares divergence.
    pub divergence_threshold: u64,
    /// Set once divergence is detected; only `reset` clears it.
    pub diverged: bool,
}

/// Do the constructor arguments describe a consistent filter?
pub open spec fn config_ok(
    nominal_voltage: u64,
    nominal_capacity: u64,
    dt: u64,
    divergence_threshold: u64,
    q_charge: u64,
    q_voltage: u64,
    q_solar: u64,
    q_efficiency: u64,
    r_charge: u64,
    r_voltage: u64,
    r_solar: u64,
    r_efficiency: u64,
) -> bool {
    &&& 20_000 <= nominal_voltage <= 32_000
    &&& 1 <= nominal_capacity <= CAPACITY_MAX
    &&& 1 <= dt <= DT_MAX
    &&& 1 <= divergence_threshold
    &&& 1 <= q_charge <= NOISE_MAX
    &&& 1 <= q_voltage <= NOISE_MAX
    &&& 1 <= q_solar <= NOISE_MAX
    &&& 1 <= q_efficiency <= NOISE_MAX
    &&& 1 <= r_charge <= NOISE_MAX
    &&& 1 <= r_voltage <= NOISE_MAX
    &&& 1 <= r_solar <= NOISE_MAX
    &&& 1 <= r_efficiency <= NOISE_MAX
}

impl KalmanFilter {
    pub open spec fn wf(self) -> bool {
        &&& self.charge.wf()
        &&& self.voltage.wf()
        &&& self.solar.wf()
        &&& self.efficiency.wf()
        &&& self.charge.lo == 20_000 && self.charge.hi == 100_000
        &&& self.voltage.lo == 20_000 && self.voltage.hi == 32_000
        &&& self.solar.lo == 0 && self.solar.hi == 600_000
        &&& self.efficiency.lo == 500 && self.efficiency.hi == 1_000
        &&& 20_000 <= self.nominal_voltage <= 32_000
        &&& 1 <= self.nominal_capacity <= CAPACITY_MAX
        &&& 1 <= self.dt <= DT_MAX
        &&& 1 <= self.divergence_threshold
    }

    /// Trace of the (diagonal) covariance matrix.
    pub open spec fn cov_trace(self) -> int {
        self.charge.p + self.voltage.p + self.solar.p + self.efficiency.p
    }

    /// Everything but the state, covariance and divergence flag.
    pub open spec fn same_config(self, other: KalmanFilter) -> bool {
        &&& self.charge.same_params(other.charge)
        &&& self.voltage.same_params(other.voltage)
        &&& self.solar.same_params(other.solar)
        &&& self.efficiency.same_params(other.efficiency)
        &&& self.nominal_voltage == other.nominal_voltage
        &&& self.nominal_capacity == other.nominal_capacity
        &&& self.dt == other.dt
        &&& self.divergence_threshold == other.divergence_threshold
    }

    /// Power currently flowing in from the panels: `solar · efficiency`.
    pub open spec fn power_in(self) -> int {
        (self.solar.x * self.efficiency.x) / (SCALE as int)
    }

    /// Denominator converting net power times time into charge percent.
    pub open spec fn charge_divisor(self) -> int {
        self.nominal_capacity * 3600
    }

    /// Charge after one predict step under `load` (milli-watts): the
    /// linear decay plus the power-balance delta
    /// `(power_in − load) · dt · 100 / (capacity · 3600)`, clamped.
    pub open spec fn predicted_charge_x(self, load: int) -> int {
        let base = (self.charge.f * self.charge.x) / (SCALE as int);
        let pin = self.power_in();
        let tgt = if pin >= load {
            base + ((pin - load) * self.dt * 100) / self.charge_divisor()
        } else {
            base - ((load - pin) * self.dt * 100) / self.charge_divisor()
        };
        clamp_int(tgt, self.charge.lo as int, self.charge.hi as int)
    }

    /// The filter after one predict step under `load`, as a function.
    pub open spec fn predict_step(self, load: int) -> KalmanFilter {
        KalmanFilter {
            charge: Channel {
                x: self.predicted_charge_x(load) as u64,
                p: self.charge.predicted_cov() as u64,
                ..self.charge
            },
            voltage: Channel {
                x: self.voltage.predicted_x() as u64,
                p: self.voltage.predicted_cov() as u64,
                ..self.voltage
            },
            solar: Channel {
                x: self.solar.predicted_x() as u64,
                p: self.solar.predicted_cov() as u64,
                ..self.solar
            },
            efficiency: Channel {
                x: self.efficiency.predicted_x() as u64,
                p: self.efficiency.predicted_cov() as u64,
                ..self.efficiency
            },
            ..self
        }
    }

    /// Initializes the estimator with the default noise model and
    /// divergence threshold: a healthy satellite at 80 % charge, nominal
    /// voltage, 400 W solar input and full efficiency, with high initial
    /// covariance.
    pub fn new(nominal_voltage: u64, nominal_capacity: u64, dt: u64) -> (kf: KalmanFilter)
        requires
            20_000 <= nominal_voltage <= 32_000,
            1 <= nominal_capacity <= CAPACITY_MAX,
            1 <= dt <= DT_MAX,
        ensures
            kf.wf(),
            !kf.diverged,
            kf.nominal_voltage == nominal_voltage,
            kf.nominal_capacity == nominal_capacity,
            kf.dt == dt,
            kf.divergence_threshold == 1_000_000,
            kf.charge.x == 80_000 && kf.charge.p == 10_000,
            kf.voltage.x == nominal_voltage && kf.voltage.p == 2_000,
            kf.solar.x == 400_000 && kf.solar.p == 50_000,
            kf.efficiency.x == 1_000 && kf.efficiency.p == 100,
            kf.charge.f == 990 && kf.voltage.f == 1_000 && kf.solar.f == 980
                && kf.efficiency.f == 1_000,
            kf.charge.q == 500 && kf.voltage.q == 300 && kf.solar.q == 20_000
                && kf.efficiency.q == 20,
            kf.charge.r == 100 && kf.voltage.r == 200 && kf.solar.r == 15_000
                && kf.efficiency.r == 10,
    {
        KalmanFilter::build(
            nominal_voltage, nominal_capacity, dt, 1_000_000,
            500, 300, 20_000, 20,
            100, 200, 15_000, 10,
        )
    }

    /// Initializes the estimator with caller-supplied noise magnitudes
    /// and divergence threshold, rejecting an inconsistent configuration
    /// with `ConfigurationError`.
    pub fn with_config(
        nominal_voltage: u64,
        nominal_capacity: u64,
        dt: u64,
        divergence_threshold: u64,
        q_charge: u64,
        q_voltage: u64,
        q_solar: u64,
        q_efficiency: u64,
        r_charge: u64,
        r_voltage: u64,
        r_solar: u64,
        r_efficiency: u64,
    ) -> (r: Result<KalmanFilter, Error>)
        ensures
            r is Ok <==> config_ok(
                nominal_voltage, nominal_capacity, dt, divergence_threshold,
                q_charge, q_voltage, q_solar, q_efficiency,
                r_charge, r_voltage, r_solar, r_efficiency,
            ),
            r matches Err(e) ==> e == Error::ConfigurationError,
            r matches Ok(kf) ==> {
                &&& kf.wf()
                &&& !kf.diverged
                &&& kf.nominal_voltage == nominal_voltage
                &&& kf.nominal_capacity == nominal_capacity
                &&& kf.dt == dt
                &&& kf.divergence_threshold == divergence_threshold
                &&& kf.charge.q == q_charge && kf.charge.r == r_charge
                &&& kf.voltage.q == q_voltage && kf.voltage.r == r_voltage
                &&& kf.solar.q == q_solar && kf.solar.r == r_solar
                &&& kf.efficiency.q == q_efficiency && kf.efficiency.r == r_efficiency
                &&& kf.charge.x == 80_000 && kf.voltage.x == nominal_voltage
                &&& kf.solar.x == 400_000 && kf.efficiency.x == 1_000
            },
    {
        if 20_000 <= nominal_voltage && nominal_voltage <= 32_000
            && 1 <= nominal_capacity && nominal_capacity <= CAPACITY_MAX
            && 1 <= dt && dt <= DT_MAX
            && 1 <= divergence_threshold
            && 1 <= q_charge && q_charge <= NOISE_MAX
            && 1 <= q_voltage && q_voltage <= NOISE_MAX
            && 1 <= q_solar && q_solar <= NOISE_MAX
            && 1 <= q_efficiency && q_efficiency <= NOISE_MAX
            && 1 <= r_charge && r_charge <= NOISE_MAX
            && 1 <= r_voltage && r_voltage <= NOISE_MAX
            && 1 <= r_solar && r_solar <= NOISE_MAX
            && 1 <= r_efficiency && r_efficiency <= NOISE_MAX
        {
            Ok(KalmanFilter::build(
                nominal_voltage, nominal_capacity, dt, divergence_threshold,
                q_charge, q_voltage, q_solar, q_efficiency,
                r_charge, r_voltage, r_solar, r_efficiency,
            ))
        } else {
            Err(Error::ConfigurationError)
        }
    }

    /// Assembles the filter from a configuration already known to be
    /// consistent.
    fn build(
        nominal_voltage: u64,
        nominal_capacity: u64,
        dt: u64,
        divergence_threshold: u64,
        q_charge: u64,
        q_voltage: u64,
        q_solar: u64,
        q_efficiency: u64,
        r_charge: u64,
        r_voltage: u64,
        r_solar: u64,
        r_efficiency: u64,
    ) -> (kf: KalmanFilter)
        requires
            config_ok(
                nominal_voltage, nominal_capacity, dt, divergence_threshold,
                q_charge, q_voltage, q_solar, q_efficiency,
                r_charge, r_voltage, r_solar, r_efficiency,
            ),
        ensures
            kf.wf(),
            !kf.diverged,
            kf.nominal_voltage == nominal_voltage,
            kf.nominal_capacity == nominal_capacity,
            kf.dt == dt,
            kf.divergence_threshold == divergence_threshold,
            kf.charge.q == q_charge && kf.charge.r == r_charge && kf.charge.f == 990,
            kf.voltage.q == q_voltage && kf.voltage.r == r_voltage && kf.voltage.f == 1_000,
            kf.solar.q == q_solar && kf.solar.r == r_solar && kf.solar.f == 980,
            kf.efficiency.q == q_efficiency && kf.efficiency.r == r_efficiency
                && kf.efficiency.f == 1_000,
            kf.charge.x == 80_000 && kf.voltage.x == nominal_voltage
                && kf.solar.x == 400_000 && kf.efficiency.x == 1_000,
            kf.charge.p == kf.charge.p0 && kf.voltage.p == kf.voltage.p0
                && kf.solar.p == kf.solar.p0 && kf.efficiency.p == kf.efficiency.p0,
            (q_charge, r_charge) == (500u64, 100u64) ==> kf.charge.p == 10_000,
            (q_voltage, r_voltage) == (300u64, 200u64) ==> kf.voltage.p == 2_000,
            (q_solar, r_solar) == (20_000u64, 15_000u64) ==> kf.solar.p == 50_000,
            (q_efficiency, r_efficiency) == (20u64, 10u64) ==> kf.efficiency.p == 100,
    {
        let charge = make_channel(80_000, 990, q_charge, r_charge, 20_000, 100_000, 10_000);
        let voltage = make_channel(
            nominal_voltage, 1_000, q_voltage, r_voltage, 20_000, 32_000, 2_000);
        let solar = make_channel(400_000, 980, q_solar, r_solar, 0, 600_000, 50_000);
        let efficiency = make_channel(1_000, 1_000, q_efficiency, r_efficiency, 500, 1_000, 100);
        KalmanFilter {
            charge,
            voltage,
            solar,
            efficiency,
            nominal_voltage,
            nominal_capacity,
            dt,
            divergence_threshold,
            diverged: false,
        }
    }

    /// Predicts the state forward one time step of `dt` seconds under the
    /// given load power (milli-watts): each channel follows its linear
    /// transition, the charge channel additionally integrates the power
    /// balance, every component is re-clamped to its physical range, and
    /// the covariance grows by the process noise.
    ///
    /// Deterministic given the current state, covariance and load.
    pub fn predict(&mut self, load_power: u64) -> (st: KalmanState)
        requires
            old(self).wf(),
            load_power <= LOAD_MAX,
        ensures
            final(self).wf(),
            final(self).same_config(*old(self)),
            final(self).diverged == old(self).diverged,
            final(self).charge.x == old(self).predicted_charge_x(load_power as int),
            final(self).voltage.x == old(self).voltage.predicted_x(),
            final(self).solar.x == old(self).solar.predicted_x(),
            final(self).efficiency.x == old(self).efficiency.predicted_x(),
            final(self).charge.p == old(self).charge.predicted_cov(),
            final(self).voltage.p == old(self).voltage.predicted_cov(),
            final(self).solar.p == old(self).solar.predicted_cov(),
            final(self).efficiency.p == old(self).efficiency.predicted_cov(),
            *final(self) == old(self).predict_step(load_power as int),
            st == (KalmanState {
                charge: final(self).charge.x,
                voltage: final(self).voltage.x,
                solar: final(self).solar.x,
                efficiency: final(self).efficiency.x,
                timestamp: 0u32,
            }),
    {
        let ghost okf = *self;
        proof {
            lemma_mul_upper_bound(
                okf.solar.x as int, READING_MAX as int, okf.efficiency.x as int,
                READING_MAX as int);
            lemma_multiply_divide_le(
                (okf.solar.x * okf.efficiency.x) as int, SCALE as int, 100_000_000_000);
            lemma_mul_upper_bound(okf.charge.f as int, SCALE as int, okf.charge.x as int,
                READING_MAX as int);
        }
        let power_in: u64 = (self.solar.x * self.efficiency.x) / SCALE;
        let base: u64 = (self.charge.f * self.charge.x) / SCALE;
        let denom: u64 = self.nominal_capacity * 3600;
        let charge_x: u64 = if power_in >= load_power {
            let diff: u64 = power_in - load_power;
            proof {
                lemma_mul_upper_bound(diff as int, 100_000_000_000, okf.dt as int, DT_MAX as int);
                lemma_div_nonincreasing(((diff * okf.dt) * 100) as int, denom as int);
            }
            let delta: u64 = ((diff * self.dt) * 100) / denom;
            clamp(base + delta, self.charge.lo, self.charge.hi)
        } else {
            let diff: u64 = load_power - power_in;
            proof {
                lemma_mul_upper_bound(diff as int, 100_000_000_000, okf.dt as int, DT_MAX as int);
            }
            let delta: u64 = ((diff * self.dt) * 100) / denom;
            if base >= delta {
                clamp(base - delta, self.charge.lo, self.charge.hi)
            } else {
                proof {
                    vstd::arithmetic::div_mod::lemma_div_pos_is_pos(
                        ((diff * okf.dt) * 100) as int, denom as int);
                }
                self.charge.lo
            }
        };
        let charge_p = cov_predict(self.charge.f, self.charge.q, self.charge.p);
        proof {
            lemma_pred_lower(okf.charge.f as int, okf.charge.q as int, okf.charge.p as int);
            lemma_pred_mono(
                okf.charge.f as int, okf.charge.q as int, okf.charge.floor as int,
                okf.charge.p as int);
            lemma_post_le_p(
                okf.charge.r as int,
                pred_cov(okf.charge.f as int, okf.charge.q as int, okf.charge.floor as int));
        }
        self.charge.x = charge_x;
        self.charge.p = charge_p;
        channel_predict(&mut self.voltage);
        channel_predict(&mut self.solar);
        channel_predict(&mut self.efficiency);
        KalmanState {
            charge: self.charge.x,
            voltage: self.voltage.x,
            solar: self.solar.x,
            efficiency: self.efficiency.x,
            timestamp: 0,
        }
    }

    /// Updates the estimate with a new measurement: runs the linear
    /// predict half-step, folds each provided channel in through its
    /// Kalman gain (`None` re-measures the prediction), re-clamps, and
    /// checks the covariance trace against the divergence threshold.
    ///
    /// Returns `FilterDivergence` carrying the offending trace exactly
    /// when the updated trace exceeds the threshold, or when the filter
    /// already diverged and was not reset; otherwise the fresh estimate.
    /// The covariance trace never increases across updates.
    pub fn update(
        &mut self,
        z_charge: Option<u64>,
        z_voltage: Option<u64>,
        z_solar: Option<u64>,
        z_efficiency: Option<u64>,
    ) -> (r: Result<StateEstimate, Error>)
        requires
            old(self).wf(),
            z_charge matches Some(v) ==> v <= Z_MAX,
            z_voltage matches Some(v) ==> v <= Z_MAX,
            z_solar matches Some(v) ==> v <= Z_MAX,
            z_efficiency matches Some(v) ==> v <= Z_MAX,
        ensures
            final(self).wf(),
            final(self).same_config(*old(self)),
            final(self).cov_trace() <= old(self).cov_trace(),
            old(self).diverged ==> *final(self) == *old(self)
                && r == Result::<StateEstimate, Error>::Err(
                    Error::FilterDivergence(old(self).cov_trace() as u64)),
            !old(self).diverged ==> {
                &&& final(self).charge.x == old(self).charge.updated_x(z_charge)
                &&& final(self).voltage.x == old(self).voltage.updated_x(z_voltage)
                &&& final(self).solar.x == old(self).solar.updated_x(z_solar)
                &&& final(self).efficiency.x == old(self).efficiency.updated_x(z_efficiency)
                &&& final(self).charge.p == old(self).charge.stepped_cov()
                &&& final(self).voltage.p == old(self).voltage.stepped_cov()
                &&& final(self).solar.p == old(self).solar.stepped_cov()
                &&& final(self).efficiency.p == old(self).efficiency.stepped_cov()
                &&& (final(self).diverged <==> final(self).cov_trace()
                    > old(self).divergence_threshold)
                &&& match r {
                    Ok(est) => {
                        &&& final(self).cov_trace() <= old(self).divergence_threshold
                        &&& est.timestamp == 0
                        &&& est.battery_charge == final(self).charge.x
                        &&& est.battery_voltage == final(self).voltage.x
                        &&& est.solar_input == final(self).solar.x
                        &&& est.battery_efficiency == final(self).efficiency.x
                        &&& est.confidence == confidence_of_trace(
                            CONFIDENCE_HALF_TRACE as int, final(self).cov_trace())
                        &&& est.covariance_trace == final(self).cov_trace()
                    },
                    Err(e) => {
                        &&& final(self).cov_trace() > old(self).divergence_threshold
                        &&& e == Error::FilterDivergence(final(self).cov_trace() as u64)
                    },
                }
            },
    {
        let trace_before: u64 =
            self.charge.p + self.voltage.p + self.solar.p + self.efficiency.p;
        if self.diverged {
            return Err(Error::FilterDivergence(trace_before));
        }
        channel_update(&mut self.charge, z_charge);
        channel_update(&mut self.voltage, z_voltage);
        channel_update(&mut self.solar, z_solar);
        channel_update(&mut self.efficiency, z_efficiency);
        let trace: u64 = self.charge.p + self.voltage.p + self.solar.p + self.efficiency.p;
        if trace > self.divergence_threshold {
            self.diverged = true;
            Err(Error::FilterDivergence(trace))
        } else {
            Ok(StateEstimate {
                timestamp: 0,
                battery_charge: self.charge.x,
                battery_voltage: self.voltage.x,
                solar_input: self.solar.x,
                battery_efficiency: self.efficiency.x,
                confidence: confidence_from_trace(CONFIDENCE_HALF_TRACE, trace),
                covariance_trace: trace,
            })
        }
    }

    /// The current estimate, stamped with the caller's timestamp:
    /// the state vector, the covariance trace, and a confidence that is a
    /// monotone decreasing function of that trace.
    pub fn get_estimate(&self, timestamp: u64) -> (est: StateEstimate)
        requires
            self.wf(),
        ensures
            est.timestamp == timestamp,
            est.battery_charge == self.charge.x,
            est.battery_voltage == self.voltage.x,
            est.solar_input == self.solar.x,
            est.battery_efficiency == self.efficiency.x,
            est.confidence == confidence_of_trace(CONFIDENCE_HALF_TRACE as int, self.cov_trace()),
            est.confidence <= SCALE,
            est.covariance_trace == self.cov_trace(),
    {
        let trace: u64 = self.charge.p + self.voltage.p + self.solar.p + self.efficiency.p;
        StateEstimate {
            timestamp,
            battery_charge: self.charge.x,
            battery_voltage: self.voltage.x,
            solar_input: self.solar.x,
            battery_efficiency: self.efficiency.x,
            confidence: confidence_from_trace(CONFIDENCE_HALF_TRACE, trace),
            covariance_trace: trace,
        }
    }

    /// Current state uncertainty: the covariance trace.
    pub fn uncertainty(&self) -> (t: u64)
        requires
            self.wf(),
        ensures
            t == self.cov_trace(),
    {
        self.charge.p + self.voltage.p + self.solar.p + self.efficiency.p
    }

    /// The current state vector as `(charge, voltage, solar, efficiency)`.
    pub fn get_state(&self) -> (st: (u64, u64, u64, u64))
        ensures
            st == (self.charge.x, self.voltage.x, self.solar.x, self.efficiency.x),
    {
        (self.charge.x, self.voltage.x, self.solar.x, self.efficiency.x)
    }

    /// Reinitializes the state to the configured nominal point and the
    /// covariance to its initial value, clearing any divergence.
    pub fn reset(&mut self)
        requires
            old(self).wf(),
        ensures
            final(self).wf(),
            final(self).same_config(*old(self)),
            !final(self).diverged,
            final(self).charge.x == 80_000 && final(self).charge.p == old(self).charge.p0,
            final(self).voltage.x == old(self).nominal_voltage
                && final(self).voltage.p == old(self).voltage.p0,
            final(self).solar.x == 400_000 && final(self).solar.p == old(self).solar.p0,
            final(self).efficiency.x == 1_000
                && final(self).efficiency.p == old(self).efficiency.p0,
    {
        self.charge.x = 80_000;
        self.charge.p = self.charge.p0;
        self.voltage.x = self.nominal_voltage;
        self.voltage.p = self.voltage.p0;
        self.solar.x = 400_000;
        self.solar.p = self.solar.p0;
        self.efficiency.x = 1_000;
        self.efficiency.p = self.efficiency.p0;
        self.diverged = false;
    }
}

/// The charge measurement handed to the filter for a telemetry record:
/// the measured ampere-hours as milli-percent of the nominal capacity.
pub open spec fn charge_z(m: Measurement, kf: KalmanFilter) -> u64 {
    ((m.battery_charge * 100) / (kf.nominal_capacity as int)) as u64
}

/// The filter after `n` predict steps under a constant `load`.
pub open spec fn predict_iter(kf: KalmanFilter, load: int, n: nat) -> KalmanFilter
    decreases n,
{
    if n == 0 {
        kf
    } else {
        predict_iter(kf, load, (n - 1) as nat).predict_step(load)
    }
}

/// One spec-level predict step preserves well-formedness and the
/// configuration.
pub proof fn lemma_predict_step_wf(kf: KalmanFilter, load: int)
    requires
        kf.wf(),
        0 <= load <= LOAD_MAX,
    ensures
        kf.predict_step(load).wf(),
        kf.predict_step(load).same_config(kf),
        kf.predict_step(load).diverged == kf.diverged,
{
    lemma_pred_lower(kf.charge.f as int, kf.charge.q as int, kf.charge.p as int);
    lemma_pred_mono(kf.charge.f as int, kf.charge.q as int, kf.charge.floor as int,
        kf.charge.p as int);
    lemma_post_le_p(kf.charge.r as int,
        pred_cov(kf.charge.f as int, kf.charge.q as int, kf.charge.floor as int));
    lemma_pred_lower(kf.voltage.f as int, kf.voltage.q as int, kf.voltage.p as int);
    lemma_pred_mono(kf.voltage.f as int, kf.voltage.q as int, kf.voltage.floor as int,
        kf.voltage.p as int);
    lemma_post_le_p(kf.voltage.r as int,
        pred_cov(kf.voltage.f as int, kf.voltage.q as int, kf.voltage.floor as int));
    lemma_pred_lower(kf.solar.f as int, kf.solar.q as int, kf.solar.p as int);
    lemma_pred_mono(kf.solar.f as int, kf.solar.q as int, kf.solar.floor as int,
        kf.solar.p as int);
    lemma_post_le_p(kf.solar.r as int,
        pred_cov(kf.solar.f as int, kf.solar.q as int, kf.solar.floor as int));
    lemma_pred_lower(kf.efficiency.f as int, kf.efficiency.q as int, kf.efficiency.p as int);
    lemma_pred_mono(kf.efficiency.f as int, kf.efficiency.q as int,
        kf.efficiency.floor as int, kf.efficiency.p as int);
    lemma_post_le_p(kf.efficiency.r as int,
        pred_cov(kf.efficiency.f as int, kf.efficiency.q as int, kf.efficiency.floor as int));
}

/// Iterated spec-level prediction preserves well-formedness and the
/// configuration.
pub proof fn lemma_predict_iter_wf(kf: KalmanFilter, load: int, n: nat)
    requires
        kf.wf(),
        0 <= load <= LOAD_MAX,
    ensures
        predict_iter(kf, load, n).wf(),
        predict_iter(kf, load, n).same_config(kf),
        predict_iter(kf, load, n).diverged == kf.diverged,
    decreases n,
{
    if n > 0 {
        lemma_predict_iter_wf(kf, load, (n - 1) as nat);
        lemma_predict_step_wf(predict_iter(kf, load, (n - 1) as nat), load);
    }
}

/// Builds one channel: finds the fixed point of its covariance step map
/// and starts the covariance at the given initial value, raised to that
/// fixed point if necessary.
fn make_channel(x0: u64, f: u64, q: u64, r: u64, lo: u64, hi: u64, p0: u64) -> (ch: Channel)
    requires
        1 <= f <= SCALE,
        1 <= q <= NOISE_MAX,
        1 <= r <= NOISE_MAX,
        lo <= x0 <= hi,
        hi <= READING_MAX,
        p0 <= P_CAP,
    ensures
        ch.wf(),
        ch.x == x0 && ch.f == f && ch.q == q && ch.r == r && ch.lo == lo && ch.hi == hi,
        ch.p == ch.p0,
        r <= p0 ==> ch.p == p0,
{
    let floor = cov_fixpoint(f, q, r);
    let start = if floor > p0 {
        floor
    } else {
        p0
    };
    Channel { x: x0, p: start, f, q, r, lo, hi, floor, p0: start }
}

/// Applies the linear predict half-step to the channel (no control delta).
fn channel_predict(ch: &mut Channel)
    requires
        old(ch).wf(),
    ensures
        final(ch).wf(),
        final(ch).same_params(*old(ch)),
        final(ch).x == old(ch).predicted_x(),
        final(ch).p == old(ch).predicted_cov(),
{
    let ghost och = *ch;
    proof {
        lemma_mul_upper_bound(och.f as int, SCALE as int, och.x as int, READING_MAX as int);
    }
    let pp = cov_predict(ch.f, ch.q, ch.p);
    let xp = clamp((ch.f * ch.x) / SCALE, ch.lo, ch.hi);
    proof {
        lemma_pred_lower(och.f as int, och.q as int, och.p as int);
        lemma_pred_mono(och.f as int, och.q as int, och.floor as int, och.p as int);
        lemma_post_le_p(och.r as int, pred_cov(och.f as int, och.q as int, och.floor as int));
    }
    ch.x = xp;
    ch.p = pp;
}

} // verus!
