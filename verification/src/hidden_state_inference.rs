//! Hidden state inference over the fixed causal graph during dropouts.
//!
//! When observables stop flowing, the engine forward-propagates its own
//! Kalman estimator over the gap and maps the final propagated state onto
//! named causal-graph nodes: Direct nodes carry a filter channel verbatim
//! with an interval of two standard deviations, Composite nodes combine
//! channels with fixed weights, and a backward pass synthesizes an
//! upstream cause node for each downstream node that crosses its anomaly
//! threshold — absence of a backward node is a valid, expected outcome.

use vstd::prelude::*;

use vstd::arithmetic::mul::lemma_mul_upper_bound;

use crate::dropout_handler::{decay_confidence, decay_pow, lemma_decay_bounds};
use crate::kalman::{clamp_int, min_int, predict_iter, KalmanFilter, LOAD_MAX};
use crate::state_estimate::{confidence_from_trace, confidence_of_trace};
use crate::SCALE;

verus! {

/// Covariance trace at which inference confidence halves (50 units).
pub const INFERENCE_HALF_TRACE: u64 = 50_000;

/// The named nodes of the fixed causal graph.
#[derive(Clone, Copy, Debug, PartialEq, Eq, Structural)]
pub enum NodeName {
    /// Composite battery health in `[0, SCALE]`.
    BatteryState,
    /// Solar input power (milli-watts), taken directly from the filter.
    SolarInput,
    /// Battery efficiency in `[0, SCALE]`, taken directly from the filter.
    BatteryEfficiency,
    /// Upstream cause synthesized when battery state is degraded.
    BatteryAging,
    /// Upstream cause synthesized when solar input is low.
    SolarDegradation,
}

/// How a node's estimate was obtained.
#[derive(Clone, Copy, Debug, PartialEq, Eq, Structural)]
pub enum InferenceSource {
    /// Taken verbatim from a filter-state channel.
    Direct,
    /// Deterministic weighted combination of filter-state channels.
    Composite,
    /// Synthesized backward from an anomalous downstream node.
    BackwardInferred,
}

/// Estimate of one causal-graph node: point value, interval bounds,
/// confidence and provenance. Immutable once returned.
#[derive(Clone, Copy, Debug, PartialEq, Eq, Structural)]
pub struct HiddenStateEstimate {
    pub node_name: NodeName,
    /// Point estimate (scaled units of the node's quantity).
    pub estimated_value: u64,
    /// Lower interval bound.
    pub lower_bound: u64,
    /// Upper interval bound.
    pub upper_bound: u64,
    /// Confidence in `[0, SCALE]`.
    pub confidence: u64,
    pub inference_source: InferenceSource,
    /// Sample index the estimate refers to.
    pub timestamp: u32,
}

/// The estimate `HiddenStateEstimate::new` builds: interval of width
/// `(SCALE − confidence)/5` on each side, clamped to `[0, SCALE]`.
pub open spec fn estimate_new_spec(
    node_name: NodeName,
    estimated_value: int,
    confidence: int,
    inference_source: InferenceSource,
) -> HiddenStateEstimate {
    let width = (SCALE - confidence) / 5;
    HiddenStateEstimate {
        node_name,
        estimated_value: estimated_value as u64,
        lower_bound: (if estimated_value >= width {
            estimated_value - width
        } else {
            0
        }) as u64,
        upper_bound: min_int(estimated_value + width, SCALE as int) as u64,
        confidence: confidence as u64,
        inference_source,
        timestamp: 0u32,
    }
}

impl HiddenStateEstimate {
    /// A node estimate for a quantity living in `[0, SCALE]`, with an
    /// interval that widens as confidence falls.
    pub fn new(
        node_name: NodeName,
        estimated_value: u64,
        confidence: u64,
        inference_source: InferenceSource,
    ) -> (e: HiddenStateEstimate)
        requires
            estimated_value <= SCALE,
            confidence <= SCALE,
        ensures
            e == estimate_new_spec(
                node_name, estimated_value as int, confidence as int, inference_source),
    {
        let width: u64 = (SCALE - confidence) / 5;
        HiddenStateEstimate {
            node_name,
            estimated_value,
            lower_bound: if estimated_value >= width {
                estimated_value - width
            } else {
                0
            },
            upper_bound: if estimated_value + width < SCALE {
                estimated_value + width
            } else {
                SCALE
            },
            confidence,
            inference_source,
            timestamp: 0,
        }
    }
}

/// One inference result: the estimates of every causal-graph node this
/// episode produced. Direct and Composite nodes are always present;
/// BackwardInferred nodes only when their downstream trigger crossed its
/// anomaly threshold.
#[derive(Clone, Copy, Debug, PartialEq, Eq, Structural)]
pub struct InferenceMap {
    pub battery_state: Option<HiddenStateEstimate>,
    pub solar_input: Option<HiddenStateEstimate>,
    pub battery_efficiency: Option<HiddenStateEstimate>,
    pub battery_aging: Option<HiddenStateEstimate>,
    pub solar_degradation: Option<HiddenStateEstimate>,
}

/// The map with no entries.
pub open spec fn empty_map() -> InferenceMap {
    InferenceMap {
        battery_state: None,
        solar_input: None,
        battery_efficiency: None,
        battery_aging: None,
        solar_degradation: None,
    }
}

/// Entry-wise overwrite: entries present in `later` win, entries absent
/// in `later` keep what `earlier` had.
pub open spec fn merge_spec(earlier: InferenceMap, later: InferenceMap) -> InferenceMap {
    InferenceMap {
        battery_state: if later.battery_state is Some {
            later.battery_state
        } else {
            earlier.battery_state
        },
        solar_input: if later.solar_input is Some {
            later.solar_input
        } else {
            earlier.solar_input
        },
        battery_efficiency: if later.battery_efficiency is Some {
            later.battery_efficiency
        } else {
            earlier.battery_efficiency
        },
        battery_aging: if later.battery_aging is Some {
            later.battery_aging
        } else {
            earlier.battery_aging
        },
        solar_degradation: if later.solar_degradation is Some {
            later.solar_degradation
        } else {
            earlier.solar_degradation
        },
    }
}

impl InferenceMap {
    /// The map with no entries.
    pub fn empty() -> (m: InferenceMap)
        ensures
            m == empty_map(),
    {
        InferenceMap {
            battery_state: None,
            solar_input: None,
            battery_efficiency: None,
            battery_aging: None,
            solar_degradation: None,
        }
    }

    /// Merges a later episode's entries over this one: same-named entries
    /// from the later episode overwrite these, absent ones keep these.
    pub fn merge(&self, later: &InferenceMap) -> (m: InferenceMap)
        ensures
            m == merge_spec(*self, *later),
    {
        InferenceMap {
            battery_state: match later.battery_state {
                Some(e) => Some(e),
                None => self.battery_state,
            },
            solar_input: match later.solar_input {
                Some(e) => Some(e),
                None => self.solar_input,
            },
            battery_efficiency: match later.battery_efficiency {
                Some(e) => Some(e),
                None => self.battery_efficiency,
            },
            battery_aging: match later.battery_aging {
                Some(e) => Some(e),
                None => self.battery_aging,
            },
            solar_degradation: match later.solar_degradation {
                Some(e) => Some(e),
                None => self.solar_degradation,
            },
        }
    }
}

/// The integer square root: the greatest `r` with `r·r <= n`.
pub open spec fn sqrt_floor(n: int) -> int {
    choose|r: int| 0 <= r && #[trigger] (r * r) <= n && n < (r + 1) * (r + 1)
}

/// A witness pins the integer square root down exactly.
proof fn lemma_sqrt_floor_is(n: int, r: int)
    requires
        0 <= r,
        r * r <= n,
        n < (r + 1) * (r + 1),
    ensures
        sqrt_floor(n) == r,
{
    assert(0 <= r && r * r <= n && n < (r + 1) * (r + 1));
    let c = sqrt_floor(n);
    assert(0 <= c && c * c <= n && n < (c + 1) * (c + 1));
    assert(c == r) by (nonlinear_arith)
        requires
            0 <= r,
            r * r <= n,
            n < (r + 1) * (r + 1),
            0 <= c,
            c * c <= n,
            n < (c + 1) * (c + 1),
    {}
}

/// Computes the integer square root by bisection.
fn isqrt(n: u64) -> (r: u64)
    requires
        n <= 4_000_000_000_000,
    ensures
        r == sqrt_floor(n as int),
        r <= 2_000_000,
{
    let mut lo: u64 = 0;
    let mut hi: u64 = 2_000_001;
    while lo + 1 < hi
        invariant
            lo < hi <= 2_000_001,
            lo * lo <= n,
            hi * hi > n,
        decreases hi - lo,
    {
        let mid = lo + (hi - lo) / 2;
        proof {
            lemma_mul_upper_bound(mid as int, 2_000_001, mid as int, 2_000_001);
        }
        if mid * mid <= n {
            lo = mid;
        } else {
            hi = mid;
        }
    }
    proof {
        lemma_sqrt_floor_is(n as int, lo as int);
    }
    lo
}

/// Number of forward propagation steps for a gap: at least one.
pub open spec fn steps_of(gap: u32) -> nat {
    if gap == 0 {
        1
    } else {
        gap as nat
    }
}

/// The composite battery-state metric: `0.4·charge + 0.3·voltage +
/// 0.3·efficiency`, each channel normalized to `[0, SCALE]` (charge by
/// 100 %, voltage by the 28 V nominal), clamped to `[0, SCALE]`.
pub open spec fn battery_state_value_of(charge: int, voltage: int, efficiency: int) -> int {
    clamp_int(
        (400 * (charge / 100) + 300 * (voltage / 28) + 300 * efficiency) / (SCALE as int),
        0,
        SCALE as int,
    )
}

/// The composite battery-state metric of a propagated filter state.
pub open spec fn battery_state_value(kf: KalmanFilter) -> int {
    battery_state_value_of(kf.charge.x as int, kf.voltage.x as int, kf.efficiency.x as int)
}

/// The Direct solar-input node of a propagated filter state: the solar
/// channel verbatim, an interval of two standard deviations of the total
/// filter uncertainty clamped to the physical range, and a confidence
/// that falls with the covariance trace.
pub open spec fn solar_node_of(kf: KalmanFilter) -> HiddenStateEstimate {
    let trace = kf.cov_trace();
    let radius = 2 * sqrt_floor(1000 * trace);
    let sol = kf.solar.x as int;
    HiddenStateEstimate {
        node_name: NodeName::SolarInput,
        estimated_value: sol as u64,
        lower_bound: (if sol >= radius {
            sol - radius
        } else {
            0
        }) as u64,
        upper_bound: min_int(sol + radius, 600_000) as u64,
        confidence: confidence_of_trace(INFERENCE_HALF_TRACE as int, trace) as u64,
        inference_source: InferenceSource::Direct,
        timestamp: 0u32,
    }
}

/// The Direct battery-efficiency node of a propagated filter state: the
/// efficiency channel verbatim with a fixed-width interval clamped to
/// its physical range.
pub open spec fn efficiency_node_of(kf: KalmanFilter) -> HiddenStateEstimate {
    let eff = kf.efficiency.x as int;
    HiddenStateEstimate {
        node_name: NodeName::BatteryEfficiency,
        estimated_value: eff as u64,
        lower_bound: (if eff - 50 >= 500 {
            eff - 50
        } else {
            500
        }) as u64,
        upper_bound: min_int(eff + 50, SCALE as int) as u64,
        confidence: confidence_of_trace(INFERENCE_HALF_TRACE as int, kf.cov_trace()) as u64,
        inference_source: InferenceSource::Direct,
        timestamp: 0u32,
    }
}

/// The upstream `BatteryAging` node synthesized when the downstream
/// battery-state node is degraded below the anomaly threshold: its value
/// is the downstream deviation `SCALE − battery_state`, its interval the
/// downstream interval pushed through the same linear function, and its
/// confidence the downstream confidence under the backward-pass penalty.
pub open spec fn backward_aging_spec(
    eng: HiddenStateInferenceEngine,
    battery_state: HiddenStateEstimate,
) -> Option<HiddenStateEstimate> {
    if battery_state.estimated_value < eng.aging_threshold {
        Some(HiddenStateEstimate {
            node_name: NodeName::BatteryAging,
            estimated_value: (SCALE - battery_state.estimated_value) as u64,
            lower_bound: (if battery_state.estimated_value <= 800 {
                800 - battery_state.estimated_value
            } else {
                0
            }) as u64,
            upper_bound: min_int(1200 - battery_state.estimated_value, SCALE as int) as u64,
            confidence: ((battery_state.confidence * eng.backward_penalty)
                / (SCALE as int)) as u64,
            inference_source: InferenceSource::BackwardInferred,
            timestamp: 0u32,
        })
    } else {
        None
    }
}

/// The upstream `SolarDegradation` node synthesized when the downstream
/// solar-input node falls below the anomaly threshold: the shortfall
/// against a 400 W reference, with the downstream interval pushed
/// through the same linear function.
pub open spec fn backward_solar_spec(
    eng: HiddenStateInferenceEngine,
    solar: HiddenStateEstimate,
) -> Option<HiddenStateEstimate> {
    if solar.estimated_value < eng.solar_threshold {
        Some(HiddenStateEstimate {
            node_name: NodeName::SolarDegradation,
            estimated_value: (SCALE - min_int(
                (solar.estimated_value as int) / 400, SCALE as int)) as u64,
            lower_bound: (SCALE - min_int(
                (solar.upper_bound as int) / 400, SCALE as int)) as u64,
            upper_bound: (SCALE - min_int(
                (solar.lower_bound as int) / 400, SCALE as int)) as u64,
            confidence: ((solar.confidence * eng.backward_penalty) / (SCALE as int)) as u64,
            inference_source: InferenceSource::BackwardInferred,
            timestamp: 0u32,
        })
    } else {
        None
    }
}

/// Infers unobservable intermediate states from the causal graph and the
/// owned Kalman estimator's forward predictions.
#[derive(Clone, Copy, Debug)]
pub struct HiddenStateInferenceEngine {
    /// The owned estimator, used strictly for forward propagation.
    pub kf: KalmanFilter,
    /// Battery-state value below which `BatteryAging` is synthesized.
    pub aging_threshold: u64,
    /// Solar input (milli-watts) below which `SolarDegradation` is
    /// synthesized.
    pub solar_threshold: u64,
    /// Per-sample confidence decay factor of composite estimates.
    pub decay_rate_factor: u64,
    /// Confidence penalty applied by the backward pass (per `SCALE`).
    pub backward_penalty: u64,
}

impl HiddenStateInferenceEngine {
    pub open spec fn wf(self) -> bool {
        &&& self.kf.wf()
        &&& self.aging_threshold <= SCALE
        &&& 1 <= self.decay_rate_factor < SCALE
        &&& self.backward_penalty <= SCALE
        &&& self.solar_threshold <= 600_000
    }

    /// The engine after forward-propagating a gap of the given length.
    pub open spec fn after_gap(self, gap: u32, load: int) -> HiddenStateInferenceEngine {
        HiddenStateInferenceEngine {
            kf: predict_iter(self.kf, load, steps_of(gap)),
            ..self
        }
    }

    /// The map `infer_hidden_states` produces: estimates of every Direct
    /// and Composite node from the final propagated state, plus one
    /// BackwardInferred node per downstream node that crossed its anomaly
    /// threshold.
    pub open spec fn infer_spec(self, gap: u32, load: int) -> InferenceMap {
        let kf = predict_iter(self.kf, load, steps_of(gap));
        let battery_state = estimate_new_spec(
            NodeName::BatteryState,
            battery_state_value(kf),
            decay_pow(self.decay_rate_factor as int, gap as nat),
            InferenceSource::Composite,
        );
        let solar = solar_node_of(kf);
        InferenceMap {
            battery_state: Some(battery_state),
            solar_input: Some(solar),
            battery_efficiency: Some(efficiency_node_of(kf)),
            battery_aging: backward_aging_spec(self, battery_state),
            solar_degradation: backward_solar_spec(self, solar),
        }
    }

    /// An inference engine around the given estimator, with the default
    /// anomaly thresholds, decay rate and backward-pass penalty.
    pub fn new(kf: KalmanFilter) -> (e: HiddenStateInferenceEngine)
        requires
            kf.wf(),
        ensures
            e.wf(),
            e.kf == kf,
            e.aging_threshold == 700,
            e.solar_threshold == 300_000,
            e.decay_rate_factor == 951,
            e.backward_penalty == 800,
    {
        HiddenStateInferenceEngine {
            kf,
            aging_threshold: 700,
            solar_threshold: 300_000,
            decay_rate_factor: 951,
            backward_penalty: 800,
        }
    }

    /// Infers hidden states over a dropout of the given length: forward-
    /// propagates the owned estimator `max(gap, 1)` steps under the given
    /// load — only the final propagated state is used — and maps it onto
    /// the causal graph. Entries for every Direct and Composite node are
    /// always present; a BackwardInferred node is present exactly when
    /// its downstream trigger crossed its anomaly threshold.
    pub fn infer_hidden_states(
        &mut self,
        gap_duration_samples: u32,
        load_power: u64,
    ) -> (r: InferenceMap)
        requires
            old(self).wf(),
            load_power <= LOAD_MAX,
        ensures
            final(self).wf(),
            *final(self) == old(self).after_gap(gap_duration_samples, load_power as int),
            r == old(self).infer_spec(gap_duration_samples, load_power as int),
            r.battery_state is Some,
            r.solar_input is Some,
            r.battery_efficiency is Some,
            r.battery_aging is Some <==> battery_state_value(
                predict_iter(old(self).kf, load_power as int,
                    steps_of(gap_duration_samples))) < old(self).aging_threshold,
            r.solar_degradation is Some <==> predict_iter(
                old(self).kf, load_power as int,
                steps_of(gap_duration_samples)).solar.x < old(self).solar_threshold,
    {
        let ghost oe = *self;
        let steps: u32 = if gap_duration_samples == 0 {
            1
        } else {
            gap_duration_samples
        };
        let mut i: u32 = 0;
        while i < steps
            invariant
                oe.wf(),
                load_power <= LOAD_MAX,
                i <= steps,
                *self == (HiddenStateInferenceEngine {
                    kf: predict_iter(oe.kf, load_power as int, i as nat),
                    ..oe
                }),
                self.kf.wf(),
            decreases steps - i,
        {
            let ghost n_before = i as nat;
            self.kf.predict(load_power);
            proof {
                assert(predict_iter(oe.kf, load_power as int, (n_before + 1) as nat)
                    == predict_iter(oe.kf, load_power as int, n_before).predict_step(
                        load_power as int));
            }
            i = i + 1;
        }
        // Composite node: battery state from charge, voltage, efficiency.
        let battery_state = self.estimate_battery_state(
            self.kf.charge.x, self.kf.voltage.x, self.kf.efficiency.x,
            gap_duration_samples);
        // Direct nodes: solar input and battery efficiency.
        let trace: u64 = self.kf.uncertainty();
        let covf: u64 = confidence_from_trace(INFERENCE_HALF_TRACE, trace);
        let radius: u64 = 2 * isqrt(1000 * trace);
        let sol: u64 = self.kf.solar.x;
        let solar_input = HiddenStateEstimate {
            node_name: NodeName::SolarInput,
            estimated_value: sol,
            lower_bound: if sol >= radius {
                sol - radius
            } else {
                0
            },
            upper_bound: if sol + radius < 600_000 {
                sol + radius
            } else {
                600_000
            },
            confidence: covf,
            inference_source: InferenceSource::Direct,
            timestamp: 0,
        };
        let eff: u64 = self.kf.efficiency.x;
        let battery_efficiency = HiddenStateEstimate {
            node_name: NodeName::BatteryEfficiency,
            estimated_value: eff,
            lower_bound: if eff >= 550 {
                eff - 50
            } else {
                500
            },
            upper_bound: if eff + 50 < SCALE {
                eff + 50
            } else {
                SCALE
            },
            confidence: covf,
            inference_source: InferenceSource::Direct,
            timestamp: 0,
        };
        // Backward pass: synthesize upstream causes for anomalous nodes.
        proof {
            lemma_decay_bounds(
                self.decay_rate_factor as int, gap_duration_samples as nat);
        }
        let (battery_aging, solar_degradation) =
            self.backward_infer_root_causes(&battery_state, &solar_input);
        InferenceMap {
            battery_state: Some(battery_state),
            solar_input: Some(solar_input),
            battery_efficiency: Some(battery_efficiency),
            battery_aging,
            solar_degradation,
        }
    }

    /// The Composite battery-state node: the fixed weighted combination
    /// of the charge, voltage and efficiency channels, with a confidence
    /// that decays exponentially in the gap duration.
    fn estimate_battery_state(
        &self,
        charge: u64,
        voltage: u64,
        efficiency: u64,
        gap_duration: u32,
    ) -> (e: HiddenStateEstimate)
        requires
            self.wf(),
            charge <= crate::READING_MAX,
            voltage <= crate::READING_MAX,
            efficiency <= crate::READING_MAX,
        ensures
            e == estimate_new_spec(
                NodeName::BatteryState,
                battery_state_value_of(charge as int, voltage as int, efficiency as int),
                decay_pow(self.decay_rate_factor as int, gap_duration as nat),
                InferenceSource::Composite,
            ),
    {
        let charge_component: u64 = charge / 100;
        let voltage_component: u64 = voltage / 28;
        let weighted: u64 =
            (400 * charge_component + 300 * voltage_component + 300 * efficiency) / SCALE;
        let battery_state: u64 = if weighted > SCALE {
            SCALE
        } else {
            weighted
        };
        let confidence = decay_confidence(self.decay_rate_factor, gap_duration as u64);
        HiddenStateEstimate::new(
            NodeName::BatteryState, battery_state, confidence, InferenceSource::Composite)
    }

    /// The backward pass over the causal graph: synthesizes an upstream
    /// cause node for each downstream node whose value crossed its
    /// anomaly threshold, with the downstream interval pushed through
    /// the same linear function and the confidence penalized.
    fn backward_infer_root_causes(
        &self,
        battery_state: &HiddenStateEstimate,
        solar: &HiddenStateEstimate,
    ) -> (r: (Option<HiddenStateEstimate>, Option<HiddenStateEstimate>))
        requires
            self.wf(),
            battery_state.estimated_value <= SCALE,
            battery_state.confidence <= SCALE,
            solar.confidence <= SCALE,
        ensures
            r.0 == backward_aging_spec(*self, *battery_state),
            r.1 == backward_solar_spec(*self, *solar),
    {
        proof {
            lemma_mul_upper_bound(
                battery_state.confidence as int, SCALE as int,
                self.backward_penalty as int, SCALE as int);
            lemma_mul_upper_bound(
                solar.confidence as int, SCALE as int,
                self.backward_penalty as int, SCALE as int);
        }
        let battery_aging = if battery_state.estimated_value < self.aging_threshold {
            let bs = battery_state.estimated_value;
            Some(HiddenStateEstimate {
                node_name: NodeName::BatteryAging,
                estimated_value: SCALE - bs,
                lower_bound: if bs <= 800 {
                    800 - bs
                } else {
                    0
                },
                upper_bound: if 1200 - bs < SCALE {
                    1200 - bs
                } else {
                    SCALE
                },
                confidence: (battery_state.confidence * self.backward_penalty) / SCALE,
                inference_source: InferenceSource::BackwardInferred,
                timestamp: 0,
            })
        } else {
            None
        };
        let solar_degradation = if solar.estimated_value < self.solar_threshold {
            let value_norm: u64 = solar.estimated_value / 400;
            let upper_norm: u64 = solar.upper_bound / 400;
            let lower_norm: u64 = solar.lower_bound / 400;
            Some(HiddenStateEstimate {
                node_name: NodeName::SolarDegradation,
                estimated_value: SCALE - (if value_norm < SCALE {
                    value_norm
                } else {
                    SCALE
                }),
                lower_bound: SCALE - (if upper_norm < SCALE {
                    upper_norm
                } else {
                    SCALE
                }),
                upper_bound: SCALE - (if lower_norm < SCALE {
                    lower_norm
                } else {
                    SCALE
                }),
                confidence: (solar.confidence * self.backward_penalty) / SCALE,
                inference_source: InferenceSource::BackwardInferred,
                timestamp: 0,
            })
        } else {
            None
        };
        (battery_aging, solar_degradation)
    }
}

/// The sample-index gap from `a` to `b` (zero when not increasing).
pub open spec fn pair_gap(a: u32, b: u32) -> int {
    if b >= a {
        b - a
    } else {
        0
    }
}

/// The gaps among the first `j` sample indices of `s`: one `(before,
/// after)` pair for each adjacent pair whose index difference exceeds 1,
/// in order.
pub open spec fn gaps_upto(s: Seq<u32>, j: nat) -> Seq<(u32, u32)>
    decreases j,
{
    if j <= 1 {
        Seq::empty()
    } else {
        gaps_upto(s, (j - 1) as nat) + (if pair_gap(s[j - 2], s[j - 1]) > 1 {
            seq![(s[j - 2], s[j - 1])]
        } else {
            Seq::empty()
        })
    }
}

/// All gaps in the sample index sequence `s`.
pub open spec fn detected_gaps(s: Seq<u32>) -> Seq<(u32, u32)> {
    gaps_upto(s, s.len())
}

/// The engine state and accumulated map after handling the gaps from
/// position `i` on: each gap is inferred over and merged into the map,
/// later gaps overwriting same-named entries from earlier ones.
pub open spec fn analyze_loop(
    eng: HiddenStateInferenceEngine,
    acc: InferenceMap,
    gaps: Seq<(u32, u32)>,
    i: nat,
    load: int,
) -> (HiddenStateInferenceEngine, InferenceMap)
    decreases gaps.len() - i,
{
    if i >= gaps.len() {
        (eng, acc)
    } else {
        let g = gaps[i as int];
        let dur = (if g.1 >= g.0 {
            g.1 - g.0
        } else {
            0
        }) as u32;
        analyze_loop(
            eng.after_gap(dur, load),
            merge_spec(acc, eng.infer_spec(dur, load)),
            gaps,
            i + 1,
            load,
        )
    }
}

/// The engine state and map produced by analyzing a whole gap list,
/// starting from an empty map.
pub open spec fn analyze_spec(
    eng: HiddenStateInferenceEngine,
    gaps: Seq<(u32, u32)>,
    load: int,
) -> (HiddenStateInferenceEngine, InferenceMap) {
    analyze_loop(eng, empty_map(), gaps, 0, load)
}

/// Processing the gaps from position `i` on keeps every Direct and
/// Composite node present, once the accumulated map has them or at least
/// one gap remains.
proof fn lemma_analyze_loop_keeps_nodes(
    eng: HiddenStateInferenceEngine,
    acc: InferenceMap,
    gaps: Seq<(u32, u32)>,
    i: nat,
    load: int,
)
    requires
        i < gaps.len() || (acc.battery_state is Some && acc.solar_input is Some
            && acc.battery_efficiency is Some),
    ensures
        ({
            let m = analyze_loop(eng, acc, gaps, i, load).1;
            m.battery_state is Some && m.solar_input is Some && m.battery_efficiency is Some
        }),
    decreases gaps.len() - i,
{
    if i < gaps.len() {
        let g = gaps[i as int];
        let dur = (if g.1 >= g.0 {
            g.1 - g.0
        } else {
            0
        }) as u32;
        lemma_analyze_loop_keeps_nodes(
            eng.after_gap(dur, load),
            merge_spec(acc, eng.infer_spec(dur, load)),
            gaps,
            i + 1,
            load,
        );
    }
}

/// Analyzing a sample sequence with at least one detected gap always
/// yields entries for every Direct and Composite node of the causal
/// graph; with no gaps the map is empty.
pub proof fn lemma_analyze_keeps_nodes(
    eng: HiddenStateInferenceEngine,
    gaps: Seq<(u32, u32)>,
    load: int,
)
    requires
        gaps.len() > 0,
    ensures
        ({
            let m = analyze_spec(eng, gaps, load).1;
            m.battery_state is Some && m.solar_input is Some && m.battery_efficiency is Some
        }),
{
    lemma_analyze_loop_keeps_nodes(eng, empty_map(), gaps, 0, load);
}

/// Handles telemetry dropouts in the causal inference pipeline: detects
/// index gaps and runs hidden-state inference over each.
#[derive(Clone, Copy, Debug)]
pub struct DropoutAwareInference {
    /// The owned inference engine; never shared.
    pub inference: HiddenStateInferenceEngine,
}

impl DropoutAwareInference {
    pub open spec fn wf(self) -> bool {
        self.inference.wf()
    }

    /// A dropout-aware pipeline around the given estimator.
    pub fn new(kf: KalmanFilter) -> (d: DropoutAwareInference)
        requires
            kf.wf(),
        ensures
            d.wf(),
            d.inference.kf == kf,
            d.inference.aging_threshold == 700,
            d.inference.solar_threshold == 300_000,
            d.inference.decay_rate_factor == 951,
            d.inference.backward_penalty == 800,
    {
        DropoutAwareInference { inference: HiddenStateInferenceEngine::new(kf) }
    }

    /// Detects gaps in the ordered sample indices: one `(before, after)`
    /// pair per adjacent pair whose index difference exceeds 1. Empty or
    /// gapless input yields an empty list.
    pub fn detect_gaps(sample_indices: &[u32]) -> (r: Vec<(u32, u32)>)
        ensures
            r@ == detected_gaps(sample_indices@),
    {
        let mut gaps: Vec<(u32, u32)> = Vec::new();
        let n: usize = sample_indices.len();
        let mut i: usize = 1;
        while i < n
            invariant
                1 <= i,
                n == sample_indices@.len(),
                i <= n || i == 1,
                gaps@ == gaps_upto(sample_indices@, i as nat),
            decreases n - i,
        {
            let prev: u32 = sample_indices[i - 1];
            let cur: u32 = sample_indices[i];
            let diff: u32 = if cur >= prev {
                cur - prev
            } else {
                0
            };
            if diff > 1 {
                gaps.push((prev, cur));
            }
            i = i + 1;
            proof {
                assert(gaps@ =~= gaps_upto(sample_indices@, i as nat));
            }
        }
        proof {
            if n <= 1 {
                assert(gaps@ =~= detected_gaps(sample_indices@));
            }
        }
        gaps
    }

    /// Detects every gap in the sample indices, runs hidden-state
    /// inference over each in order, and merges the results into one
    /// accumulated map: later gaps overwrite same-named entries from
    /// earlier gaps. No gaps yields an empty map.
    pub fn analyze_with_dropout_handling(
        &mut self,
        sample_indices: &[u32],
        load_power: u64,
    ) -> (r: InferenceMap)
        requires
            old(self).wf(),
            load_power <= LOAD_MAX,
        ensures
            final(self).wf(),
            final(self).inference == analyze_spec(
                old(self).inference, detected_gaps(sample_indices@), load_power as int).0,
            r == analyze_spec(
                old(self).inference, detected_gaps(sample_indices@), load_power as int).1,
    {
        let ghost oe = self.inference;
        let gaps = Self::detect_gaps(sample_indices);
        let mut acc = InferenceMap::empty();
        let mut j: usize = 0;
        while j < gaps.len()
            invariant
                oe.wf(),
                load_power <= LOAD_MAX,
                j <= gaps@.len(),
                gaps@ == detected_gaps(sample_indices@),
                self.inference.wf(),
                analyze_loop(self.inference, acc, gaps@, j as nat, load_power as int)
                    == analyze_loop(oe, empty_map(), gaps@, 0, load_power as int),
            decreases gaps@.len() - j,
        {
            let ghost pre_eng = self.inference;
            let ghost pre_acc = acc;
            let g = gaps[j];
            let dur: u32 = if g.1 >= g.0 {
                g.1 - g.0
            } else {
                0
            };
            let m = self.inference.infer_hidden_states(dur, load_power);
            acc = acc.merge(&m);
            proof {
                assert(analyze_loop(pre_eng, pre_acc, gaps@, j as nat, load_power as int)
                    == analyze_loop(
                        self.inference, acc, gaps@, (j + 1) as nat, load_power as int));
            }
            j = j + 1;
        }
        acc
    }
}

} // verus!
