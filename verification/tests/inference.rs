use aethelix_core::hidden_state_inference::{
    DropoutAwareInference, HiddenStateInferenceEngine, InferenceSource, NodeName,
};
use aethelix_core::kalman::KalmanFilter;

#[test]
fn test_hidden_state_inference() {
    let kf = KalmanFilter::new(28_000, 50, 10);
    let mut inference = HiddenStateInferenceEngine::new(kf);

    let estimates = inference.infer_hidden_states(5, 300_000);

    assert!(estimates.battery_state.is_some());
    assert!(estimates.solar_input.is_some());
    assert!(estimates.battery_efficiency.is_some());
}

#[test]
fn test_gap_detection() {
    let sample_indices = vec![0, 1, 2, 3, 10, 11, 12];
    let gaps = DropoutAwareInference::detect_gaps(&sample_indices);

    assert_eq!(gaps.len(), 1);
    assert_eq!(gaps[0], (3, 10));
}

#[test]
fn test_gap_detection_trivial_inputs() {
    assert_eq!(DropoutAwareInference::detect_gaps(&[]), vec![]);
    assert_eq!(DropoutAwareInference::detect_gaps(&[5]), vec![]);
    assert_eq!(DropoutAwareInference::detect_gaps(&[4, 5, 6]), vec![]);
    assert_eq!(
        DropoutAwareInference::detect_gaps(&[0, 4, 5, 9]),
        vec![(0, 4), (5, 9)]
    );
}

#[test]
fn test_confidence_degradation() {
    let kf = KalmanFilter::new(28_000, 50, 10);
    let mut inference = HiddenStateInferenceEngine::new(kf);

    let short_gap = inference.infer_hidden_states(2, 300_000);
    let long_gap = inference.infer_hidden_states(10, 300_000);

    // Longer gap should have lower confidence.
    let battery_state_short = short_gap.battery_state.unwrap();
    let battery_state_long = long_gap.battery_state.unwrap();

    assert!(battery_state_short.confidence > battery_state_long.confidence);
}

#[test]
fn test_provenance_tags() {
    let kf = KalmanFilter::new(28_000, 50, 10);
    let mut inference = HiddenStateInferenceEngine::new(kf);
    let estimates = inference.infer_hidden_states(1, 300_000);

    let bs = estimates.battery_state.unwrap();
    assert_eq!(bs.node_name, NodeName::BatteryState);
    assert_eq!(bs.inference_source, InferenceSource::Composite);
    let solar = estimates.solar_input.unwrap();
    assert_eq!(solar.node_name, NodeName::SolarInput);
    assert_eq!(solar.inference_source, InferenceSource::Direct);
    assert!(solar.lower_bound <= solar.estimated_value);
    assert!(solar.estimated_value <= solar.upper_bound);
    let eff = estimates.battery_efficiency.unwrap();
    assert_eq!(eff.inference_source, InferenceSource::Direct);
}

#[test]
fn test_backward_nodes_absent_when_healthy() {
    let kf = KalmanFilter::new(28_000, 50, 10);
    let mut inference = HiddenStateInferenceEngine::new(kf);
    let estimates = inference.infer_hidden_states(1, 300_000);

    // A healthy propagated state crosses no anomaly threshold: absence of
    // the backward-inferred nodes is the expected outcome.
    assert!(estimates.battery_aging.is_none());
    assert!(estimates.solar_degradation.is_none());
}

#[test]
fn test_backward_nodes_present_when_degraded() {
    let kf = KalmanFilter::new(28_000, 50, 10);
    let mut inference = HiddenStateInferenceEngine::new(kf);
    // A long gap under heavy load drains the charge to its floor and lets
    // the solar estimate decay below its threshold.
    let estimates = inference.infer_hidden_states(50, 5_000_000);

    let aging = estimates.battery_aging.unwrap();
    assert_eq!(aging.node_name, NodeName::BatteryAging);
    assert_eq!(aging.inference_source, InferenceSource::BackwardInferred);
    let bs = estimates.battery_state.unwrap();
    assert!(bs.estimated_value < 700);
    assert_eq!(aging.estimated_value, 1_000 - bs.estimated_value);
    // Backward-pass penalty: confidence is 0.8 of the downstream's.
    assert_eq!(aging.confidence, bs.confidence * 800 / 1_000);

    let degradation = estimates.solar_degradation.unwrap();
    assert_eq!(degradation.node_name, NodeName::SolarDegradation);
    assert_eq!(
        degradation.inference_source,
        InferenceSource::BackwardInferred
    );
}

#[test]
fn test_analyze_with_dropout_handling() {
    let kf = KalmanFilter::new(28_000, 50, 10);
    let mut pipeline = DropoutAwareInference::new(kf);

    let no_gaps = pipeline.analyze_with_dropout_handling(&[0, 1, 2], 300_000);
    assert!(no_gaps.battery_state.is_none());
    assert!(no_gaps.solar_input.is_none());

    let with_gaps = pipeline.analyze_with_dropout_handling(&[0, 1, 2, 3, 10, 11, 12], 300_000);
    assert!(with_gaps.battery_state.is_some());
    assert!(with_gaps.solar_input.is_some());
    assert!(with_gaps.battery_efficiency.is_some());
}

#[test]
fn test_analyze_last_gap_wins() {
    let kf = KalmanFilter::new(28_000, 50, 10);
    let mut pipeline = DropoutAwareInference::new(kf);

    // Two gaps: the second is longer, so its (lower-confidence) entries
    // overwrite the first gap's.
    let map = pipeline.analyze_with_dropout_handling(&[0, 3, 4, 20], 300_000);
    let bs = map.battery_state.unwrap();

    let kf2 = KalmanFilter::new(28_000, 50, 10);
    let mut single = DropoutAwareInference::new(kf2);
    single.analyze_with_dropout_handling(&[0, 3], 300_000);
    let second = single.analyze_with_dropout_handling(&[4, 20], 300_000);
    assert_eq!(bs.confidence, second.battery_state.unwrap().confidence);
}
