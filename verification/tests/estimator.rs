use aethelix_core::error::Error;
use aethelix_core::kalman::KalmanFilter;
use aethelix_core::process_measurement;
use aethelix_core::measurement::Measurement;

#[test]
fn test_version() {
    assert!(!aethelix_core::version().is_empty());
}

#[test]
fn test_kalman_creation() {
    let kf = KalmanFilter::new(28_000, 100, 1);
    assert_eq!(kf.get_state().0, 80_000); // initial charge (milli-percent)
}

#[test]
fn test_kalman_prediction() {
    let mut kf = KalmanFilter::new(28_000, 100, 1);
    let state = kf.predict(300_000);
    assert!(state.charge > 0);
}

#[test]
fn test_kalman_predict() {
    let mut kf = KalmanFilter::new(28_000, 50, 10);
    let state = kf.predict(300_000);

    assert!(state.charge > 0);
    assert!(state.voltage > 0);
    assert!(state.solar > 0);
}

#[test]
fn test_kalman_update() {
    let mut kf = KalmanFilter::new(28_000, 50, 10);
    kf.predict(300_000);
    let state = kf
        .update(Some(75_000), Some(26_800), Some(350_000), None)
        .unwrap();

    assert!(state.battery_charge.abs_diff(75_000) < 5_000);
    assert!(state.battery_voltage.abs_diff(26_800) < 1_000);
}

#[test]
fn test_trace_non_increasing_across_updates() {
    let mut kf = KalmanFilter::new(28_000, 100, 1);
    let mut prev = kf.uncertainty();
    for _ in 0..6 {
        kf.update(Some(95_000), Some(28_500), Some(400_000), None)
            .unwrap();
        let trace = kf.uncertainty();
        assert!(trace <= prev);
        prev = trace;
    }
}

#[test]
fn test_divergence_carries_trace() {
    // A divergence threshold of 1 is crossed by the very first update.
    let mut kf = KalmanFilter::with_config(
        28_000, 100, 1, 1, 500, 300, 20_000, 20, 100, 200, 15_000, 10,
    )
    .unwrap();
    let r = kf.update(Some(95_000), Some(28_500), Some(400_000), None);
    match r {
        Err(Error::FilterDivergence(t)) => {
            assert_eq!(t, kf.uncertainty());
            assert!(t > 1);
        }
        other => panic!("expected divergence, got {:?}", other),
    }
    // Fatal until reset: the next update fails too.
    assert!(matches!(
        kf.update(Some(95_000), Some(28_500), Some(400_000), None),
        Err(Error::FilterDivergence(_))
    ));
}

#[test]
fn test_reset_clears_divergence() {
    let mut kf = KalmanFilter::with_config(
        28_000, 100, 1, 1, 500, 300, 20_000, 20, 100, 200, 15_000, 10,
    )
    .unwrap();
    assert!(kf.update(Some(95_000), None, None, None).is_err());
    kf.reset();
    assert_eq!(kf.get_state(), (80_000, 28_000, 400_000, 1_000));
}

#[test]
fn test_configuration_rejected() {
    // Zero process noise is not a consistent configuration.
    let r = KalmanFilter::with_config(
        28_000, 100, 1, 1_000_000, 0, 300, 20_000, 20, 100, 200, 15_000, 10,
    );
    assert!(matches!(r, Err(Error::ConfigurationError)));
}

#[test]
fn test_estimate_confidence_decreases_with_trace() {
    let mut kf = KalmanFilter::new(28_000, 100, 1);
    let before = kf.get_estimate(0).confidence;
    for _ in 0..10 {
        kf.predict(300_000);
    }
    let after = kf.get_estimate(0).confidence;
    assert!(after < before);
}

#[test]
fn test_process_measurement_pipeline() {
    let mut kf = KalmanFilter::new(28_000, 100, 1);
    let m = Measurement::new(1_700_000_000);
    let est = process_measurement(&m, &mut kf).unwrap();
    assert_eq!(est.timestamp, 1_700_000_000);
    assert!(est.confidence > 0);

    let mut bad = Measurement::new(1_700_000_001);
    bad.bus_current = 60_000; // above the 50 A range
    match process_measurement(&bad, &mut kf) {
        Err(Error::OutOfRange(field, lo, hi)) => {
            assert_eq!(field, aethelix_core::Field::BusCurrent);
            assert_eq!((lo, hi), (0, 50_000));
        }
        other => panic!("expected range failure, got {:?}", other),
    }
}
