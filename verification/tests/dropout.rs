use aethelix_core::dropout_handler::DropoutHandler;
use aethelix_core::measurement::Measurement;

#[test]
fn test_dropout_handler_creation() {
    let handler = DropoutHandler::new(1);
    assert!(!handler.in_dropout);
}

#[test]
fn dropout_handler_test_dropout_detection() {
    let mut handler = DropoutHandler::new(1);
    let m1 = Measurement::new(1_700_000_000);
    let mut m2 = Measurement::new(1_700_000_000);
    m2.battery_voltage = 27_500; // modify to show they're different

    handler.process(&m1).ok();
    let result = handler.process(&m2);

    assert!(result.is_ok());
}

#[test]
fn kalman_filter_test_dropout_detection() {
    let mut handler = DropoutHandler::new(10);

    handler.update_last_valid(10);
    assert!(!handler.check_dropout(11));
    assert!(handler.check_dropout(20));
}

#[test]
fn test_time_gap_enters_dropout() {
    let mut handler = DropoutHandler::new(1);
    let m1 = Measurement::new(1_000);
    handler.process(&m1).unwrap();
    assert!(!handler.in_dropout);

    // 100 s since the last measurement: far beyond the 5 s threshold.
    let m2 = Measurement::new(1_100);
    let est = handler.process(&m2).unwrap().unwrap();
    assert!(handler.in_dropout);
    assert_eq!(est.timestamp, 1_100);

    let status = handler.dropout_status(1_150);
    assert!(status.in_dropout);
    assert_eq!(status.dropout_duration, Some(50));

    // The next close measurement returns the machine to Normal.
    let m3 = Measurement::new(1_102);
    handler.process(&m3).unwrap();
    assert!(!handler.in_dropout);
    assert_eq!(handler.dropout_status(1_200).dropout_duration, None);
}

#[test]
fn test_dropout_degrades_confidence() {
    let mut handler = DropoutHandler::new(1);
    let m1 = Measurement::new(1_000);
    handler.process(&m1).unwrap();
    let normal_conf = handler.kalman.get_estimate(1_000).confidence;

    let m2 = Measurement::new(1_100);
    let est = handler.process(&m2).unwrap().unwrap();
    assert!(est.confidence < normal_conf);
}

#[test]
fn test_confidence_degradation_strictly_decreasing_in_gap() {
    let handler = DropoutHandler::new(10);
    let short = handler.estimate_confidence_degradation(2);
    let long = handler.estimate_confidence_degradation(10);
    assert!(short > long);
    assert_eq!(short, 504);
    assert_eq!(long, 224);
}

#[test]
fn test_fill_dropout_gap_exact_entries() {
    let mut handler = DropoutHandler::new(10);
    let filled = handler.fill_dropout_gap(50, 54, 300_000);

    assert_eq!(filled.len(), 5);
    for (k, (idx, est)) in filled.iter().enumerate() {
        assert_eq!(*idx, 50 + k as u32);
        assert_eq!(est.timestamp, 50 + k as u64);
        assert!(est.confidence > 0);
    }
    // Each entry is independently confidence-scored by its elapsed gap.
    let confs: Vec<u64> = filled.iter().map(|(_, e)| e.confidence).collect();
    assert_eq!(confs, vec![500, 411, 343, 288, 243]);
    for w in confs.windows(2) {
        assert!(w[0] > w[1]);
    }
}

#[test]
fn test_handler_reset() {
    let mut handler = DropoutHandler::new(1);
    let m1 = Measurement::new(1_000);
    handler.process(&m1).unwrap();
    handler.process(&Measurement::new(1_100)).unwrap();
    assert!(handler.in_dropout);

    handler.reset();
    assert!(!handler.in_dropout);
    assert!(handler.last_measurement.is_none());
    assert_eq!(handler.kalman.get_state(), (80_000, 28_000, 400_000, 1_000));
}
