use aethelix_core::measurement::Measurement;
use aethelix_core::state_estimate::StateEstimate;

#[test]
fn test_measurement_record_round_trip() {
    let mut m = Measurement::new(1_700_000_123);
    m.battery_voltage = 27_512;
    m.solar_input = 399_001;
    m.quality = 875;

    let bytes = m.to_record();
    assert_eq!(bytes.len(), 200);
    let back = Measurement::from_record(&bytes).unwrap();
    assert_eq!(back, m);
}

#[test]
fn test_measurement_record_rejects_malformed() {
    assert!(Measurement::from_record(&[]).is_none());
    assert!(Measurement::from_record(&[b'1'; 199]).is_none());
    let mut bytes = Measurement::new(0).to_record();
    bytes[3] = b'x';
    assert!(Measurement::from_record(&bytes).is_none());
}

#[test]
fn test_measurement_record_rejects_out_of_bounds() {
    // A record whose fields are all far beyond the supported readings.
    let bytes = vec![b'9'; 200];
    assert!(Measurement::from_record(&bytes).is_none());
}

#[test]
fn test_estimate_record_round_trip() {
    let est = StateEstimate {
        timestamp: 1_700_000_456,
        battery_charge: 95_000,
        battery_voltage: 28_000,
        solar_input: 400_000,
        battery_efficiency: 900,
        confidence: 950,
        covariance_trace: 5_000,
    };
    let bytes = est.to_record();
    assert_eq!(bytes.len(), 140);
    let back = StateEstimate::from_record(&bytes).unwrap();
    assert_eq!(back, est);
}

#[test]
fn test_estimate_record_extreme_values() {
    let est = StateEstimate {
        timestamp: u64::MAX,
        battery_charge: 0,
        battery_voltage: u64::MAX,
        solar_input: 1,
        battery_efficiency: 0,
        confidence: 0,
        covariance_trace: u64::MAX,
    };
    let back = StateEstimate::from_record(&est.to_record()).unwrap();
    assert_eq!(back, est);
}

#[test]
fn test_state_estimate_reliability() {
    let mut est = StateEstimate {
        timestamp: 0,
        battery_charge: 95_000,
        battery_voltage: 28_000,
        solar_input: 400_000,
        battery_efficiency: 900,
        confidence: 950,
        covariance_trace: 5_000,
    };
    assert!(est.is_reliable());
    est.confidence = 700;
    assert!(!est.is_reliable());
    est.confidence = 950;
    est.covariance_trace = 100_000;
    assert!(!est.is_reliable());
}
