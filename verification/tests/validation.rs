use aethelix_core::error::Error;
use aethelix_core::measurement::{Measurement, MeasurementValidator};
use aethelix_core::Field;

#[test]
fn test_measurement_creation() {
    let m = Measurement::new(1_700_000_000);
    assert_eq!(m.battery_voltage, 28_000);
    assert_eq!(m.quality, 1_000);
}

#[test]
fn test_measurement_validation() {
    let m = Measurement::new(1_700_000_000);
    let validator = MeasurementValidator::default();
    assert!(validator.validate(&m).is_ok());
}

#[test]
fn test_validation_names_first_violated_field() {
    let validator = MeasurementValidator::default();
    let cases: Vec<(fn(&mut Measurement), Field, u64, u64)> = vec![
        (|m| m.battery_voltage = 19_999, Field::BatteryVoltage, 20_000, 35_000),
        (|m| m.battery_charge = 110_000, Field::BatteryCharge, 40_000, 105_000),
        (|m| m.battery_temp = 80_001, Field::BatteryTemp, 0, 80_000),
        (|m| m.bus_voltage = 24_999, Field::BusVoltage, 25_000, 32_000),
        (|m| m.bus_current = 50_001, Field::BusCurrent, 0, 50_000),
        (|m| m.solar_input = 500_001, Field::SolarInput, 0, 500_000),
        (|m| m.solar_panel_temp = 19_999, Field::SolarPanelTemp, 20_000, 100_000),
        (|m| m.payload_temp = 80_001, Field::PayloadTemp, 0, 80_000),
        (|m| m.quality = 1_001, Field::Quality, 0, 1_000),
    ];
    for (tweak, field, lo, hi) in cases {
        let mut m = Measurement::new(0);
        tweak(&mut m);
        match validator.validate(&m) {
            Err(Error::OutOfRange(f, a, b)) => {
                assert_eq!(f, field);
                assert_eq!((a, b), (lo, hi));
            }
            other => panic!("expected {:?} out of range, got {:?}", field, other),
        }
    }
}

#[test]
fn test_validation_fails_fast_on_first_field() {
    // Two fields out of range: only the first (in checking order) is named.
    let validator = MeasurementValidator::default();
    let mut m = Measurement::new(0);
    m.battery_voltage = 40_000;
    m.payload_temp = 90_000;
    match validator.validate(&m) {
        Err(Error::OutOfRange(f, _, _)) => assert_eq!(f, Field::BatteryVoltage),
        other => panic!("expected range failure, got {:?}", other),
    }
}

#[test]
fn test_validator_with_ranges() {
    let v = MeasurementValidator::with_ranges(
        (25_000, 30_000),
        (40_000, 105_000),
        (0, 80_000),
        (25_000, 32_000),
        (0, 50_000),
        (0, 500_000),
        (20_000, 100_000),
        (0, 80_000),
    )
    .unwrap();
    let mut m = Measurement::new(0);
    m.battery_voltage = 24_000;
    assert!(v.validate(&m).is_err());

    // An empty range is rejected at construction.
    let bad = MeasurementValidator::with_ranges(
        (30_000, 25_000),
        (40_000, 105_000),
        (0, 80_000),
        (25_000, 32_000),
        (0, 50_000),
        (0, 500_000),
        (20_000, 100_000),
        (0, 80_000),
    );
    assert!(matches!(bad, Err(Error::ConfigurationError)));
}
