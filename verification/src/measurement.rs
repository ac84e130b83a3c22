//! Telemetry measurement record and its range validator.

use vstd::prelude::*;

use crate::error::{Error, Field};
use crate::READING_MAX;

verus! {

/// A single telemetry measurement. Every channel is a scaled integer
/// carrying milli-units (`28.5 V` is stored as `28_500`); the timestamp
/// counts whole seconds since the epoch.
#[derive(Clone, Copy, Debug, PartialEq, Eq, Structural)]
pub struct Measurement {
    /// Seconds since the epoch.
    pub timestamp: u64,
    /// Battery voltage (milli-volts of the bus scale, nominally 20-35 V).
    pub battery_voltage: u64,
    /// Battery charge (milli-ampere-hours, nominally 40-105 Ah).
    pub battery_charge: u64,
    /// Battery temperature (milli-degrees Celsius, nominally 0-80).
    pub battery_temp: u64,
    /// Bus voltage (milli-volts, nominally 25-32 V).
    pub bus_voltage: u64,
    /// Bus current (milli-amps, nominally 0-50 A).
    pub bus_current: u64,
    /// Solar input power (milli-watts of the panel scale, nominally 0-500 W).
    pub solar_input: u64,
    /// Solar panel temperature (milli-degrees Celsius, nominally 20-100).
    pub solar_panel_temp: u64,
    /// Payload temperature (milli-degrees Celsius, nominally 0-80).
    pub payload_temp: u64,
    /// Measurement quality score in `[0, SCALE]`.
    pub quality: u64,
}

impl Measurement {
    /// Every channel is small enough for the filter arithmetic.
    pub open spec fn wf(self) -> bool {
        &&& self.battery_voltage <= READING_MAX
        &&& self.battery_charge <= READING_MAX
        &&& self.battery_temp <= READING_MAX
        &&& self.bus_voltage <= READING_MAX
        &&& self.bus_current <= READING_MAX
        &&& self.solar_input <= READING_MAX
        &&& self.solar_panel_temp <= READING_MAX
        &&& self.payload_temp <= READING_MAX
        &&& self.quality <= READING_MAX
    }

    /// A nominal healthy reading at the given time.
    pub fn new(timestamp: u64) -> (m: Measurement)
        ensures
            m.timestamp == timestamp,
            m.battery_voltage == 28_000,
            m.battery_charge == 95_000,
            m.battery_temp == 35_000,
            m.bus_voltage == 29_000,
            m.bus_current == 15_000,
            m.solar_input == 400_000,
            m.solar_panel_temp == 45_000,
            m.payload_temp == 38_000,
            m.quality == 1_000,
            m.wf(),
    {
        Measurement {
            timestamp,
            battery_voltage: 28_000,
            battery_charge: 95_000,
            battery_temp: 35_000,
            bus_voltage: 29_000,
            bus_current: 15_000,
            solar_input: 400_000,
            solar_panel_temp: 45_000,
            payload_temp: 38_000,
            quality: 1_000,
        }
    }
}

/// Configured `[min, max]` range for each telemetry channel, in the same
/// scaled units as `Measurement`. Stateless beyond these ranges.
#[derive(Clone, Copy, Debug)]
pub struct MeasurementValidator {
    pub battery_voltage_range: (u64, u64),
    pub battery_charge_range: (u64, u64),
    pub battery_temp_range: (u64, u64),
    pub bus_voltage_range: (u64, u64),
    pub bus_current_range: (u64, u64),
    pub solar_input_range: (u64, u64),
    pub solar_panel_temp_range: (u64, u64),
    pub payload_temp_range: (u64, u64),
}

/// Is `v` inside the closed range `r`?
pub open spec fn in_range(v: u64, r: (u64, u64)) -> bool {
    r.0 <= v && v <= r.1
}

/// The validator with the nominal mission ranges.
pub open spec fn default_validator() -> MeasurementValidator {
    MeasurementValidator {
        battery_voltage_range: (20_000u64, 35_000u64),
        battery_charge_range: (40_000u64, 105_000u64),
        battery_temp_range: (0u64, 80_000u64),
        bus_voltage_range: (25_000u64, 32_000u64),
        bus_current_range: (0u64, 50_000u64),
        solar_input_range: (0u64, 500_000u64),
        solar_panel_temp_range: (20_000u64, 100_000u64),
        payload_temp_range: (0u64, 80_000u64),
    }
}

impl MeasurementValidator {
    /// Every range is non-empty and bounded by `READING_MAX`.
    pub open spec fn wf(self) -> bool {
        &&& self.battery_voltage_range.0 <= self.battery_voltage_range.1 <= READING_MAX
        &&& self.battery_charge_range.0 <= self.battery_charge_range.1 <= READING_MAX
        &&& self.battery_temp_range.0 <= self.battery_temp_range.1 <= READING_MAX
        &&& self.bus_voltage_range.0 <= self.bus_voltage_range.1 <= READING_MAX
        &&& self.bus_current_range.0 <= self.bus_current_range.1 <= READING_MAX
        &&& self.solar_input_range.0 <= self.solar_input_range.1 <= READING_MAX
        &&& self.solar_panel_temp_range.0 <= self.solar_panel_temp_range.1 <= READING_MAX
        &&& self.payload_temp_range.0 <= self.payload_temp_range.1 <= READING_MAX
    }

    /// All eight channels and the quality score pass their range checks.
    pub open spec fn accepts(self, m: Measurement) -> bool {
        &&& in_range(m.battery_voltage, self.battery_voltage_range)
        &&& in_range(m.battery_charge, self.battery_charge_range)
        &&& in_range(m.battery_temp, self.battery_temp_range)
        &&& in_range(m.bus_voltage, self.bus_voltage_range)
        &&& in_range(m.bus_current, self.bus_current_range)
        &&& in_range(m.solar_input, self.solar_input_range)
        &&& in_range(m.solar_panel_temp, self.solar_panel_temp_range)
        &&& in_range(m.payload_temp, self.payload_temp_range)
        &&& m.quality <= crate::SCALE
    }

    /// The first violated field in checking order, with its bounds;
    /// `None` when the measurement passes.
    pub open spec fn first_violation(self, m: Measurement) -> Option<(Field, u64, u64)> {
        if !in_range(m.battery_voltage, self.battery_voltage_range) {
            Some((Field::BatteryVoltage, self.battery_voltage_range.0, self.battery_voltage_range.1))
        } else if !in_range(m.battery_charge, self.battery_charge_range) {
            Some((Field::BatteryCharge, self.battery_charge_range.0, self.battery_charge_range.1))
        } else if !in_range(m.battery_temp, self.battery_temp_range) {
            Some((Field::BatteryTemp, self.battery_temp_range.0, self.battery_temp_range.1))
        } else if !in_range(m.bus_voltage, self.bus_voltage_range) {
            Some((Field::BusVoltage, self.bus_voltage_range.0, self.bus_voltage_range.1))
        } else if !in_range(m.bus_current, self.bus_current_range) {
            Some((Field::BusCurrent, self.bus_current_range.0, self.bus_current_range.1))
        } else if !in_range(m.solar_input, self.solar_input_range) {
            Some((Field::SolarInput, self.solar_input_range.0, self.solar_input_range.1))
        } else if !in_range(m.solar_panel_temp, self.solar_panel_temp_range) {
            Some((Field::SolarPanelTemp, self.solar_panel_temp_range.0, self.solar_panel_temp_range.1))
        } else if !in_range(m.payload_temp, self.payload_temp_range) {
            Some((Field::PayloadTemp, self.payload_temp_range.0, self.payload_temp_range.1))
        } else if m.quality > crate::SCALE {
            Some((Field::Quality, 0, crate::SCALE))
        } else {
            None
        }
    }

    /// The nominal mission ranges.
    pub fn default() -> (v: MeasurementValidator)
        ensures
            v == default_validator(),
            v.battery_voltage_range == (20_000u64, 35_000u64),
            v.battery_charge_range == (40_000u64, 105_000u64),
            v.battery_temp_range == (0u64, 80_000u64),
            v.bus_voltage_range == (25_000u64, 32_000u64),
            v.bus_current_range == (0u64, 50_000u64),
            v.solar_input_range == (0u64, 500_000u64),
            v.solar_panel_temp_range == (20_000u64, 100_000u64),
            v.payload_temp_range == (0u64, 80_000u64),
            v.wf(),
    {
        MeasurementValidator {
            battery_voltage_range: (20_000, 35_000),
            battery_charge_range: (40_000, 105_000),
            battery_temp_range: (0, 80_000),
            bus_voltage_range: (25_000, 32_000),
            bus_current_range: (0, 50_000),
            solar_input_range: (0, 500_000),
            solar_panel_temp_range: (20_000, 100_000),
            payload_temp_range: (0, 80_000),
        }
    }

    /// A validator with caller-supplied ranges, each `(min, max)` in the
    /// order of the `Measurement` fields. Rejects an empty range or a
    /// bound beyond `READING_MAX` with `ConfigurationError`.
    pub fn with_ranges(
        battery_voltage_range: (u64, u64),
        battery_charge_range: (u64, u64),
        battery_temp_range: (u64, u64),
        bus_voltage_range: (u64, u64),
        bus_current_range: (u64, u64),
        solar_input_range: (u64, u64),
        solar_panel_temp_range: (u64, u64),
        payload_temp_range: (u64, u64),
    ) -> (r: Result<MeasurementValidator, Error>)
        ensures
            match r {
                Ok(v) => {
                    &&& v == (MeasurementValidator {
                        battery_voltage_range,
                        battery_charge_range,
                        battery_temp_range,
                        bus_voltage_range,
                        bus_current_range,
                        solar_input_range,
                        solar_panel_temp_range,
                        payload_temp_range,
                    })
                    &&& v.wf()
                },
                Err(e) => {
                    &&& e == Error::ConfigurationError
                    &&& !(MeasurementValidator {
                        battery_voltage_range,
                        battery_charge_range,
                        battery_temp_range,
                        bus_voltage_range,
                        bus_current_range,
                        solar_input_range,
                        solar_panel_temp_range,
                        payload_temp_range,
                    }).wf()
                },
            },
    {
        let v = MeasurementValidator {
            battery_voltage_range,
            battery_charge_range,
            battery_temp_range,
            bus_voltage_range,
            bus_current_range,
            solar_input_range,
            solar_panel_temp_range,
            payload_temp_range,
        };
        if range_ok(battery_voltage_range) && range_ok(battery_charge_range)
            && range_ok(battery_temp_range) && range_ok(bus_voltage_range)
            && range_ok(bus_current_range) && range_ok(solar_input_range)
            && range_ok(solar_panel_temp_range) && range_ok(payload_temp_range)
        {
            Ok(v)
        } else {
            Err(Error::ConfigurationError)
        }
    }

    /// Checks all eight channels against their configured ranges and the
    /// quality score against `[0, SCALE]`, failing fast on the first
    /// violated field and reporting its name and bounds.
    pub fn validate(&self, m: &Measurement) -> (r: Result<(), Error>)
        ensures
            r is Ok <==> self.accepts(*m),
            match self.first_violation(*m) {
                None => r == Result::<(), Error>::Ok(()),
                Some((f, lo, hi)) => r == Result::<(), Error>::Err(Error::OutOfRange(f, lo, hi)),
            },
    {
        check_range(Field::BatteryVoltage, m.battery_voltage, self.battery_voltage_range)?;
        check_range(Field::BatteryCharge, m.battery_charge, self.battery_charge_range)?;
        check_range(Field::BatteryTemp, m.battery_temp, self.battery_temp_range)?;
        check_range(Field::BusVoltage, m.bus_voltage, self.bus_voltage_range)?;
        check_range(Field::BusCurrent, m.bus_current, self.bus_current_range)?;
        check_range(Field::SolarInput, m.solar_input, self.solar_input_range)?;
        check_range(Field::SolarPanelTemp, m.solar_panel_temp, self.solar_panel_temp_range)?;
        check_range(Field::PayloadTemp, m.payload_temp, self.payload_temp_range)?;
        if m.quality > crate::SCALE {
            return Err(Error::OutOfRange(Field::Quality, 0, crate::SCALE));
        }
        Ok(())
    }
}

/// Is the range non-empty and inside the supported reading bounds?
fn range_ok(r: (u64, u64)) -> (ok: bool)
    ensures
        ok <==> r.0 <= r.1 && r.1 <= READING_MAX,
{
    r.0 <= r.1 && r.1 <= READING_MAX
}

/// One range check, reporting the field and its bounds on failure.
fn check_range(field: Field, value: u64, range: (u64, u64)) -> (r: Result<(), Error>)
    ensures
        in_range(value, range) ==> r == Result::<(), Error>::Ok(()),
        !in_range(value, range) ==> r == Result::<(), Error>::Err(
            Error::OutOfRange(field, range.0, range.1),
        ),
{
    if value < range.0 || value > range.1 {
        Err(Error::OutOfRange(field, range.0, range.1))
    } else {
        Ok(())
    }
}

} // verus!
