//! The external record form of measurements and estimates.
//!
//! A record is the concatenation of the record's fields, each written as
//! exactly twenty ASCII decimal digits with leading zeros. Encoding then
//! decoding a record yields the original value field for field.

use vstd::prelude::*;

use crate::measurement::Measurement;
use crate::state_estimate::StateEstimate;
use crate::READING_MAX;

verus! {

/// `10^w`.
pub open spec fn pow10(w: nat) -> nat
    decreases w,
{
    if w == 0 {
        1
    } else {
        10 * pow10((w - 1) as nat)
    }
}

/// The numeric value of an ASCII digit (zero for other bytes).
pub open spec fn digit_val(b: u8) -> nat {
    if 48 <= b {
        (b - 48) as nat
    } else {
        0
    }
}

pub open spec fn is_digit(b: u8) -> bool {
    48 <= b <= 57
}

pub open spec fn all_digits(s: Seq<u8>) -> bool {
    forall|i: int| 0 <= i < s.len() ==> is_digit(#[trigger] s[i])
}

/// `n` written as exactly `w` decimal digits with leading zeros
/// (truncated to its `w` least significant digits).
pub open spec fn fixed_digits(n: nat, w: nat) -> Seq<u8>
    decreases w,
{
    if w == 0 {
        Seq::empty()
    } else {
        fixed_digits(n / 10, (w - 1) as nat) + seq![(48 + (n % 10)) as u8]
    }
}

/// The value of a digit string read in base ten.
pub open spec fn val_of(s: Seq<u8>) -> nat
    decreases s.len(),
{
    if s.len() == 0 {
        0
    } else {
        val_of(s.drop_last()) * 10 + digit_val(s.last())
    }
}

/// The value a twenty-digit field decodes to: defined when every byte is
/// a digit and the value fits in `u64`.
pub open spec fn parse_val(s: Seq<u8>) -> Option<u64> {
    if all_digits(s) && val_of(s) <= u64::MAX {
        Some(val_of(s) as u64)
    } else {
        None
    }
}

proof fn lemma_fixed_digits_len(n: nat, w: nat)
    ensures
        fixed_digits(n, w).len() == w,
    decreases w,
{
    if w > 0 {
        lemma_fixed_digits_len(n / 10, (w - 1) as nat);
    }
}

proof fn lemma_fixed_digits_are_digits(n: nat, w: nat)
    ensures
        all_digits(fixed_digits(n, w)),
    decreases w,
{
    if w > 0 {
        lemma_fixed_digits_are_digits(n / 10, (w - 1) as nat);
        let s = fixed_digits(n, w);
        let s0 = fixed_digits(n / 10, (w - 1) as nat);
        assert forall|i: int| 0 <= i < s.len() implies is_digit(#[trigger] s[i]) by {
            if i < s0.len() {
                assert(s[i] == s0[i]);
            }
        }
    }
}

/// Writing `w` digits and reading them back returns `n`, as long as `n`
/// has at most `w` digits.
proof fn lemma_val_of_fixed(n: nat, w: nat)
    requires
        n < pow10(w),
    ensures
        val_of(fixed_digits(n, w)) == n,
    decreases w,
{
    if w == 0 {
        assert(n == 0);
    } else {
        let s = fixed_digits(n, w);
        let s0 = fixed_digits(n / 10, (w - 1) as nat);
        lemma_fixed_digits_len(n / 10, (w - 1) as nat);
        assert(s.drop_last() =~= s0);
        assert(n / 10 < pow10((w - 1) as nat)) by {
            vstd::arithmetic::div_mod::lemma_multiply_divide_lt(
                n as int, 10, pow10((w - 1) as nat) as int);
        }
        lemma_val_of_fixed(n / 10, (w - 1) as nat);
        vstd::arithmetic::div_mod::lemma_fundamental_div_mod(n as int, 10);
    }
}

/// A digit string of length `w` reads to a value below `10^w`.
proof fn lemma_val_of_bound(s: Seq<u8>)
    requires
        all_digits(s),
    ensures
        val_of(s) < pow10(s.len()),
    decreases s.len(),
{
    if s.len() > 0 {
        assert(all_digits(s.drop_last())) by {
            assert(forall|i: int| 0 <= i < s.len() - 1 ==> s.drop_last()[i] == s[i]);
        }
        lemma_val_of_bound(s.drop_last());
    }
}

proof fn lemma_pow10_20()
    ensures
        pow10(20) == 100_000_000_000_000_000_000,
{
    reveal_with_fuel(pow10, 21);
}

proof fn lemma_pow10_mono(a: nat, b: nat)
    requires
        a <= b,
    ensures
        1 <= pow10(a) <= pow10(b),
    decreases b,
{
    if a == b {
        lemma_pow10_pos(a);
    } else {
        lemma_pow10_mono(a, (b - 1) as nat);
    }
}

proof fn lemma_pow10_pos(a: nat)
    ensures
        1 <= pow10(a),
    decreases a,
{
    if a > 0 {
        lemma_pow10_pos((a - 1) as nat);
    }
}

/// A twenty-digit field decodes back to the `u64` it was written from.
proof fn lemma_parse_fixed_round_trip(n: u64)
    ensures
        parse_val(fixed_digits(n as nat, 20)) == Some(n),
{
    lemma_pow10_20();
    lemma_fixed_digits_are_digits(n as nat, 20);
    lemma_val_of_fixed(n as nat, 20);
}

/// Appends `n` as exactly `w` decimal digits with leading zeros.
fn push_fixed(out: &mut Vec<u8>, n: u64, w: u8)
    ensures
        final(out)@ == old(out)@ + fixed_digits(n as nat, w as nat),
    decreases w,
{
    if w == 0 {
        proof {
            assert(out@ =~= out@ + fixed_digits(n as nat, 0));
        }
        return;
    }
    push_fixed(out, n / 10, w - 1);
    out.push(48 + (n % 10) as u8);
    proof {
        assert(out@ =~= old(out)@ + fixed_digits(n as nat, w as nat));
    }
}

/// Reads the twenty-digit field starting at `start`.
fn parse_fixed(bytes: &[u8], start: usize) -> (r: Option<u64>)
    requires
        start + 20 <= bytes@.len(),
    ensures
        r == parse_val(bytes@.subrange(start as int, start as int + 20)),
{
    let ghost s = bytes@.subrange(start as int, start as int + 20);
    proof {
        lemma_pow10_20();
    }
    let n: usize = bytes.len();
    let mut acc: u128 = 0;
    let mut i: usize = 0;
    while i < 20
        invariant
            i <= 20,
            n == bytes@.len(),
            start + 20 <= n,
            s == bytes@.subrange(start as int, start as int + 20),
            all_digits(s.subrange(0, i as int)),
            acc == val_of(s.subrange(0, i as int)),
            acc < pow10(i as nat),
            pow10(20) == 100_000_000_000_000_000_000,
        decreases 20 - i,
    {
        let b: u8 = bytes[start + i];
        proof {
            assert(s[i as int] == bytes@[start + i]);
        }
        if b < 48 || b > 57 {
            proof {
                assert(!is_digit(s[i as int]));
                assert(!all_digits(s));
            }
            return None;
        }
        proof {
            assert(s.subrange(0, i + 1).drop_last() =~= s.subrange(0, i as int));
            assert(s.subrange(0, i + 1).last() == s[i as int]);
            assert(pow10((i + 1) as nat) == 10 * pow10(i as nat));
            lemma_pow10_mono((i + 1) as nat, 20);
        }
        acc = acc * 10 + ((b - 48) as u128);
        i = i + 1;
    }
    proof {
        assert(s.subrange(0, 20) =~= s);
        lemma_val_of_bound(s);
    }
    if acc > 0xFFFF_FFFF_FFFF_FFFF {
        None
    } else {
        Some(acc as u64)
    }
}

/// The record form of a measurement: its ten fields, each as twenty
/// decimal digits.
pub open spec fn measurement_record(m: Measurement) -> Seq<u8> {
    fixed_digits(m.timestamp as nat, 20) + fixed_digits(m.battery_voltage as nat, 20)
        + fixed_digits(m.battery_charge as nat, 20) + fixed_digits(m.battery_temp as nat, 20)
        + fixed_digits(m.bus_voltage as nat, 20) + fixed_digits(m.bus_current as nat, 20)
        + fixed_digits(m.solar_input as nat, 20)
        + fixed_digits(m.solar_panel_temp as nat, 20)
        + fixed_digits(m.payload_temp as nat, 20) + fixed_digits(m.quality as nat, 20)
}

/// The measurement a record decodes to: defined when the record is two
/// hundred digits and every channel lies within the supported bounds.
pub open spec fn measurement_from_record(s: Seq<u8>) -> Option<Measurement> {
    if s.len() != 200 {
        None
    } else {
        match (
            parse_val(s.subrange(0, 20)),
            parse_val(s.subrange(20, 40)),
            parse_val(s.subrange(40, 60)),
            parse_val(s.subrange(60, 80)),
            parse_val(s.subrange(80, 100)),
            parse_val(s.subrange(100, 120)),
            parse_val(s.subrange(120, 140)),
            parse_val(s.subrange(140, 160)),
            parse_val(s.subrange(160, 180)),
            parse_val(s.subrange(180, 200)),
        ) {
            (
                Some(timestamp),
                Some(battery_voltage),
                Some(battery_charge),
                Some(battery_temp),
                Some(bus_voltage),
                Some(bus_current),
                Some(solar_input),
                Some(solar_panel_temp),
                Some(payload_temp),
                Some(quality),
            ) => {
                let m = Measurement {
                    timestamp,
                    battery_voltage,
                    battery_charge,
                    battery_temp,
                    bus_voltage,
                    bus_current,
                    solar_input,
                    solar_panel_temp,
                    payload_temp,
                    quality,
                };
                if m.wf() {
                    Some(m)
                } else {
                    None
                }
            },
            _ => None,
        }
    }
}

/// The record form of a state estimate: its seven fields, each as twenty
/// decimal digits.
pub open spec fn estimate_record(e: StateEstimate) -> Seq<u8> {
    fixed_digits(e.timestamp as nat, 20) + fixed_digits(e.battery_charge as nat, 20)
        + fixed_digits(e.battery_voltage as nat, 20) + fixed_digits(e.solar_input as nat, 20)
        + fixed_digits(e.battery_efficiency as nat, 20)
        + fixed_digits(e.confidence as nat, 20)
        + fixed_digits(e.covariance_trace as nat, 20)
}

/// The state estimate a record decodes to.
pub open spec fn estimate_from_record(s: Seq<u8>) -> Option<StateEstimate> {
    if s.len() != 140 {
        None
    } else {
        match (
            parse_val(s.subrange(0, 20)),
            parse_val(s.subrange(20, 40)),
            parse_val(s.subrange(40, 60)),
            parse_val(s.subrange(60, 80)),
            parse_val(s.subrange(80, 100)),
            parse_val(s.subrange(100, 120)),
            parse_val(s.subrange(120, 140)),
        ) {
            (
                Some(timestamp),
                Some(battery_charge),
                Some(battery_voltage),
                Some(solar_input),
                Some(battery_efficiency),
                Some(confidence),
                Some(covariance_trace),
            ) => Some(StateEstimate {
                timestamp,
                battery_charge,
                battery_voltage,
                solar_input,
                battery_efficiency,
                confidence,
                covariance_trace,
            }),
            _ => None,
        }
    }
}

impl Measurement {
    /// Writes the measurement in its external record form.
    pub fn to_record(&self) -> (r: Vec<u8>)
        ensures
            r@ == measurement_record(*self),
    {
        let mut out: Vec<u8> = Vec::new();
        push_fixed(&mut out, self.timestamp, 20);
        push_fixed(&mut out, self.battery_voltage, 20);
        push_fixed(&mut out, self.battery_charge, 20);
        push_fixed(&mut out, self.battery_temp, 20);
        push_fixed(&mut out, self.bus_voltage, 20);
        push_fixed(&mut out, self.bus_current, 20);
        push_fixed(&mut out, self.solar_input, 20);
        push_fixed(&mut out, self.solar_panel_temp, 20);
        push_fixed(&mut out, self.payload_temp, 20);
        push_fixed(&mut out, self.quality, 20);
        proof {
            assert(out@ =~= measurement_record(*self));
        }
        out
    }

    /// Reads a measurement back from its external record form, rejecting
    /// a malformed record or one whose channels lie outside the
    /// supported bounds.
    pub fn from_record(bytes: &[u8]) -> (r: Option<Measurement>)
        ensures
            r == measurement_from_record(bytes@),
            r matches Some(m) ==> m.wf(),
    {
        if bytes.len() != 200 {
            return None;
        }
        let timestamp = parse_fixed(bytes, 0);
        let battery_voltage = parse_fixed(bytes, 20);
        let battery_charge = parse_fixed(bytes, 40);
        let battery_temp = parse_fixed(bytes, 60);
        let bus_voltage = parse_fixed(bytes, 80);
        let bus_current = parse_fixed(bytes, 100);
        let solar_input = parse_fixed(bytes, 120);
        let solar_panel_temp = parse_fixed(bytes, 140);
        let payload_temp = parse_fixed(bytes, 160);
        let quality = parse_fixed(bytes, 180);
        match (
            timestamp, battery_voltage, battery_charge, battery_temp, bus_voltage,
            bus_current, solar_input, solar_panel_temp, payload_temp, quality,
        ) {
            (
                Some(timestamp),
                Some(battery_voltage),
                Some(battery_charge),
                Some(battery_temp),
                Some(bus_voltage),
                Some(bus_current),
                Some(solar_input),
                Some(solar_panel_temp),
                Some(payload_temp),
                Some(quality),
            ) => {
                let m = Measurement {
                    timestamp,
                    battery_voltage,
                    battery_charge,
                    battery_temp,
                    bus_voltage,
                    bus_current,
                    solar_input,
                    solar_panel_temp,
                    payload_temp,
                    quality,
                };
                if m.battery_voltage <= READING_MAX && m.battery_charge <= READING_MAX
                    && m.battery_temp <= READING_MAX && m.bus_voltage <= READING_MAX
                    && m.bus_current <= READING_MAX && m.solar_input <= READING_MAX
                    && m.solar_panel_temp <= READING_MAX && m.payload_temp <= READING_MAX
                    && m.quality <= READING_MAX
                {
                    Some(m)
                } else {
                    None
                }
            },
            _ => None,
        }
    }
}

impl StateEstimate {
    /// Writes the estimate in its external record form.
    pub fn to_record(&self) -> (r: Vec<u8>)
        ensures
            r@ == estimate_record(*self),
    {
        let mut out: Vec<u8> = Vec::new();
        push_fixed(&mut out, self.timestamp, 20);
        push_fixed(&mut out, self.battery_charge, 20);
        push_fixed(&mut out, self.battery_voltage, 20);
        push_fixed(&mut out, self.solar_input, 20);
        push_fixed(&mut out, self.battery_efficiency, 20);
        push_fixed(&mut out, self.confidence, 20);
        push_fixed(&mut out, self.covariance_trace, 20);
        proof {
            assert(out@ =~= estimate_record(*self));
        }
        out
    }

    /// Reads an estimate back from its external record form.
    pub fn from_record(bytes: &[u8]) -> (r: Option<StateEstimate>)
        ensures
            r == estimate_from_record(bytes@),
    {
        if bytes.len() != 140 {
            return None;
        }
        let timestamp = parse_fixed(bytes, 0);
        let battery_charge = parse_fixed(bytes, 20);
        let battery_voltage = parse_fixed(bytes, 40);
        let solar_input = parse_fixed(bytes, 60);
        let battery_efficiency = parse_fixed(bytes, 80);
        let confidence = parse_fixed(bytes, 100);
        let covariance_trace = parse_fixed(bytes, 120);
        match (
            timestamp, battery_charge, battery_voltage, solar_input, battery_efficiency,
            confidence, covariance_trace,
        ) {
            (
                Some(timestamp),
                Some(battery_charge),
                Some(battery_voltage),
                Some(solar_input),
                Some(battery_efficiency),
                Some(confidence),
                Some(covariance_trace),
            ) => Some(StateEstimate {
                timestamp,
                battery_charge,
                battery_voltage,
                solar_input,
                battery_efficiency,
                confidence,
                covariance_trace,
            }),
            _ => None,
        }
    }
}

/// Encoding a measurement and decoding the record yields the measurement
/// back, field for field.
pub proof fn lemma_measurement_record_round_trip(m: Measurement)
    requires
        m.wf(),
    ensures
        measurement_from_record(measurement_record(m)) == Some(m),
{
    let s = measurement_record(m);
    lemma_fixed_digits_len(m.timestamp as nat, 20);
    lemma_fixed_digits_len(m.battery_voltage as nat, 20);
    lemma_fixed_digits_len(m.battery_charge as nat, 20);
    lemma_fixed_digits_len(m.battery_temp as nat, 20);
    lemma_fixed_digits_len(m.bus_voltage as nat, 20);
    lemma_fixed_digits_len(m.bus_current as nat, 20);
    lemma_fixed_digits_len(m.solar_input as nat, 20);
    lemma_fixed_digits_len(m.solar_panel_temp as nat, 20);
    lemma_fixed_digits_len(m.payload_temp as nat, 20);
    lemma_fixed_digits_len(m.quality as nat, 20);
    assert(s.subrange(0, 20) =~= fixed_digits(m.timestamp as nat, 20));
    assert(s.subrange(20, 40) =~= fixed_digits(m.battery_voltage as nat, 20));
    assert(s.subrange(40, 60) =~= fixed_digits(m.battery_charge as nat, 20));
    assert(s.subrange(60, 80) =~= fixed_digits(m.battery_temp as nat, 20));
    assert(s.subrange(80, 100) =~= fixed_digits(m.bus_voltage as nat, 20));
    assert(s.subrange(100, 120) =~= fixed_digits(m.bus_current as nat, 20));
    assert(s.subrange(120, 140) =~= fixed_digits(m.solar_input as nat, 20));
    assert(s.subrange(140, 160) =~= fixed_digits(m.solar_panel_temp as nat, 20));
    assert(s.subrange(160, 180) =~= fixed_digits(m.payload_temp as nat, 20));
    assert(s.subrange(180, 200) =~= fixed_digits(m.quality as nat, 20));
    lemma_parse_fixed_round_trip(m.timestamp);
    lemma_parse_fixed_round_trip(m.battery_voltage);
    lemma_parse_fixed_round_trip(m.battery_charge);
    lemma_parse_fixed_round_trip(m.battery_temp);
    lemma_parse_fixed_round_trip(m.bus_voltage);
    lemma_parse_fixed_round_trip(m.bus_current);
    lemma_parse_fixed_round_trip(m.solar_input);
    lemma_parse_fixed_round_trip(m.solar_panel_temp);
    lemma_parse_fixed_round_trip(m.payload_temp);
    lemma_parse_fixed_round_trip(m.quality);
}

/// Encoding a state estimate and decoding the record yields the estimate
/// back, field for field.
pub proof fn lemma_estimate_record_round_trip(e: StateEstimate)
    ensures
        estimate_from_record(estimate_record(e)) == Some(e),
{
    let s = estimate_record(e);
    lemma_fixed_digits_len(e.timestamp as nat, 20);
    lemma_fixed_digits_len(e.battery_charge as nat, 20);
    lemma_fixed_digits_len(e.battery_voltage as nat, 20);
    lemma_fixed_digits_len(e.solar_input as nat, 20);
    lemma_fixed_digits_len(e.battery_efficiency as nat, 20);
    lemma_fixed_digits_len(e.confidence as nat, 20);
    lemma_fixed_digits_len(e.covariance_trace as nat, 20);
    assert(s.subrange(0, 20) =~= fixed_digits(e.timestamp as nat, 20));
    assert(s.subrange(20, 40) =~= fixed_digits(e.battery_charge as nat, 20));
    assert(s.subrange(40, 60) =~= fixed_digits(e.battery_voltage as nat, 20));
    assert(s.subrange(60, 80) =~= fixed_digits(e.solar_input as nat, 20));
    assert(s.subrange(80, 100) =~= fixed_digits(e.battery_efficiency as nat, 20));
    assert(s.subrange(100, 120) =~= fixed_digits(e.confidence as nat, 20));
    assert(s.subrange(120, 140) =~= fixed_digits(e.covariance_trace as nat, 20));
    lemma_parse_fixed_round_trip(e.timestamp);
    lemma_parse_fixed_round_trip(e.battery_charge);
    lemma_parse_fixed_round_trip(e.battery_voltage);
    lemma_parse_fixed_round_trip(e.solar_input);
    lemma_parse_fixed_round_trip(e.battery_efficiency);
    lemma_parse_fixed_round_trip(e.confidence);
    lemma_parse_fixed_round_trip(e.covariance_trace);
}

} // verus!
