//! The thermocouple types: a reference junction and the sensing operations.
use thermocouple::arith::{fp_add, fp_sub};
use thermocouple::{b_type, e_type, j_type, k_type, n_type, s_type, t_type};
use thermocouple::{
    BType, Celsius, EType, Extrapolate, Fahrenheit, JType, KThermocouple, KType, Kelvin,
    Millivolts, NType, RType, Rankine, Reaumur, SType, TType, Thermocouple, ThermocoupleCore,
    TypeT,
};

/// Utility function to compare floating point results
fn compare(a: f64, b: f64, tol: f64) {
    assert!((a - b).abs() < tol, "{} against {}", a, b);
}

fn mv(e: f64) -> Millivolts {
    Millivolts(e.to_bits())
}

fn c(t: f64) -> Celsius {
    Celsius(t.to_bits())
}

fn exp(bits: u64) -> u64 {
    libm::exp(f64::from_bits(bits)).to_bits()
}

fn k_type_at_25() -> KType {
    KType::new(exp(KType::default_exponent()))
}

/// The correct temperature at a 1.1mV thermoelectric voltage, for a
/// reference junction at 25 C
#[test]
fn k_type_1_1m_v() {
    let temperature: Celsius = k_type_at_25().sense_temperature(mv(1.1));
    compare(f64::from_bits(temperature.0), 51.870, 0.05);
}

#[test]
fn b_type_1_1m_v() {
    let temperature: Celsius = BType::new().sense_temperature(mv(1.1));
    compare(f64::from_bits(temperature.0), 470.511, 0.05);
}

#[test]
fn e_type_1_1m_v() {
    let temperature: Celsius = EType::new().sense_temperature(mv(1.1));
    compare(f64::from_bits(temperature.0), 42.808, 0.05);
}

#[test]
fn j_type_1_1m_v() {
    let temperature: Celsius = JType::new().sense_temperature(mv(1.1));
    compare(f64::from_bits(temperature.0), 46.058, 0.05);
}

#[test]
fn n_type_1_1m_v() {
    let temperature: Celsius = NType::new().sense_temperature(mv(1.1));
    compare(f64::from_bits(temperature.0), 64.953, 0.05);
}

#[test]
fn r_type_1_1m_v() {
    let temperature: Celsius = RType::new().sense_temperature(mv(1.1));
    compare(f64::from_bits(temperature.0), 173.779, 0.05);
}

#[test]
fn s_type_1_1m_v() {
    let temperature: Celsius = SType::new().sense_temperature(mv(1.1));
    compare(f64::from_bits(temperature.0), 176.278, 0.05);
}

#[test]
fn t_type_1_1m_v() {
    let temperature: Celsius = TType::new().sense_temperature(mv(1.1));
    compare(f64::from_bits(temperature.0), 51.312, 0.05);
}

#[test]
fn j_type_with_the_reference_at_zero_adds_nothing() {
    let thermocouple = JType::new().with_reference_temperature(c(0.0));
    let temperature: Celsius = thermocouple.sense_temperature(mv(1.1));
    assert_eq!(temperature.0, j_type::t(mv(1.1)).0);
    compare(f64::from_bits(temperature.0), 21.534, 0.001);
}

#[test]
fn the_default_is_a_reference_at_25_degrees() {
    let by_default: Celsius = BType::default().sense_temperature(mv(1.1));
    let by_new: Celsius = BType::new().sense_temperature(mv(1.1));
    let by_hand: Celsius = BType::new().with_reference_temperature(c(25.0)).sense_temperature(mv(1.1));
    assert_eq!(by_default.0, by_new.0);
    assert_eq!(by_hand.0, by_new.0);
    let copy = EType::new();
    let other = copy;
    let a: Celsius = copy.sense_temperature(mv(2.0));
    let b: Celsius = other.clone().sense_temperature(mv(2.0));
    assert_eq!(a.0, b.0);
}

#[test]
fn sensing_is_the_compensation_law() {
    // T(E) of the measured voltage plus E(T) at the reference junction
    let reference = b_type::e(c(25.0)).0;
    let t: Celsius = BType::new().sense_temperature(mv(3.0));
    assert_eq!(t.0, b_type::t(Millivolts(fp_add(3.0_f64.to_bits(), reference))).0);
    let reference = e_type::e(c(40.0)).0;
    let t: Celsius = EType::new().with_reference_temperature(c(40.0)).sense_temperature(mv(3.0));
    assert_eq!(t.0, e_type::t(Millivolts(fp_add(3.0_f64.to_bits(), reference))).0);
    // E(T) at the temperature less E(T) at the reference junction
    let reference = n_type::e(c(25.0)).0;
    let e: Millivolts = NType::new().sense_voltage(c(300.0));
    assert_eq!(e.0, fp_sub(n_type::e(c(300.0)).0, reference));
    let reference = t_type::e(c(-10.0)).0;
    let e: Millivolts = TType::new().with_reference_temperature(c(-10.0)).sense_voltage(c(300.0));
    assert_eq!(e.0, fp_sub(t_type::e(c(300.0)).0, reference));
}

#[test]
fn the_voltage_at_the_reference_temperature_is_zero() {
    let e: Millivolts = RType::new().sense_voltage(c(25.0));
    assert_eq!(f64::from_bits(e.0), 0.0);
    let e: Millivolts = SType::new().with_reference_temperature(c(100.0)).sense_voltage(c(100.0));
    assert_eq!(f64::from_bits(e.0), 0.0);
}

#[test]
fn sensing_in_every_unit() {
    let thermocouple = JType::new();
    let celsius: Celsius = thermocouple.sense_temperature(mv(1.1));
    let kelvin: Kelvin = thermocouple.sense_temperature(mv(1.1));
    let fahrenheit: Fahrenheit = thermocouple.sense_temperature(mv(1.1));
    let rankine: Rankine = thermocouple.sense_temperature(mv(1.1));
    let reaumur: Reaumur = thermocouple.sense_temperature(mv(1.1));
    let t = f64::from_bits(celsius.0);
    assert_eq!(f64::from_bits(kelvin.0), t + 273.15);
    assert_eq!(f64::from_bits(fahrenheit.0), t * 1.8 + 32.0);
    assert_eq!(f64::from_bits(rankine.0), t * 1.8 + 491.67);
    assert_eq!(f64::from_bits(reaumur.0), t * 0.8);
    // and the way back: the voltage at a temperature given in any unit
    let by_celsius: Millivolts = thermocouple.sense_voltage(c(100.0));
    let by_kelvin: Millivolts = thermocouple.sense_voltage(Kelvin(373.15_f64.to_bits()));
    let by_fahrenheit: Millivolts = thermocouple.sense_voltage(Fahrenheit(212.0_f64.to_bits()));
    let by_reaumur: Millivolts = thermocouple.sense_voltage(Reaumur(80.0_f64.to_bits()));
    assert_eq!(by_kelvin.0, by_celsius.0);
    assert_eq!(by_fahrenheit.0, by_celsius.0);
    assert_eq!(by_reaumur.0, by_celsius.0);
    compare(f64::from_bits(by_celsius.0), 5.269 - 1.277, 0.0005);
}

#[test]
fn the_reference_temperature_in_another_unit() {
    let by_celsius = SType::new().with_reference_temperature(c(0.0));
    let by_kelvin = SType::new().with_reference_temperature(Kelvin(273.15_f64.to_bits()));
    let by_fahrenheit = SType::new().with_reference_temperature(Fahrenheit(32.0_f64.to_bits()));
    let a: Celsius = by_celsius.sense_temperature(mv(5.0));
    let b: Celsius = by_kelvin.sense_temperature(mv(5.0));
    let d: Celsius = by_fahrenheit.sense_temperature(mv(5.0));
    assert_eq!(a.0, b.0);
    assert_eq!(a.0, d.0);
    assert_eq!(a.0, s_type::t(mv(5.0)).0);
}

#[test]
fn type_k_takes_its_exponentials_from_the_caller() {
    // a reference junction at 0 C
    let zero = c(0.0);
    let thermocouple = k_type_at_25().with_reference_temperature(zero, exp(KType::exponent(zero)));
    let temperature: Celsius = thermocouple.sense_temperature(mv(2.0));
    assert_eq!(temperature.0, k_type::t(mv(2.0)).0);
    compare(f64::from_bits(temperature.0), 49.45, 0.05);
    // the voltage at 100 C against a reference at 25 C
    let hot = c(100.0);
    let e: Millivolts = k_type_at_25().sense_voltage(hot, exp(KType::exponent(hot)));
    compare(f64::from_bits(e.0), 4.096 - 1.000, 0.0005);
    let in_kelvin = Kelvin(373.15_f64.to_bits());
    let same: Millivolts = k_type_at_25().sense_voltage(in_kelvin, exp(KType::exponent(in_kelvin)));
    assert_eq!(same.0, e.0);
    // the default reference potential is E(25 C)
    let at_rest: Millivolts = k_type_at_25().sense_voltage(c(25.0), exp(KType::default_exponent()));
    assert_eq!(f64::from_bits(at_rest.0), 0.0);
    let kelvin: Kelvin = k_type_at_25().sense_temperature(mv(1.1));
    let celsius: Celsius = k_type_at_25().sense_temperature(mv(1.1));
    assert_eq!(f64::from_bits(kelvin.0), f64::from_bits(celsius.0) + 273.15);
}

#[test]
fn a_strict_thermocouple_tells_what_it_takes() {
    let thermocouple = TType::new();
    // T(E) of type T accepts -5.603 mV to 20.872 mV, and the reference potential
    // at 25 C is 0.992 mV
    assert!(thermocouple.can_sense_temperature(mv(1.1)));
    assert!(thermocouple.can_sense_temperature(mv(19.8)));
    assert!(!thermocouple.can_sense_temperature(mv(19.9)));
    assert!(thermocouple.can_sense_temperature(mv(-6.5)));
    assert!(!thermocouple.can_sense_temperature(mv(-6.7)));
    assert!(!thermocouple.can_sense_temperature(mv(f64::NAN)));
    // E(T) of type T is published from -270 C to 400 C
    assert!(thermocouple.can_sense_voltage(c(400.0)));
    assert!(!thermocouple.can_sense_voltage(c(400.5)));
    assert!(thermocouple.can_sense_voltage(Kelvin(3.5_f64.to_bits())));
    assert!(!thermocouple.can_sense_voltage(Kelvin(3.0_f64.to_bits())));
    let k = k_type_at_25();
    assert!(k.can_sense_temperature(mv(53.0)));
    assert!(!k.can_sense_temperature(mv(54.0)));
    assert!(k.can_sense_voltage(c(1372.0)));
    assert!(!k.can_sense_voltage(c(1372.5)));
}

#[test]
fn an_extrapolating_thermocouple_takes_everything() {
    let strict = TType::new();
    let loose: Thermocouple<TypeT, Extrapolate> = Thermocouple::new();
    assert!(loose.can_sense_temperature(mv(19.9)));
    assert!(loose.can_sense_temperature(mv(1.0e6)));
    assert!(loose.can_sense_voltage(c(1000.0)));
    // inside the range both give the same
    let a: Celsius = strict.sense_temperature(mv(1.1));
    let b: Celsius = loose.sense_temperature(mv(1.1));
    assert_eq!(a.0, b.0);
    // outside, the nearest stretch is continued
    let reference = t_type::e(c(25.0)).0;
    let far: Celsius = loose.sense_temperature(mv(25.0));
    let voltage = Millivolts(fp_add(25.0_f64.to_bits(), reference));
    assert_eq!(far.0, t_type::t_extrapolated(voltage).0);
    let e: Millivolts = loose.sense_voltage(c(500.0));
    assert_eq!(e.0, fp_sub(t_type::e_extrapolated(c(500.0)).0, reference));
    let moved = loose.with_reference_temperature(c(-300.0));
    let e: Millivolts = moved.sense_voltage(c(-300.0));
    assert_eq!(f64::from_bits(e.0), 0.0);
    let k: KThermocouple<Extrapolate> = KThermocouple::new(exp(KType::default_exponent()));
    assert!(k.can_sense_temperature(mv(60.0)));
    let t: Celsius = k.sense_temperature(mv(60.0));
    let voltage = Millivolts(fp_add(60.0_f64.to_bits(), k_type::e(c(25.0), exp(KType::default_exponent())).0));
    assert_eq!(t.0, k_type::t_extrapolated(voltage).0);
}
