//! The decimal notation of the units against the formatting of the standard
//! library.
use thermocouple::display::push_fixed;
use thermocouple::{Celsius, Fahrenheit, Kelvin, Millivolts, Rankine, Reaumur};

fn fixed(x: f64, places: u32) -> String {
    let mut s = String::new();
    push_fixed(&mut s, x.to_bits(), places);
    s
}

struct Words {
    state: u64,
}

impl Words {
    fn word(&mut self) -> u64 {
        self.state ^= self.state << 13;
        self.state ^= self.state >> 7;
        self.state ^= self.state << 17;
        self.state
    }
}

#[test]
fn the_units_print_as_their_formats_say() {
    assert_eq!(Millivolts(1.1_f64.to_bits()).to_string(), "1.100mV");
    assert_eq!(Millivolts((-5.8914_f64).to_bits()).to_string(), "-5.891mV");
    assert_eq!(Kelvin(298.15_f64.to_bits()).to_string(), "298.15K");
    assert_eq!(Celsius(51.87_f64.to_bits()).to_string(), "51.9ºC");
    assert_eq!(Fahrenheit(212.0_f64.to_bits()).to_string(), "212.0ºF");
    assert_eq!(Rankine(491.67_f64.to_bits()).to_string(), "491.7ºRa");
    assert_eq!(Reaumur(80.0_f64.to_bits()).to_string(), "80.0ºRé");
    assert_eq!(Celsius(0.0_f64.to_bits()).to_string(), "0.0ºC");
}

#[test]
fn the_units_print_as_the_standard_library_would() {
    let mut p = Words { state: 0x6A09_E667_F3BC_C908 };
    for _ in 0..20_000 {
        let x = ((p.word() >> 11) as f64 / (1u64 << 53) as f64 - 0.5) * 4000.0;
        assert_eq!(Millivolts(x.to_bits()).to_string(), format!("{:.3}mV", x));
        assert_eq!(Kelvin(x.to_bits()).to_string(), format!("{:.2}K", x));
        assert_eq!(Celsius(x.to_bits()).to_string(), format!("{:.1}ºC", x));
        assert_eq!(Fahrenheit(x.to_bits()).to_string(), format!("{:.1}ºF", x));
        assert_eq!(Rankine(x.to_bits()).to_string(), format!("{:.1}ºRa", x));
        assert_eq!(Reaumur(x.to_bits()).to_string(), format!("{:.1}ºRé", x));
    }
}

#[test]
fn every_finite_value_prints_as_the_standard_library_would() {
    let mut p = Words { state: 0xBB67_AE85_84CA_A73B };
    for i in 0..3_000 {
        let bits = if i % 3 == 0 {
            p.word()
        } else {
            // around one, where the digits after the point matter
            (p.word() & 0x800F_FFFF_FFFF_FFFF) | ((1000 + p.word() % 60) << 52)
        };
        let x = f64::from_bits(bits);
        if x.is_nan() {
            continue;
        }
        assert_eq!(fixed(x, 1), format!("{:.1}", x), "{:#018x}", bits);
        assert_eq!(fixed(x, 2), format!("{:.2}", x), "{:#018x}", bits);
        assert_eq!(fixed(x, 3), format!("{:.3}", x), "{:#018x}", bits);
        assert_eq!(fixed(x, 18), format!("{:.18}", x), "{:#018x}", bits);
    }
}

#[test]
fn a_tie_prints_with_an_even_last_digit() {
    assert_eq!(fixed(0.25, 1), "0.2");
    assert_eq!(fixed(0.75, 1), "0.8");
    assert_eq!(fixed(0.125, 2), "0.12");
    assert_eq!(fixed(0.375, 2), "0.38");
    assert_eq!(fixed(0.0625, 3), "0.062");
    assert_eq!(fixed(-2.5, 1), "-2.5");
    assert_eq!(fixed(9.96, 1), "10.0");
    assert_eq!(fixed(0.9996, 3), "1.000");
    for x in [0.25_f64, 0.75, 0.125, 0.375, 0.0625, 0.1875, 1234.5625, 99.95, 0.05] {
        assert_eq!(fixed(x, 1), format!("{:.1}", x));
        assert_eq!(fixed(x, 2), format!("{:.2}", x));
        assert_eq!(fixed(x, 3), format!("{:.3}", x));
    }
}

#[test]
fn the_ends_of_the_range_print_too() {
    assert_eq!(fixed(f64::NAN, 3), "NaN");
    assert_eq!(fixed(f64::INFINITY, 3), "inf");
    assert_eq!(fixed(f64::NEG_INFINITY, 3), "-inf");
    assert_eq!(fixed(0.0, 3), "0.000");
    assert_eq!(fixed(-0.0, 3), format!("{:.3}", -0.0_f64));
    assert_eq!(fixed(-0.0001, 3), format!("{:.3}", -0.0001_f64));
    assert_eq!(fixed(f64::from_bits(1), 3), "0.000");
    assert_eq!(fixed(f64::MIN_POSITIVE, 18), "0.000000000000000000");
    assert_eq!(fixed(f64::MAX, 1), format!("{:.1}", f64::MAX));
    assert_eq!(fixed(f64::MIN, 2), format!("{:.2}", f64::MIN));
    assert_eq!(fixed(1.0e300, 3), format!("{:.3}", 1.0e300_f64));
    assert_eq!(fixed(4503599627370496.0, 1), "4503599627370496.0");
    assert_eq!(fixed(4503599627370495.5, 1), "4503599627370495.5");
    assert_eq!(fixed(9007199254740993.0, 3), format!("{:.3}", 9007199254740993.0_f64));
    assert_eq!(fixed(1.0e22, 1), "10000000000000000000000.0");
}
