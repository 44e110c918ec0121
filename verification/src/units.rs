//! Units for thermocouple operations.
//!
//! Each unit wraps one binary64 value. Values of one unit add and subtract;
//! to combine two units, one is converted first. Every temperature unit
//! converts to and from degrees Celsius.
use crate::arith::{
    div_spec, equal_spec, fp_add, fp_div, fp_eq, fp_mul, fp_sub, mul_spec, sub_spec,
};
use crate::binary64::FP;
use crate::display::{fixed, push_fixed};
use crate::order::{fp_partial_order, partial_order};
use std::cmp::Ordering;
use std::ops::{Add, Sub};
use vstd::prelude::*;
use vstd::std_specs::cmp::{PartialEqSpecImpl, PartialOrdSpecImpl};
use vstd::std_specs::convert::FromSpecImpl;
use vstd::std_specs::ops::{AddSpecImpl, SubSpecImpl};

verus! {

/// 273.15: kelvins at 0 C.
pub const KELVIN_OFFSET: FP = 0x4071_1266_6666_6666;

/// 32: degrees Fahrenheit at 0 C.
pub const FAHRENHEIT_OFFSET: FP = 0x4040_0000_0000_0000;

/// 491.67: degrees Rankine at 0 C.
pub const RANKINE_OFFSET: FP = 0x407E_BAB8_51EB_851F;

/// 1.8: degrees Fahrenheit, or Rankine, to one degree Celsius.
pub const FAHRENHEIT_PER_CELSIUS: FP = 0x3FFC_CCCC_CCCC_CCCD;

/// 0.8: degrees Reaumur to one degree Celsius.
pub const REAUMUR_PER_CELSIUS: FP = 0x3FE9_9999_9999_999A;

/// 1.25: degrees Celsius to one degree Reaumur.
pub const CELSIUS_PER_REAUMUR: FP = 0x3FF4_0000_0000_0000;

/// Unit of electric potential, 1/1000 of the SI base unit volt.
#[derive(Clone, Copy, Debug)]
pub struct Millivolts(pub FP);

/// Unit of thermodynamic temperature, the fraction 1/273.16 of the
/// thermodynamic temperature of the triple point of water.
#[derive(Clone, Copy, Debug)]
pub struct Kelvin(pub FP);

/// Unit of thermodynamic temperature: degrees Celsius.
#[derive(Clone, Copy, Debug)]
pub struct Celsius(pub FP);

/// Unit of thermodynamic temperature: degrees Fahrenheit.
#[derive(Clone, Copy, Debug)]
pub struct Fahrenheit(pub FP);

/// Unit of thermodynamic temperature: degrees Rankine.
#[derive(Clone, Copy, Debug)]
pub struct Rankine(pub FP);

/// Unit of thermodynamic temperature: degrees Reaumur.
#[derive(Clone, Copy, Debug)]
pub struct Reaumur(pub FP);

impl Millivolts {
    /// This voltage in decimal notation: three digits after the point, then `mV`.
    pub open spec fn text(self) -> Seq<char> {
        fixed(self.0, 3) + seq!['m', 'V']
    }

    /// This voltage in decimal notation.
    pub fn to_string(&self) -> (s: String)
        ensures
            s@ == self.text(),
    {
        let mut s: String = String::new();
        push_fixed(&mut s, self.0, 3);
        s.push('m');
        s.push('V');
        s
    }
}

impl Kelvin {
    /// This temperature in decimal notation: two digits after the point, then `K`.
    pub open spec fn text(self) -> Seq<char> {
        fixed(self.0, 2) + seq!['K']
    }

    /// This temperature in decimal notation.
    pub fn to_string(&self) -> (s: String)
        ensures
            s@ == self.text(),
    {
        let mut s: String = String::new();
        push_fixed(&mut s, self.0, 2);
        s.push('K');
        s
    }
}

impl Celsius {
    /// This temperature in decimal notation: one digit after the point, then the sign U+00BA and `C`.
    pub open spec fn text(self) -> Seq<char> {
        fixed(self.0, 1) + seq!['\u{ba}', 'C']
    }

    /// This temperature in decimal notation.
    pub fn to_string(&self) -> (s: String)
        ensures
            s@ == self.text(),
    {
        let mut s: String = String::new();
        push_fixed(&mut s, self.0, 1);
        s.push('\u{ba}');
        s.push('C');
        s
    }
}

impl Fahrenheit {
    /// This temperature in decimal notation: one digit after the point, then the sign U+00BA and `F`.
    pub open spec fn text(self) -> Seq<char> {
        fixed(self.0, 1) + seq!['\u{ba}', 'F']
    }

    /// This temperature in decimal notation.
    pub fn to_string(&self) -> (s: String)
        ensures
            s@ == self.text(),
    {
        let mut s: String = String::new();
        push_fixed(&mut s, self.0, 1);
        s.push('\u{ba}');
        s.push('F');
        s
    }
}

impl Rankine {
    /// This temperature in decimal notation: one digit after the point, then the sign U+00BA and `Ra`.
    pub open spec fn text(self) -> Seq<char> {
        fixed(self.0, 1) + seq!['\u{ba}', 'R', 'a']
    }

    /// This temperature in decimal notation.
    pub fn to_string(&self) -> (s: String)
        ensures
            s@ == self.text(),
    {
        let mut s: String = String::new();
        push_fixed(&mut s, self.0, 1);
        s.push('\u{ba}');
        s.push('R');
        s.push('a');
        s
    }
}

impl Reaumur {
    /// This temperature in decimal notation: one digit after the point, then the
    /// sign U+00BA, `R` and the letter U+00E9.
    pub open spec fn text(self) -> Seq<char> {
        fixed(self.0, 1) + seq!['\u{ba}', 'R', '\u{e9}']
    }

    /// This temperature in decimal notation.
    pub fn to_string(&self) -> (s: String)
        ensures
            s@ == self.text(),
    {
        let mut s: String = String::new();
        push_fixed(&mut s, self.0, 1);
        s.push('\u{ba}');
        s.push('R');
        s.push('\u{e9}');
        s
    }
}

impl Add for Millivolts {
    type Output = Millivolts;

    fn add(self, rhs: Millivolts) -> (r: Millivolts) {
        Millivolts(fp_add(self.0, rhs.0))
    }
}

impl AddSpecImpl for Millivolts {
    open spec fn obeys_add_spec() -> bool {
        true
    }

    open spec fn add_req(self, rhs: Millivolts) -> bool {
        true
    }

    open spec fn add_spec(self, rhs: Millivolts) -> Millivolts {
        Millivolts(crate::arith::add_spec(self.0, rhs.0))
    }
}

impl Sub for Millivolts {
    type Output = Millivolts;

    fn sub(self, rhs: Millivolts) -> (r: Millivolts) {
        Millivolts(fp_sub(self.0, rhs.0))
    }
}

impl SubSpecImpl for Millivolts {
    open spec fn obeys_sub_spec() -> bool {
        true
    }

    open spec fn sub_req(self, rhs: Millivolts) -> bool {
        true
    }

    open spec fn sub_spec(self, rhs: Millivolts) -> Millivolts {
        Millivolts(crate::arith::sub_spec(self.0, rhs.0))
    }
}

impl PartialEq for Millivolts {
    fn eq(&self, other: &Millivolts) -> (r: bool) {
        fp_eq(self.0, other.0)
    }
}

impl PartialEqSpecImpl for Millivolts {
    open spec fn obeys_eq_spec() -> bool {
        true
    }

    open spec fn eq_spec(&self, other: &Millivolts) -> bool {
        equal_spec(self.0, other.0)
    }
}

impl PartialOrd for Millivolts {
    fn partial_cmp(&self, other: &Millivolts) -> (r: Option<Ordering>) {
        fp_partial_order(self.0, other.0)
    }
}

impl PartialOrdSpecImpl for Millivolts {
    open spec fn obeys_partial_cmp_spec() -> bool {
        true
    }

    open spec fn partial_cmp_spec(&self, other: &Millivolts) -> Option<Ordering> {
        partial_order(self.0, other.0)
    }
}

impl Add for Kelvin {
    type Output = Kelvin;

    fn add(self, rhs: Kelvin) -> (r: Kelvin) {
        Kelvin(fp_add(self.0, rhs.0))
    }
}

impl AddSpecImpl for Kelvin {
    open spec fn obeys_add_spec() -> bool {
        true
    }

    open spec fn add_req(self, rhs: Kelvin) -> bool {
        true
    }

    open spec fn add_spec(self, rhs: Kelvin) -> Kelvin {
        Kelvin(crate::arith::add_spec(self.0, rhs.0))
    }
}

impl Sub for Kelvin {
    type Output = Kelvin;

    fn sub(self, rhs: Kelvin) -> (r: Kelvin) {
        Kelvin(fp_sub(self.0, rhs.0))
    }
}

impl SubSpecImpl for Kelvin {
    open spec fn obeys_sub_spec() -> bool {
        true
    }

    open spec fn sub_req(self, rhs: Kelvin) -> bool {
        true
    }

    open spec fn sub_spec(self, rhs: Kelvin) -> Kelvin {
        Kelvin(crate::arith::sub_spec(self.0, rhs.0))
    }
}

impl PartialEq for Kelvin {
    fn eq(&self, other: &Kelvin) -> (r: bool) {
        fp_eq(self.0, other.0)
    }
}

impl PartialEqSpecImpl for Kelvin {
    open spec fn obeys_eq_spec() -> bool {
        true
    }

    open spec fn eq_spec(&self, other: &Kelvin) -> bool {
        equal_spec(self.0, other.0)
    }
}

impl PartialOrd for Kelvin {
    fn partial_cmp(&self, other: &Kelvin) -> (r: Option<Ordering>) {
        fp_partial_order(self.0, other.0)
    }
}

impl PartialOrdSpecImpl for Kelvin {
    open spec fn obeys_partial_cmp_spec() -> bool {
        true
    }

    open spec fn partial_cmp_spec(&self, other: &Kelvin) -> Option<Ordering> {
        partial_order(self.0, other.0)
    }
}

impl Add for Celsius {
    type Output = Celsius;

    fn add(self, rhs: Celsius) -> (r: Celsius) {
        Celsius(fp_add(self.0, rhs.0))
    }
}

impl AddSpecImpl for Celsius {
    open spec fn obeys_add_spec() -> bool {
        true
    }

    open spec fn add_req(self, rhs: Celsius) -> bool {
        true
    }

    open spec fn add_spec(self, rhs: Celsius) -> Celsius {
        Celsius(crate::arith::add_spec(self.0, rhs.0))
    }
}

impl Sub for Celsius {
    type Output = Celsius;

    fn sub(self, rhs: Celsius) -> (r: Celsius) {
        Celsius(fp_sub(self.0, rhs.0))
    }
}

impl SubSpecImpl for Celsius {
    open spec fn obeys_sub_spec() -> bool {
        true
    }

    open spec fn sub_req(self, rhs: Celsius) -> bool {
        true
    }

    open spec fn sub_spec(self, rhs: Celsius) -> Celsius {
        Celsius(crate::arith::sub_spec(self.0, rhs.0))
    }
}

impl PartialEq for Celsius {
    fn eq(&self, other: &Celsius) -> (r: bool) {
        fp_eq(self.0, other.0)
    }
}

impl PartialEqSpecImpl for Celsius {
    open spec fn obeys_eq_spec() -> bool {
        true
    }

    open spec fn eq_spec(&self, other: &Celsius) -> bool {
        equal_spec(self.0, other.0)
    }
}

impl PartialOrd for Celsius {
    fn partial_cmp(&self, other: &Celsius) -> (r: Option<Ordering>) {
        fp_partial_order(self.0, other.0)
    }
}

impl PartialOrdSpecImpl for Celsius {
    open spec fn obeys_partial_cmp_spec() -> bool {
        true
    }

    open spec fn partial_cmp_spec(&self, other: &Celsius) -> Option<Ordering> {
        partial_order(self.0, other.0)
    }
}

impl Add for Fahrenheit {
    type Output = Fahrenheit;

    fn add(self, rhs: Fahrenheit) -> (r: Fahrenheit) {
        Fahrenheit(fp_add(self.0, rhs.0))
    }
}

impl AddSpecImpl for Fahrenheit {
    open spec fn obeys_add_spec() -> bool {
        true
    }

    open spec fn add_req(self, rhs: Fahrenheit) -> bool {
        true
    }

    open spec fn add_spec(self, rhs: Fahrenheit) -> Fahrenheit {
        Fahrenheit(crate::arith::add_spec(self.0, rhs.0))
    }
}

impl Sub for Fahrenheit {
    type Output = Fahrenheit;

    fn sub(self, rhs: Fahrenheit) -> (r: Fahrenheit) {
        Fahrenheit(fp_sub(self.0, rhs.0))
    }
}

impl SubSpecImpl for Fahrenheit {
    open spec fn obeys_sub_spec() -> bool {
        true
    }

    open spec fn sub_req(self, rhs: Fahrenheit) -> bool {
        true
    }

    open spec fn sub_spec(self, rhs: Fahrenheit) -> Fahrenheit {
        Fahrenheit(crate::arith::sub_spec(self.0, rhs.0))
    }
}

impl PartialEq for Fahrenheit {
    fn eq(&self, other: &Fahrenheit) -> (r: bool) {
        fp_eq(self.0, other.0)
    }
}

impl PartialEqSpecImpl for Fahrenheit {
    open spec fn obeys_eq_spec() -> bool {
        true
    }

    open spec fn eq_spec(&self, other: &Fahrenheit) -> bool {
        equal_spec(self.0, other.0)
    }
}

impl PartialOrd for Fahrenheit {
    fn partial_cmp(&self, other: &Fahrenheit) -> (r: Option<Ordering>) {
        fp_partial_order(self.0, other.0)
    }
}

impl PartialOrdSpecImpl for Fahrenheit {
    open spec fn obeys_partial_cmp_spec() -> bool {
        true
    }

    open spec fn partial_cmp_spec(&self, other: &Fahrenheit) -> Option<Ordering> {
        partial_order(self.0, other.0)
    }
}

impl Add for Rankine {
    type Output = Rankine;

    fn add(self, rhs: Rankine) -> (r: Rankine) {
        Rankine(fp_add(self.0, rhs.0))
    }
}

impl AddSpecImpl for Rankine {
    open spec fn obeys_add_spec() -> bool {
        true
    }

    open spec fn add_req(self, rhs: Rankine) -> bool {
        true
    }

    open spec fn add_spec(self, rhs: Rankine) -> Rankine {
        Rankine(crate::arith::add_spec(self.0, rhs.0))
    }
}

impl Sub for Rankine {
    type Output = Rankine;

    fn sub(self, rhs: Rankine) -> (r: Rankine) {
        Rankine(fp_sub(self.0, rhs.0))
    }
}

impl SubSpecImpl for Rankine {
    open spec fn obeys_sub_spec() -> bool {
        true
    }

    open spec fn sub_req(self, rhs: Rankine) -> bool {
        true
    }

    open spec fn sub_spec(self, rhs: Rankine) -> Rankine {
        Rankine(crate::arith::sub_spec(self.0, rhs.0))
    }
}

impl PartialEq for Rankine {
    fn eq(&self, other: &Rankine) -> (r: bool) {
        fp_eq(self.0, other.0)
    }
}

impl PartialEqSpecImpl for Rankine {
    open spec fn obeys_eq_spec() -> bool {
        true
    }

    open spec fn eq_spec(&self, other: &Rankine) -> bool {
        equal_spec(self.0, other.0)
    }
}

impl PartialOrd for Rankine {
    fn partial_cmp(&self, other: &Rankine) -> (r: Option<Ordering>) {
        fp_partial_order(self.0, other.0)
    }
}

impl PartialOrdSpecImpl for Rankine {
    open spec fn obeys_partial_cmp_spec() -> bool {
        true
    }

    open spec fn partial_cmp_spec(&self, other: &Rankine) -> Option<Ordering> {
        partial_order(self.0, other.0)
    }
}

impl Add for Reaumur {
    type Output = Reaumur;

    fn add(self, rhs: Reaumur) -> (r: Reaumur) {
        Reaumur(fp_add(self.0, rhs.0))
    }
}

impl AddSpecImpl for Reaumur {
    open spec fn obeys_add_spec() -> bool {
        true
    }

    open spec fn add_req(self, rhs: Reaumur) -> bool {
        true
    }

    open spec fn add_spec(self, rhs: Reaumur) -> Reaumur {
        Reaumur(crate::arith::add_spec(self.0, rhs.0))
    }
}

impl Sub for Reaumur {
    type Output = Reaumur;

    fn sub(self, rhs: Reaumur) -> (r: Reaumur) {
        Reaumur(fp_sub(self.0, rhs.0))
    }
}

impl SubSpecImpl for Reaumur {
    open spec fn obeys_sub_spec() -> bool {
        true
    }

    open spec fn sub_req(self, rhs: Reaumur) -> bool {
        true
    }

    open spec fn sub_spec(self, rhs: Reaumur) -> Reaumur {
        Reaumur(crate::arith::sub_spec(self.0, rhs.0))
    }
}

impl PartialEq for Reaumur {
    fn eq(&self, other: &Reaumur) -> (r: bool) {
        fp_eq(self.0, other.0)
    }
}

impl PartialEqSpecImpl for Reaumur {
    open spec fn obeys_eq_spec() -> bool {
        true
    }

    open spec fn eq_spec(&self, other: &Reaumur) -> bool {
        equal_spec(self.0, other.0)
    }
}

impl PartialOrd for Reaumur {
    fn partial_cmp(&self, other: &Reaumur) -> (r: Option<Ordering>) {
        fp_partial_order(self.0, other.0)
    }
}

impl PartialOrdSpecImpl for Reaumur {
    open spec fn obeys_partial_cmp_spec() -> bool {
        true
    }

    open spec fn partial_cmp_spec(&self, other: &Reaumur) -> Option<Ordering> {
        partial_order(self.0, other.0)
    }
}

/// Convenience methods that turn a bare value into a value of a unit.
pub trait FPExt {
    /// This value as millivolts.
    fn millivolts(self) -> Millivolts;

    /// This value as kelvins.
    fn kelvin(self) -> Kelvin;

    /// This value as degrees Celsius.
    fn celsius(self) -> Celsius;

    /// This value as degrees Fahrenheit.
    fn fahrenheit(self) -> Fahrenheit;

    /// This value as degrees Rankine.
    fn rankine(self) -> Rankine;

    /// This value as degrees Reaumur.
    fn reaumur(self) -> Reaumur;
}

impl FPExt for FP {
    fn millivolts(self) -> (r: Millivolts)
        ensures
            r == Millivolts(self),
    {
        Millivolts(self)
    }

    fn kelvin(self) -> (r: Kelvin)
        ensures
            r == Kelvin(self),
    {
        Kelvin(self)
    }

    fn celsius(self) -> (r: Celsius)
        ensures
            r == Celsius(self),
    {
        Celsius(self)
    }

    fn fahrenheit(self) -> (r: Fahrenheit)
        ensures
            r == Fahrenheit(self),
    {
        Fahrenheit(self)
    }

    fn rankine(self) -> (r: Rankine)
        ensures
            r == Rankine(self),
    {
        Rankine(self)
    }

    fn reaumur(self) -> (r: Reaumur)
        ensures
            r == Reaumur(self),
    {
        Reaumur(self)
    }
}

/// `t - 273.15`, each operation rounded.
pub open spec fn celsius_of_kelvin(t: Kelvin) -> Celsius {
    Celsius(sub_spec(t.0, KELVIN_OFFSET))
}

/// `(t - 32) / 1.8`, each operation rounded.
pub open spec fn celsius_of_fahrenheit(t: Fahrenheit) -> Celsius {
    Celsius(div_spec(sub_spec(t.0, FAHRENHEIT_OFFSET), FAHRENHEIT_PER_CELSIUS))
}

/// `(t - 491.67) / 1.8`, each operation rounded.
pub open spec fn celsius_of_rankine(t: Rankine) -> Celsius {
    Celsius(div_spec(sub_spec(t.0, RANKINE_OFFSET), FAHRENHEIT_PER_CELSIUS))
}

/// `t * 1.25`, each operation rounded.
pub open spec fn celsius_of_reaumur(t: Reaumur) -> Celsius {
    Celsius(mul_spec(t.0, CELSIUS_PER_REAUMUR))
}

/// `t + 273.15`, each operation rounded.
pub open spec fn kelvin_of_celsius(t: Celsius) -> Kelvin {
    Kelvin(crate::arith::add_spec(t.0, KELVIN_OFFSET))
}

/// `t * 1.8 + 32`, each operation rounded.
pub open spec fn fahrenheit_of_celsius(t: Celsius) -> Fahrenheit {
    Fahrenheit(crate::arith::add_spec(mul_spec(t.0, FAHRENHEIT_PER_CELSIUS), FAHRENHEIT_OFFSET))
}

/// `t * 1.8 + 491.67`, each operation rounded.
pub open spec fn rankine_of_celsius(t: Celsius) -> Rankine {
    Rankine(crate::arith::add_spec(mul_spec(t.0, FAHRENHEIT_PER_CELSIUS), RANKINE_OFFSET))
}

/// `t * 0.8`, each operation rounded.
pub open spec fn reaumur_of_celsius(t: Celsius) -> Reaumur {
    Reaumur(mul_spec(t.0, REAUMUR_PER_CELSIUS))
}

impl From<Kelvin> for Celsius {
    fn from(t: Kelvin) -> (r: Celsius) {
        Celsius(fp_sub(t.0, KELVIN_OFFSET))
    }
}

impl FromSpecImpl<Kelvin> for Celsius {
    open spec fn obeys_from_spec() -> bool {
        true
    }

    open spec fn from_spec(t: Kelvin) -> Celsius {
        celsius_of_kelvin(t)
    }
}

impl From<Fahrenheit> for Celsius {
    fn from(t: Fahrenheit) -> (r: Celsius) {
        Celsius(fp_div(fp_sub(t.0, FAHRENHEIT_OFFSET), FAHRENHEIT_PER_CELSIUS))
    }
}

impl FromSpecImpl<Fahrenheit> for Celsius {
    open spec fn obeys_from_spec() -> bool {
        true
    }

    open spec fn from_spec(t: Fahrenheit) -> Celsius {
        celsius_of_fahrenheit(t)
    }
}

impl From<Rankine> for Celsius {
    fn from(t: Rankine) -> (r: Celsius) {
        Celsius(fp_div(fp_sub(t.0, RANKINE_OFFSET), FAHRENHEIT_PER_CELSIUS))
    }
}

impl FromSpecImpl<Rankine> for Celsius {
    open spec fn obeys_from_spec() -> bool {
        true
    }

    open spec fn from_spec(t: Rankine) -> Celsius {
        celsius_of_rankine(t)
    }
}

impl From<Reaumur> for Celsius {
    fn from(t: Reaumur) -> (r: Celsius) {
        Celsius(fp_mul(t.0, CELSIUS_PER_REAUMUR))
    }
}

impl FromSpecImpl<Reaumur> for Celsius {
    open spec fn obeys_from_spec() -> bool {
        true
    }

    open spec fn from_spec(t: Reaumur) -> Celsius {
        celsius_of_reaumur(t)
    }
}

impl From<Celsius> for Kelvin {
    fn from(t: Celsius) -> (r: Kelvin) {
        Kelvin(fp_add(t.0, KELVIN_OFFSET))
    }
}

impl FromSpecImpl<Celsius> for Kelvin {
    open spec fn obeys_from_spec() -> bool {
        true
    }

    open spec fn from_spec(t: Celsius) -> Kelvin {
        kelvin_of_celsius(t)
    }
}

impl From<Celsius> for Fahrenheit {
    fn from(t: Celsius) -> (r: Fahrenheit) {
        Fahrenheit(fp_add(fp_mul(t.0, FAHRENHEIT_PER_CELSIUS), FAHRENHEIT_OFFSET))
    }
}

impl FromSpecImpl<Celsius> for Fahrenheit {
    open spec fn obeys_from_spec() -> bool {
        true
    }

    open spec fn from_spec(t: Celsius) -> Fahrenheit {
        fahrenheit_of_celsius(t)
    }
}

impl From<Celsius> for Rankine {
    fn from(t: Celsius) -> (r: Rankine) {
        Rankine(fp_add(fp_mul(t.0, FAHRENHEIT_PER_CELSIUS), RANKINE_OFFSET))
    }
}

impl FromSpecImpl<Celsius> for Rankine {
    open spec fn obeys_from_spec() -> bool {
        true
    }

    open spec fn from_spec(t: Celsius) -> Rankine {
        rankine_of_celsius(t)
    }
}

impl From<Celsius> for Reaumur {
    fn from(t: Celsius) -> (r: Reaumur) {
        Reaumur(fp_mul(t.0, REAUMUR_PER_CELSIUS))
    }
}

impl FromSpecImpl<Celsius> for Reaumur {
    open spec fn obeys_from_spec() -> bool {
        true
    }

    open spec fn from_spec(t: Celsius) -> Reaumur {
        reaumur_of_celsius(t)
    }
}

/// A unit of temperature: a scale that converts to and from degrees Celsius.
pub trait Temperature: Sized {
    /// This temperature in degrees Celsius.
    spec fn celsius(self) -> Celsius;

    /// The temperature of this unit that stands for `t`.
    spec fn of_celsius(t: Celsius) -> Self;

    /// Converts this temperature to degrees Celsius.
    fn to_celsius(self) -> (r: Celsius)
        ensures
            r == self.celsius(),
    ;

    /// Converts `t` to this unit.
    fn from_celsius(t: Celsius) -> (r: Self)
        ensures
            r == Self::of_celsius(t),
    ;
}

impl Temperature for Celsius {
    open spec fn celsius(self) -> Celsius {
        self
    }

    open spec fn of_celsius(t: Celsius) -> Celsius {
        t
    }

    fn to_celsius(self) -> (r: Celsius) {
        self
    }

    fn from_celsius(t: Celsius) -> (r: Celsius) {
        t
    }
}

impl Temperature for Kelvin {
    open spec fn celsius(self) -> Celsius {
        celsius_of_kelvin(self)
    }

    open spec fn of_celsius(t: Celsius) -> Kelvin {
        kelvin_of_celsius(t)
    }

    fn to_celsius(self) -> (r: Celsius) {
        Celsius::from(self)
    }

    fn from_celsius(t: Celsius) -> (r: Kelvin) {
        Kelvin::from(t)
    }
}

impl Temperature for Fahrenheit {
    open spec fn celsius(self) -> Celsius {
        celsius_of_fahrenheit(self)
    }

    open spec fn of_celsius(t: Celsius) -> Fahrenheit {
        fahrenheit_of_celsius(t)
    }

    fn to_celsius(self) -> (r: Celsius) {
        Celsius::from(self)
    }

    fn from_celsius(t: Celsius) -> (r: Fahrenheit) {
        Fahrenheit::from(t)
    }
}

impl Temperature for Rankine {
    open spec fn celsius(self) -> Celsius {
        celsius_of_rankine(self)
    }

    open spec fn of_celsius(t: Celsius) -> Rankine {
        rankine_of_celsius(t)
    }

    fn to_celsius(self) -> (r: Celsius) {
        Celsius::from(self)
    }

    fn from_celsius(t: Celsius) -> (r: Rankine) {
        Rankine::from(t)
    }
}

impl Temperature for Reaumur {
    open spec fn celsius(self) -> Celsius {
        celsius_of_reaumur(self)
    }

    open spec fn of_celsius(t: Celsius) -> Reaumur {
        reaumur_of_celsius(t)
    }

    fn to_celsius(self) -> (r: Celsius) {
        Celsius::from(self)
    }

    fn from_celsius(t: Celsius) -> (r: Reaumur) {
        Reaumur::from(t)
    }
}

} // verus!
