//! Thermocouple routines.
//!
//! Converts between the thermoelectric voltage of a thermocouple and its
//! temperature, by the ITS-90 reference functions of the National Institute of
//! Standards and Technology, for these thermocouple types:
//!
//! * Nickel-alloy thermocouples: Type E, J, K, N, T
//! * Platinum/rhodium-alloy thermocouples: Type B, R, S
//!
//! All values are double-precision numbers, held as their IEEE 754 binary64
//! bit patterns ([`FP`]) and computed in integer arithmetic: every sum,
//! difference, product and quotient is the correctly rounded one.
//!
//! The unit types keep a voltage apart from a temperature, and one
//! temperature scale from another.
//!
//! A thermocouple ([`BType`], [`EType`], ...) knows the voltage that its
//! type gives at the temperature of its reference junction. It senses a
//! temperature by adding that voltage to the measured one and taking T(E)
//! of the sum, and a voltage by taking E(T) and subtracting it. Its policy
//! says what it does with a value outside the published ranges: [`Strict`]
//! leaves such a value out by precondition, [`Extrapolate`] takes it.
//!
//! The modules:
//!
//! * [`binary64`], [`rounding`], [`arith`], [`order`]: the numbers and their
//!   arithmetic
//! * [`value`]: what the encodings stand for, and the error of a rounding
//! * [`polyval`]: Horner's method
//! * [`b_type`], [`e_type`], [`j_type`], [`k_type`], [`n_type`], [`r_type`],
//!   [`s_type`], [`t_type`]: the tables and reference functions of each type
//! * [`units`], [`display`], [`round_trip`]: the units, their decimal
//!   notation, and the way from degrees Celsius to another unit and back
use crate::arith::{add_spec, sub_spec};
use crate::binary64::{is_finite, is_nan, SIGN_BIT};
use crate::value::{lemma_add_zero, lemma_sub_self};
use std::marker::PhantomData;
use vstd::prelude::*;

pub mod arith;
pub mod b_type;
pub mod binary64;
pub mod display;
pub mod e_type;
pub mod j_type;
pub mod k_type;
pub mod n_type;
pub mod order;
pub mod polyval;
pub mod r_type;
pub mod round_trip;
pub mod rounding;
pub mod s_type;
pub mod t_type;
pub mod units;
pub mod value;

pub use crate::binary64::FP;
pub use crate::units::{
    Celsius, FPExt, Fahrenheit, Kelvin, Millivolts, Rankine, Reaumur, Temperature,
};

verus! {

/// 25: the temperature in degrees Celsius at which the reference junction is
/// taken to be, unless another is given.
pub const DEFAULT_REFERENCE_TEMPERATURE: FP = 0x4039_0000_0000_0000;

/// The sensing operations of a thermocouple, in the temperature unit `W`.
pub trait ThermocoupleCore<W> {
    /// Whether the thermocouple takes `voltage`: under the strict policy,
    /// whether `voltage` and the reference potential add up to a voltage that
    /// the type's T(E) accepts.
    spec fn senses_temperature(&self, voltage: Millivolts) -> bool;

    /// The temperature at which the thermocouple gives `voltage`.
    spec fn temperature_at(&self, voltage: Millivolts) -> W;

    /// Whether the thermocouple takes `temperature`: under the strict policy,
    /// whether the type's E(T) is published for it.
    spec fn senses_voltage(&self, temperature: W) -> bool;

    /// The voltage that the thermocouple gives at `temperature`.
    spec fn voltage_at(&self, temperature: W) -> Millivolts;

    /// Returns the thermocouple temperature for a given thermoelectric
    /// potential.
    fn sense_temperature(&self, voltage: Millivolts) -> (r: W)
        requires
            self.senses_temperature(voltage),
        ensures
            r == self.temperature_at(voltage),
    ;

    /// Returns the thermoelectric potential for a given thermocouple
    /// temperature.
    fn sense_voltage(&self, temperature: W) -> (r: Millivolts)
        requires
            self.senses_voltage(temperature),
        ensures
            r == self.voltage_at(temperature),
    ;
}

/// What a thermocouple does with a value outside the published range of a
/// reference function. The policy is part of a thermocouple's type, chosen
/// once where the thermocouple is made.
pub trait DomainPolicy {
    /// Whether values outside the published ranges are refused.
    spec fn strict() -> bool;

    /// Whether values outside the published ranges are refused.
    fn is_strict() -> (r: bool)
        ensures
            r == Self::strict(),
    ;
}

/// The policy that refuses every value outside the published ranges.
#[derive(Clone, Copy, Debug)]
pub struct Strict;

/// The policy that takes every value, and continues the nearest stretch of a
/// reference function beyond its range. Nothing is promised of the accuracy
/// out there.
#[derive(Clone, Copy, Debug)]
pub struct Extrapolate;

impl DomainPolicy for Strict {
    open spec fn strict() -> bool {
        true
    }

    fn is_strict() -> (r: bool) {
        true
    }
}

impl DomainPolicy for Extrapolate {
    open spec fn strict() -> bool {
        false
    }

    fn is_strict() -> (r: bool) {
        false
    }
}

/// The reference functions of one thermocouple type.
pub trait Calibration {
    /// Whether E(T) is published for `t`.
    spec fn e_defined(t: Celsius) -> bool;

    /// E(T) at `t`.
    spec fn e_spec(t: Celsius) -> Millivolts;

    /// Whether T(E) accepts `e`.
    spec fn t_defined(e: Millivolts) -> bool;

    /// T(E) at `e`.
    spec fn t_spec(e: Millivolts) -> Celsius;

    /// E(T) is published for the default reference temperature.
    proof fn lemma_default_reference_defined()
        ensures
            Self::e_defined(Celsius(DEFAULT_REFERENCE_TEMPERATURE)),
    ;

    /// Whether E(T) is published for `t`.
    fn e_in_range(t: Celsius) -> (r: bool)
        ensures
            r == Self::e_defined(t),
    ;

    /// Whether T(E) accepts `e`.
    fn t_in_range(e: Millivolts) -> (r: bool)
        ensures
            r == Self::t_defined(e),
    ;

    /// The voltage E(T) in millivolts at the temperature `t`, in or out of the
    /// published range.
    fn e_extrapolated(t: Celsius) -> (r: Millivolts)
        ensures
            r == Self::e_spec(t),
    ;

    /// The temperature T(E) in degrees Celsius at the voltage `e`, in or out
    /// of the accepted range.
    fn t_extrapolated(e: Millivolts) -> (r: Celsius)
        ensures
            r == Self::t_spec(e),
    ;
}

/// A thermocouple of the type `C`, with its reference junction at a known
/// temperature, under the policy `P`.
#[derive(Debug)]
pub struct Thermocouple<C: Calibration, P: DomainPolicy = Strict> {
    /// E(T) at the reference junction
    reference_potential: Millivolts,
    calibration: PhantomData<C>,
    policy: PhantomData<P>,
}

impl<C: Calibration, P: DomainPolicy> Clone for Thermocouple<C, P> {
    fn clone(&self) -> (r: Self)
        ensures
            r == *self,
    {
        *self
    }
}

impl<C: Calibration, P: DomainPolicy> Copy for Thermocouple<C, P> {

}

impl<C: Calibration, P: DomainPolicy> Thermocouple<C, P> {
    /// E(T) at the temperature of the reference junction.
    pub closed spec fn reference_potential(self) -> Millivolts {
        self.reference_potential
    }

    /// The voltage that T(E) is taken of: the measured voltage and the
    /// reference potential together.
    pub open spec fn compensated(self, voltage: Millivolts) -> Millivolts {
        Millivolts(add_spec(voltage.0, self.reference_potential().0))
    }

    /// New thermocouple instance. The reference junction is assumed to be at
    /// 25 C / 298.15 K.
    pub fn new() -> (r: Self)
        ensures
            C::e_defined(Celsius(DEFAULT_REFERENCE_TEMPERATURE)),
            r.reference_potential() == C::e_spec(Celsius(DEFAULT_REFERENCE_TEMPERATURE)),
    {
        proof {
            C::lemma_default_reference_defined();
        }
        Thermocouple {
            reference_potential: C::e_extrapolated(Celsius(DEFAULT_REFERENCE_TEMPERATURE)),
            calibration: PhantomData,
            policy: PhantomData,
        }
    }

    /// Sets the reference junction temperature used.
    pub fn with_reference_temperature<T: Temperature>(self, reference_temperature: T) -> (r: Self)
        requires
            P::strict() ==> C::e_defined(reference_temperature.celsius()),
        ensures
            r.reference_potential() == C::e_spec(reference_temperature.celsius()),
    {
        Thermocouple {
            reference_potential: C::e_extrapolated(reference_temperature.to_celsius()),
            calibration: PhantomData,
            policy: PhantomData,
        }
    }

    /// Whether `sense_temperature` takes `voltage`.
    pub fn can_sense_temperature(&self, voltage: Millivolts) -> (r: bool)
        ensures
            r == (P::strict() ==> C::t_defined(self.compensated(voltage))),
    {
        !P::is_strict() || C::t_in_range(voltage + self.reference_potential)
    }

    /// Whether `sense_voltage` takes `temperature`, and
    /// `with_reference_temperature` too.
    pub fn can_sense_voltage<W: Temperature>(&self, temperature: W) -> (r: bool)
        ensures
            r == (P::strict() ==> C::e_defined(temperature.celsius())),
    {
        !P::is_strict() || C::e_in_range(temperature.to_celsius())
    }
}

impl<C: Calibration, P: DomainPolicy> Thermocouple<C, P> {
    /// With the reference junction at a temperature at which E(T) is zero,
    /// the measured voltage is taken as it is: nothing is added to it.
    pub proof fn lemma_zero_reference_adds_nothing(self, voltage: Millivolts)
        requires
            self.reference_potential() == Millivolts(0),
            !is_nan(voltage.0),
            voltage.0 != SIGN_BIT,
        ensures
            self.compensated(voltage) == voltage,
    {
        lemma_add_zero(voltage.0);
    }

    /// At the temperature of its reference junction a thermocouple gives no
    /// voltage.
    pub proof fn lemma_no_voltage_at_reference<W: Temperature>(self, temperature: W)
        requires
            self.reference_potential() == C::e_spec(temperature.celsius()),
            is_finite(self.reference_potential().0),
        ensures
            self.voltage_at(temperature) == Millivolts(0),
    {
        lemma_sub_self(self.reference_potential().0);
    }
}

impl<C: Calibration, P: DomainPolicy> Default for Thermocouple<C, P> {
    fn default() -> (r: Self)
        ensures
            r.reference_potential() == C::e_spec(Celsius(DEFAULT_REFERENCE_TEMPERATURE)),
    {
        Thermocouple::new()
    }
}

impl<C: Calibration, P: DomainPolicy, W: Temperature> ThermocoupleCore<W> for Thermocouple<C, P> {
    open spec fn senses_temperature(&self, voltage: Millivolts) -> bool {
        P::strict() ==> C::t_defined(self.compensated(voltage))
    }

    open spec fn temperature_at(&self, voltage: Millivolts) -> W {
        W::of_celsius(C::t_spec(self.compensated(voltage)))
    }

    open spec fn senses_voltage(&self, temperature: W) -> bool {
        P::strict() ==> C::e_defined(temperature.celsius())
    }

    open spec fn voltage_at(&self, temperature: W) -> Millivolts {
        Millivolts(sub_spec(C::e_spec(temperature.celsius()).0, self.reference_potential().0))
    }

    fn sense_temperature(&self, voltage: Millivolts) -> (r: W) {
        W::from_celsius(C::t_extrapolated(voltage + self.reference_potential))
    }

    fn sense_voltage(&self, temperature: W) -> (r: Millivolts) {
        C::e_extrapolated(temperature.to_celsius()) - self.reference_potential
    }
}

/// A thermocouple of type K, with its reference junction at a known
/// temperature, under the policy `P`.
///
/// E(T) of type K has an exponential term. This library leaves the
/// exponential to its caller: an operation that needs E(T) comes with a
/// function that gives the exponent, and takes the exponential of it as an
/// argument.
#[derive(Debug)]
pub struct KThermocouple<P: DomainPolicy = Strict> {
    /// E(T) at the reference junction
    reference_potential: Millivolts,
    policy: PhantomData<P>,
}

/// Type K thermocouple (chromel-alumel)
pub type KType = KThermocouple<Strict>;

impl<P: DomainPolicy> Clone for KThermocouple<P> {
    fn clone(&self) -> (r: Self)
        ensures
            r == *self,
    {
        *self
    }
}

impl<P: DomainPolicy> Copy for KThermocouple<P> {

}

impl<P: DomainPolicy> KThermocouple<P> {
    /// E(T) at the temperature of the reference junction.
    pub closed spec fn reference_potential(self) -> Millivolts {
        self.reference_potential
    }

    /// The voltage that T(E) is taken of: the measured voltage and the
    /// reference potential together.
    pub open spec fn compensated(self, voltage: Millivolts) -> Millivolts {
        Millivolts(add_spec(voltage.0, self.reference_potential().0))
    }

    /// The exponent whose exponential `new` takes.
    pub fn default_exponent() -> (r: FP)
        ensures
            r == k_type::e_exponent_spec(Celsius(DEFAULT_REFERENCE_TEMPERATURE)),
    {
        k_type::e_exponent(Celsius(DEFAULT_REFERENCE_TEMPERATURE))
    }

    /// New thermocouple instance. The reference junction is assumed to be at
    /// 25 C / 298.15 K; `exponential` is the exponential of
    /// `default_exponent()`.
    pub fn new(exponential: FP) -> (r: Self)
        ensures
            k_type::e_defined(Celsius(DEFAULT_REFERENCE_TEMPERATURE)),
            r.reference_potential() == k_type::e_spec(
                Celsius(DEFAULT_REFERENCE_TEMPERATURE),
                exponential,
            ),
    {
        KThermocouple {
            reference_potential: k_type::e_extrapolated(
                Celsius(DEFAULT_REFERENCE_TEMPERATURE),
                exponential,
            ),
            policy: PhantomData,
        }
    }

    /// The exponent whose exponential goes with `temperature`, in
    /// `with_reference_temperature` and in `sense_voltage`.
    pub fn exponent<T: Temperature>(temperature: T) -> (r: FP)
        ensures
            r == k_type::e_exponent_spec(temperature.celsius()),
    {
        k_type::e_exponent(temperature.to_celsius())
    }

    /// Sets the reference junction temperature used; `exponential` is the
    /// exponential of `exponent(reference_temperature)`.
    pub fn with_reference_temperature<T: Temperature>(
        self,
        reference_temperature: T,
        exponential: FP,
    ) -> (r: Self)
        requires
            P::strict() ==> k_type::e_defined(reference_temperature.celsius()),
        ensures
            r.reference_potential() == k_type::e_spec(reference_temperature.celsius(), exponential),
    {
        KThermocouple {
            reference_potential: k_type::e_extrapolated(
                reference_temperature.to_celsius(),
                exponential,
            ),
            policy: PhantomData,
        }
    }

    /// Whether `sense_temperature` takes `voltage`.
    pub fn can_sense_temperature(&self, voltage: Millivolts) -> (r: bool)
        ensures
            r == (P::strict() ==> k_type::t_defined(self.compensated(voltage))),
    {
        !P::is_strict() || k_type::t_in_range(voltage + self.reference_potential)
    }

    /// Whether `sense_voltage` takes `temperature`, and
    /// `with_reference_temperature` too.
    pub fn can_sense_voltage<W: Temperature>(&self, temperature: W) -> (r: bool)
        ensures
            r == (P::strict() ==> k_type::e_defined(temperature.celsius())),
    {
        !P::is_strict() || k_type::e_in_range(temperature.to_celsius())
    }

    /// Returns the thermocouple temperature for a given thermoelectric
    /// potential.
    pub fn sense_temperature<W: Temperature>(&self, voltage: Millivolts) -> (r: W)
        requires
            P::strict() ==> k_type::t_defined(self.compensated(voltage)),
        ensures
            r == W::of_celsius(k_type::t_spec(self.compensated(voltage))),
    {
        W::from_celsius(k_type::t_extrapolated(voltage + self.reference_potential))
    }

    /// Returns the thermoelectric potential for a given thermocouple
    /// temperature; `exponential` is the exponential of
    /// `exponent(temperature)`.
    pub fn sense_voltage<W: Temperature>(&self, temperature: W, exponential: FP) -> (r: Millivolts)
        requires
            P::strict() ==> k_type::e_defined(temperature.celsius()),
        ensures
            r == Millivolts(
                sub_spec(
                    k_type::e_spec(temperature.celsius(), exponential).0,
                    self.reference_potential().0,
                ),
            ),
    {
        k_type::e_extrapolated(temperature.to_celsius(), exponential) - self.reference_potential
    }
}


/// The reference functions of type B.
#[derive(Clone, Copy, Debug)]
pub struct TypeB;

impl Calibration for TypeB {
    open spec fn e_defined(t: Celsius) -> bool {
        b_type::e_defined(t)
    }

    open spec fn e_spec(t: Celsius) -> Millivolts {
        b_type::e_spec(t)
    }

    open spec fn t_defined(e: Millivolts) -> bool {
        b_type::t_defined(e)
    }

    open spec fn t_spec(e: Millivolts) -> Celsius {
        b_type::t_spec(e)
    }

    proof fn lemma_default_reference_defined() {
    }

    fn e_in_range(t: Celsius) -> (r: bool) {
        b_type::e_in_range(t)
    }

    fn t_in_range(e: Millivolts) -> (r: bool) {
        b_type::t_in_range(e)
    }

    fn e_extrapolated(t: Celsius) -> (r: Millivolts) {
        b_type::e_extrapolated(t)
    }

    fn t_extrapolated(e: Millivolts) -> (r: Celsius) {
        b_type::t_extrapolated(e)
    }
}

/// Type B thermocouple (platinum/rhodium alloy)
pub type BType = Thermocouple<TypeB>;

/// The reference functions of type E.
#[derive(Clone, Copy, Debug)]
pub struct TypeE;

impl Calibration for TypeE {
    open spec fn e_defined(t: Celsius) -> bool {
        e_type::e_defined(t)
    }

    open spec fn e_spec(t: Celsius) -> Millivolts {
        e_type::e_spec(t)
    }

    open spec fn t_defined(e: Millivolts) -> bool {
        e_type::t_defined(e)
    }

    open spec fn t_spec(e: Millivolts) -> Celsius {
        e_type::t_spec(e)
    }

    proof fn lemma_default_reference_defined() {
    }

    fn e_in_range(t: Celsius) -> (r: bool) {
        e_type::e_in_range(t)
    }

    fn t_in_range(e: Millivolts) -> (r: bool) {
        e_type::t_in_range(e)
    }

    fn e_extrapolated(t: Celsius) -> (r: Millivolts) {
        e_type::e_extrapolated(t)
    }

    fn t_extrapolated(e: Millivolts) -> (r: Celsius) {
        e_type::t_extrapolated(e)
    }
}

/// Type E thermocouple (chromel-constantan)
pub type EType = Thermocouple<TypeE>;

/// The reference functions of type J.
#[derive(Clone, Copy, Debug)]
pub struct TypeJ;

impl Calibration for TypeJ {
    open spec fn e_defined(t: Celsius) -> bool {
        j_type::e_defined(t)
    }

    open spec fn e_spec(t: Celsius) -> Millivolts {
        j_type::e_spec(t)
    }

    open spec fn t_defined(e: Millivolts) -> bool {
        j_type::t_defined(e)
    }

    open spec fn t_spec(e: Millivolts) -> Celsius {
        j_type::t_spec(e)
    }

    proof fn lemma_default_reference_defined() {
    }

    fn e_in_range(t: Celsius) -> (r: bool) {
        j_type::e_in_range(t)
    }

    fn t_in_range(e: Millivolts) -> (r: bool) {
        j_type::t_in_range(e)
    }

    fn e_extrapolated(t: Celsius) -> (r: Millivolts) {
        j_type::e_extrapolated(t)
    }

    fn t_extrapolated(e: Millivolts) -> (r: Celsius) {
        j_type::t_extrapolated(e)
    }
}

/// Type J thermocouple (iron-constantan)
pub type JType = Thermocouple<TypeJ>;

/// The reference functions of type N.
#[derive(Clone, Copy, Debug)]
pub struct TypeN;

impl Calibration for TypeN {
    open spec fn e_defined(t: Celsius) -> bool {
        n_type::e_defined(t)
    }

    open spec fn e_spec(t: Celsius) -> Millivolts {
        n_type::e_spec(t)
    }

    open spec fn t_defined(e: Millivolts) -> bool {
        n_type::t_defined(e)
    }

    open spec fn t_spec(e: Millivolts) -> Celsius {
        n_type::t_spec(e)
    }

    proof fn lemma_default_reference_defined() {
    }

    fn e_in_range(t: Celsius) -> (r: bool) {
        n_type::e_in_range(t)
    }

    fn t_in_range(e: Millivolts) -> (r: bool) {
        n_type::t_in_range(e)
    }

    fn e_extrapolated(t: Celsius) -> (r: Millivolts) {
        n_type::e_extrapolated(t)
    }

    fn t_extrapolated(e: Millivolts) -> (r: Celsius) {
        n_type::t_extrapolated(e)
    }
}

/// Type N thermocouple (nicrosil-nisil)
pub type NType = Thermocouple<TypeN>;

/// The reference functions of type R.
#[derive(Clone, Copy, Debug)]
pub struct TypeR;

impl Calibration for TypeR {
    open spec fn e_defined(t: Celsius) -> bool {
        r_type::e_defined(t)
    }

    open spec fn e_spec(t: Celsius) -> Millivolts {
        r_type::e_spec(t)
    }

    open spec fn t_defined(e: Millivolts) -> bool {
        r_type::t_defined(e)
    }

    open spec fn t_spec(e: Millivolts) -> Celsius {
        r_type::t_spec(e)
    }

    proof fn lemma_default_reference_defined() {
    }

    fn e_in_range(t: Celsius) -> (r: bool) {
        r_type::e_in_range(t)
    }

    fn t_in_range(e: Millivolts) -> (r: bool) {
        r_type::t_in_range(e)
    }

    fn e_extrapolated(t: Celsius) -> (r: Millivolts) {
        r_type::e_extrapolated(t)
    }

    fn t_extrapolated(e: Millivolts) -> (r: Celsius) {
        r_type::t_extrapolated(e)
    }
}

/// Type R thermocouple (platinum/rhodium alloy)
pub type RType = Thermocouple<TypeR>;

/// The reference functions of type S.
#[derive(Clone, Copy, Debug)]
pub struct TypeS;

impl Calibration for TypeS {
    open spec fn e_defined(t: Celsius) -> bool {
        s_type::e_defined(t)
    }

    open spec fn e_spec(t: Celsius) -> Millivolts {
        s_type::e_spec(t)
    }

    open spec fn t_defined(e: Millivolts) -> bool {
        s_type::t_defined(e)
    }

    open spec fn t_spec(e: Millivolts) -> Celsius {
        s_type::t_spec(e)
    }

    proof fn lemma_default_reference_defined() {
    }

    fn e_in_range(t: Celsius) -> (r: bool) {
        s_type::e_in_range(t)
    }

    fn t_in_range(e: Millivolts) -> (r: bool) {
        s_type::t_in_range(e)
    }

    fn e_extrapolated(t: Celsius) -> (r: Millivolts) {
        s_type::e_extrapolated(t)
    }

    fn t_extrapolated(e: Millivolts) -> (r: Celsius) {
        s_type::t_extrapolated(e)
    }
}

/// Type S thermocouple (platinum/rhodium alloy)
pub type SType = Thermocouple<TypeS>;

/// The reference functions of type T.
#[derive(Clone, Copy, Debug)]
pub struct TypeT;

impl Calibration for TypeT {
    open spec fn e_defined(t: Celsius) -> bool {
        t_type::e_defined(t)
    }

    open spec fn e_spec(t: Celsius) -> Millivolts {
        t_type::e_spec(t)
    }

    open spec fn t_defined(e: Millivolts) -> bool {
        t_type::t_defined(e)
    }

    open spec fn t_spec(e: Millivolts) -> Celsius {
        t_type::t_spec(e)
    }

    proof fn lemma_default_reference_defined() {
    }

    fn e_in_range(t: Celsius) -> (r: bool) {
        t_type::e_in_range(t)
    }

    fn t_in_range(e: Millivolts) -> (r: bool) {
        t_type::t_in_range(e)
    }

    fn e_extrapolated(t: Celsius) -> (r: Millivolts) {
        t_type::e_extrapolated(t)
    }

    fn t_extrapolated(e: Millivolts) -> (r: Celsius) {
        t_type::t_extrapolated(e)
    }
}

/// Type T thermocouple (copper-constantan)
pub type TType = Thermocouple<TypeT>;

} // verus!
