//! Type K thermocouple (chromel-alumel): the ITS-90 reference functions.
//!
//! `e` gives the thermoelectric voltage E(T) in millivolts for a temperature in
//! degrees Celsius, `t` the temperature T(E) for a voltage. Each is a
//! polynomial, with one set of coefficients for each stretch of its range.
//! Above 0 C, E(T) has an exponential term besides; the exponential itself is
//! taken by the caller, who hands its value in.
use crate::arith::{
    add_spec, fp_add, fp_ge, fp_gt, fp_le, fp_lt, fp_mul, fp_sub, ge_spec, gt_spec, le_spec,
    lt_spec, mul_spec, sub_spec,
};
use crate::binary64::FP;
use crate::polyval::{horner, lemma_horner_at_zero, polyval};
use crate::units::{Celsius, Millivolts};
use vstd::prelude::*;

verus! {

/// Coefficients of E(T) from -270 C to 0 C, lowest power first.
pub const K_TYPE_E_BELOW_0: [FP; 11] = [
    0x0000_0000_0000_0000,  //  0.000000000000E+00
    0x3FA4_32CE_A361_7A8C,  //  0.394501280250E-01
    0x3EF8_C515_2725_8F38,  //  0.236223735980E-04
    0xBE96_0D1E_00DE_DD10,  // -0.328589067840E-06
    0xBE35_6F18_0D41_2956,  // -0.499048287770E-08
    0xBDD2_8E87_184E_28E2,  // -0.675090591730E-10
    0xBD64_3310_0585_4C85,  // -0.574103274280E-12
    0xBCEC_009B_244D_AD3E,  // -0.310888728940E-14
    0xBC68_198A_8D5F_3A78,  // -0.104516093650E-16
    0xBBD7_7B29_7D1F_FC0D,  // -0.198892668780E-19
    0xBB33_BBA1_543F_5F44,  // -0.163226974860E-22
];

/// Coefficients of E(T) above 0 C, to 1372 C, lowest power first.
pub const K_TYPE_E_ABOVE_0: [FP; 10] = [
    0xBF92_05D7_C4B5_B30B,  // -0.176004136860E-01
    0x3FA3_ED7A_ECFA_2196,  //  0.389212049750E-01
    0x3EF3_75D4_F728_91E7,  //  0.185587700320E-04
    0xBE7A_B2AC_7A34_DE08,  // -0.994575928740E-07
    0x3DF5_E184_B676_EC5F,  //  0.318409457190E-09
    0xBD63_BA97_C620_F2A8,  // -0.560728448890E-12
    0x3CC4_3402_E5AA_091D,  //  0.560750590590E-15
    0xBC17_A08B_01C8_DB89,  // -0.320207200030E-18
    0x3B5D_5CB4_B800_1899,  //  0.971511471520E-22
    0xBA8D_F847_51FF_39EC,  // -0.121047212750E-25
];

/// Coefficients of T(E) from -5.891 mV to 0 mV, lowest power first.
pub const K_TYPE_T0: [FP; 10] = [
    0x0000_0000_0000_0000,  //  0.0000000E+00
    0x4039_2C68_0171_1948,  //  2.5173462E+01
    0xBFF2_A91D_656B_94A4,  // -1.1662878E+00
    0xBFF1_5575_47AA_B97D,  // -1.0833638E+00
    0xBFEC_BA3F_96EE_C46E,  // -8.9773540E-01
    0xBFD7_E62C_CFEC_BCD7,  // -3.7342377E-01
    0xBFB6_2D8E_9073_7793,  // -8.6632643E-02
    0xBF85_671F_8511_B36D,  // -1.0450598E-02
    0xBF41_0369_E6A9_64E4,  // -5.1920577E-04
    0x0000_0000_0000_0000,  //  0.0000000E+00
];

/// Coefficients of T(E) from 0 mV to 20.644 mV, lowest power first.
pub const K_TYPE_T1: [FP; 10] = [
    0x0000_0000_0000_0000,  //  0.000000E+00
    0x4039_1563_8865_94AF,  //  2.508355E+01
    0x3FB4_1F32_F621_84E0,  //  7.860106E-02
    0xBFD0_0521_3C90_AA07,  // -2.503131E-01
    0x3FB5_497E_CF12_F82A,  //  8.315270E-02
    0xBF89_266F_5578_5780,  // -1.228034E-02
    0x3F50_101C_5987_42C5,  //  9.804036E-04
    0xBF07_2311_8FE5_DFC5,  // -4.413030E-05
    0x3EB1_BEEE_D504_1D19,  //  1.057734E-06
    0xBE46_9B94_F20E_972B,  // -1.052755E-08
];

/// Coefficients of T(E) from 20.644 mV to 54.886 mV, lowest power first.
pub const K_TYPE_T2: [FP; 10] = [
    0xC060_79C9_1D14_E3BD,  // -1.318058E+02
    0x4048_26AF_251C_193B,  //  4.830222E+01
    0xBFFA_5624_9A13_3C1D,  // -1.646031E+00
    0x3FAB_FABB_7287_5BFF,  //  5.464731E-02
    0xBF4F_9F9B_43F1_4F16,  // -9.650715E-04
    0x3EE2_75A4_31B5_AFB6,  //  8.802193E-06
    0xBE60_B376_F722_EBA7,  // -3.110810E-08
    0x0000_0000_0000_0000,  //  0.000000E+00
    0x0000_0000_0000_0000,  //  0.000000E+00
    0x0000_0000_0000_0000,  //  0.000000E+00
];

/// The lowest temperature for which E(T) is published.
pub const LOWEST_TEMPERATURE: FP = 0xC070_E000_0000_0000;  // -270.0

/// The highest temperature for which E(T) is published.
pub const HIGHEST_TEMPERATURE: FP = 0x4095_7000_0000_0000;  // 1372.0

/// The temperature up to which `K_TYPE_E_BELOW_0` holds.
pub const E_BREAK_0: FP = 0x0000_0000_0000_0000;  // 0.0

/// The lowest voltage that T(E) accepts: -5.891 mV, less a tolerance of 0.0005 mV.
pub const LOWEST_VOLTAGE: FP = 0xC017_90E5_6041_8937;  // -5.891 - 0.0005

/// The highest voltage that T(E) accepts: 54.886 mV, plus a tolerance of 0.0005 mV.
pub const HIGHEST_VOLTAGE: FP = 0x404B_7178_D4FD_F3B7;  // 54.886 + 0.0005

/// The voltage below which `K_TYPE_T0` holds.
pub const T_BREAK_0: FP = 0x0000_0000_0000_0000;  // 0.0

/// The voltage below which `K_TYPE_T1` holds.
pub const T_BREAK_1: FP = 0x4034_A4DD_2F1A_9FBE;  // 20.644

/// The factor of the exponential term of E(T) above 0 C.
pub const EXPONENTIAL_A0: FP = 0x3FBE_5C69_8D62_53B2;  // 0.118597600000E+00

/// The factor of the squared distance in the exponent.
pub const EXPONENTIAL_A1: FP = 0xBF1F_05E0_B1DF_7541;  // -0.118343200000E-03

/// The temperature from which the exponent takes the distance.
pub const EXPONENTIAL_A2: FP = 0x405F_BDFD_8ADA_B9F5;  // 0.126968600000E+03

/// Whether `t` lies in the range for which E(T) is published, bounds included.
/// A NaN lies outside.
pub open spec fn e_defined(t: Celsius) -> bool {
    ge_spec(t.0, LOWEST_TEMPERATURE) && le_spec(t.0, HIGHEST_TEMPERATURE)
}

/// The exponent of the exponential term of E(T): `a1 * (t - a2)^2`, the
/// factors multiplied from the left.
pub open spec fn e_exponent_spec(t: Celsius) -> FP {
    mul_spec(
        mul_spec(EXPONENTIAL_A1, sub_spec(t.0, EXPONENTIAL_A2)),
        sub_spec(t.0, EXPONENTIAL_A2),
    )
}

/// E(T) at `t`, where `exponential` is `exp(e_exponent_spec(t))`: up to 0 C the
/// polynomial alone, above it the polynomial plus `a0 * exponential`.
pub open spec fn e_spec(t: Celsius, exponential: FP) -> Millivolts {
    Millivolts(
        if !gt_spec(t.0, E_BREAK_0) {
            horner(K_TYPE_E_BELOW_0@, t.0)
        } else {
            add_spec(horner(K_TYPE_E_ABOVE_0@, t.0), mul_spec(EXPONENTIAL_A0, exponential))
        },
    )
}

/// Whether `e` lies in the range that T(E) accepts, bounds included. A NaN
/// lies outside.
pub open spec fn t_defined(e: Millivolts) -> bool {
    ge_spec(e.0, LOWEST_VOLTAGE) && le_spec(e.0, HIGHEST_VOLTAGE)
}

/// T(E) at `e`: the polynomial of the stretch that holds `e`. A breakpoint
/// belongs to the stretch above it.
pub open spec fn t_spec(e: Millivolts) -> Celsius {
    Celsius(
        if lt_spec(e.0, T_BREAK_0) {
            horner(K_TYPE_T0@, e.0)
        } else if lt_spec(e.0, T_BREAK_1) {
            horner(K_TYPE_T1@, e.0)
        } else {
            horner(K_TYPE_T2@, e.0)
        },
    )
}

/// Whether E(T) is published for `t`.
pub fn e_in_range(t: Celsius) -> (r: bool)
    ensures
        r == e_defined(t),
{
    fp_ge(t.0, LOWEST_TEMPERATURE) && fp_le(t.0, HIGHEST_TEMPERATURE)
}

/// Whether T(E) accepts `e`.
pub fn t_in_range(e: Millivolts) -> (r: bool)
    ensures
        r == t_defined(e),
{
    fp_ge(e.0, LOWEST_VOLTAGE) && fp_le(e.0, HIGHEST_VOLTAGE)
}

/// The exponent of the exponential term of E(T) at `t`. The caller takes the
/// exponential of it and hands that to [`e`].
pub fn e_exponent(t: Celsius) -> (r: FP)
    ensures
        r == e_exponent_spec(t),
{
    let distance: FP = fp_sub(t.0, EXPONENTIAL_A2);
    fp_mul(fp_mul(EXPONENTIAL_A1, distance), distance)
}

/// E(T) in millivolts at any `t`, in or out of the published range, where
/// `exponential` is the exponential of `e_exponent(t)`. Out of the range the
/// nearest stretch is continued, and nothing is promised of its accuracy.
pub fn e_extrapolated(t: Celsius, exponential: FP) -> (r: Millivolts)
    ensures
        r == e_spec(t, exponential),
{
    let t: FP = t.0;
    let e: FP = if !fp_gt(t, E_BREAK_0) {
        polyval(K_TYPE_E_BELOW_0, t)
    } else {
        fp_add(polyval(K_TYPE_E_ABOVE_0, t), fp_mul(EXPONENTIAL_A0, exponential))
    };
    Millivolts(e)
}

/// E(T) in millivolts for `t` from -270 C to 1372 C, where `exponential` is the
/// exponential of `e_exponent(t)`.
pub fn e(t: Celsius, exponential: FP) -> (r: Millivolts)
    requires
        e_defined(t),
    ensures
        r == e_spec(t, exponential),
{
    e_extrapolated(t, exponential)
}

/// T(E) in degrees Celsius at any `e`, in or out of the accepted range. Out of
/// it the nearest stretch is continued, and nothing is promised of its accuracy.
pub fn t_extrapolated(e: Millivolts) -> (r: Celsius)
    ensures
        r == t_spec(e),
{
    let e: FP = e.0;
    let t: FP = if fp_lt(e, T_BREAK_0) {
        polyval(K_TYPE_T0, e)
    } else if fp_lt(e, T_BREAK_1) {
        polyval(K_TYPE_T1, e)
    } else {
        polyval(K_TYPE_T2, e)
    };
    Celsius(t)
}

/// T(E) in degrees Celsius for `e` from -5.891 mV to 54.886 mV.
pub fn t(e: Millivolts) -> (r: Celsius)
    requires
        t_defined(e),
    ensures
        r == t_spec(e),
{
    t_extrapolated(e)
}

/// E(T) is zero at 0 C: the reference functions take the voltage against a
/// reference junction at 0 C.
pub proof fn lemma_e_zero_at_zero(exponential: FP)
    ensures
        e_defined(Celsius(0)),
        e_spec(Celsius(0), exponential) == Millivolts(0),
{
    lemma_horner_at_zero(K_TYPE_E_BELOW_0@);
}

/// E(T) is defined for no temperature below the lowest or above the highest
/// of its range, however near.
pub proof fn lemma_e_undefined_outside(t: Celsius)
    requires
        lt_spec(t.0, LOWEST_TEMPERATURE) || gt_spec(t.0, HIGHEST_TEMPERATURE),
    ensures
        !e_defined(t),
{
}

/// T(E) accepts no voltage below the lowest or above the highest of its
/// range, however near.
pub proof fn lemma_t_undefined_outside(e: Millivolts)
    requires
        lt_spec(e.0, LOWEST_VOLTAGE) || gt_spec(e.0, HIGHEST_VOLTAGE),
    ensures
        !t_defined(e),
{
}

} // verus!
