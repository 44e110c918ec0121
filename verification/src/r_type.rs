//! Type R thermocouple (platinum/rhodium alloy): the ITS-90 reference functions.
//!
//! `e` gives the thermoelectric voltage E(T) in millivolts for a temperature in
//! degrees Celsius, `t` the temperature T(E) for a voltage. Each is a
//! polynomial, with one set of coefficients for each stretch of its range.
use crate::arith::{fp_ge, fp_gt, fp_le, fp_lt, ge_spec, gt_spec, le_spec, lt_spec};
use crate::binary64::FP;
use crate::polyval::{horner, lemma_horner_at_zero, polyval};
use crate::units::{Celsius, Millivolts};
use vstd::prelude::*;

verus! {

/// Coefficients of E(T) from -50 C to 1064.18 C, lowest power first.
pub const R_TYPE_E_BELOW_1064_18: [FP; 10] = [
    0x0000_0000_0000_0000,  //  0.000000000000E+00
    0x3F75_AA90_D4D4_0512,  //  0.528961729765E-02
    0x3EED_2F73_0BB8_ED76,  //  0.139166589782E-04
    0xBE59_A59D_8406_D40D,  // -0.238855693017E-07
    0x3DC3_9F25_6A5E_FD28,  //  0.356916001063E-10
    0xBD2A_0721_D08D_3E80,  // -0.462347666298E-13
    0x3C8C_DE2B_AEAD_5F58,  //  0.500777441034E-16
    0xBBE6_0637_7C53_BDC7,  // -0.373105886191E-19
    0x3B33_1116_B5A9_5572,  //  0.157716482367E-22
    0xBA6B_D52C_F6B9_C569,  // -0.281038625251E-26
];

/// Coefficients of E(T) above 1064.18 C, to 1664.5 C, lowest power first.
pub const R_TYPE_E_ABOVE_1064_18_BELOW_1664_5: [FP; 6] = [
    0x4007_9CD5_955E_FE93,  //  0.295157925316E+01
    0xBF64_A61B_89F0_6AB9,  // -0.252061251332E-02
    0x3EF0_BB46_E84A_13C9,  //  0.159564501865E-04
    0xBE40_689B_5F1A_42FA,  // -0.764085947576E-08
    0x3D82_0F10_6CD7_00BC,  //  0.205305291024E-11
    0xBCB5_2387_DD49_B51A,  // -0.293359668173E-15
];

/// Coefficients of E(T) above 1664.5 C, to 1768.1 C, lowest power first.
pub const R_TYPE_E_ABOVE_1664_5: [FP; 5] = [
    0x4063_076D_832A_8EC1,  //  0.152232118209E+03
    0xBFD1_3458_5574_2B41,  // -0.268819888545E+00
    0x3F26_7336_67F9_2382,  //  0.171280280471E-03
    0xBE62_91F4_52F0_2B10,  // -0.345895706453E-07
    0xBD05_0BCC_4B16_EAB9,  // -0.934633971046E-14
];

/// Coefficients of T(E) from -0.226 mV to 1.923 mV, lowest power first.
pub const R_TYPE_T0: [FP; 11] = [
    0x0000_0000_0000_0000,  //  0.0000000E+00
    0x4067_9D3D_D97F_62B7,  //  1.8891380E+02
    0xC057_7575_6430_2B41,  // -9.3835290E+01
    0x4060_55F5_44BB_1AF4,  //  1.3068619E+02
    0xC06C_6125_460A_A64C,  // -2.2703580E+02
    0x4075_F74E_3150_DAE4,  //  3.5145659E+02
    0xC078_589F_BE76_C8B4,  // -3.8953900E+02
    0x4071_A650_BB6E_D677,  //  2.8239471E+02
    0xC05F_84A8_EB46_3498,  // -1.2607281E+02
    0x403F_5A86_4020_8180,  //  3.1353611E+01
    0xC00A_8CDA_E741_C319,  // -3.3187769E+00
];

/// Coefficients of T(E) from 1.923 mV to 13.228 mV, lowest power first.
pub const R_TYPE_T1: [FP; 11] = [
    0x402A_B112_9A36_778B,  //  1.334584505E+01
    0x4062_6876_6F27_D608,  //  1.472644573E+02
    0xC032_70B4_1F2B_EA3F,  // -1.844024844E+01
    0x4010_1FE0_788C_69EC,  //  4.031129726E+00
    0xBFE3_FF88_1E4F_A9EA,  // -6.249428360E-01
    0x3FB0_8F23_75F2_3BC4,  //  6.468412046E-02
    0xBF72_4356_B42B_CFA4,  // -4.458750426E-03
    0x3F2A_2522_F892_DB59,  //  1.994710149E-04
    0xBED6_4938_C346_0E0E,  // -5.313401790E-06
    0x3E71_6661_50C1_4B5D,  //  6.481976217E-08
    0x0000_0000_0000_0000,  //  0.000000000E+00
];

/// Coefficients of T(E) from 13.228 mV to 19.739 mV, lowest power first.
pub const R_TYPE_T2: [FP; 11] = [
    0xC054_7FBE_5E4A_0D3F,  // -8.199599416E+01
    0x4063_6CAD_B46E_3136,  //  1.553962042E+02
    0xC020_AF34_8836_B48C,  // -8.342197663E+00
    0x3FDB_636C_8675_8160,  //  4.279433549E-01
    0xBF88_674C_CC53_AE92,  // -1.191577910E-02
    0x3F23_8F4B_6D69_F41B,  //  1.492290091E-04
    0x0000_0000_0000_0000,  //  0.000000000E+00
    0x0000_0000_0000_0000,  //  0.000000000E+00
    0x0000_0000_0000_0000,  //  0.000000000E+00
    0x0000_0000_0000_0000,  //  0.000000000E+00
    0x0000_0000_0000_0000,  //  0.000000000E+00
];

/// Coefficients of T(E) from 19.739 mV to 21.103 mV, lowest power first.
pub const R_TYPE_T3: [FP; 11] = [
    0x40E0_A1B8_E853_3B10,  //  3.406177836E+04
    0xC0BB_6FBA_AAF3_5E31,  // -7.023729171E+03
    0x4081_7252_B36E_56F6,  //  5.582903813E+02
    0xC033_8621_5916_1BCB,  // -1.952394635E+01
    0x3FD0_6384_4CA4_751F,  //  2.560740231E-01
    0x0000_0000_0000_0000,  //  0.000000000E+00
    0x0000_0000_0000_0000,  //  0.000000000E+00
    0x0000_0000_0000_0000,  //  0.000000000E+00
    0x0000_0000_0000_0000,  //  0.000000000E+00
    0x0000_0000_0000_0000,  //  0.000000000E+00
    0x0000_0000_0000_0000,  //  0.000000000E+00
];

/// The lowest temperature for which E(T) is published.
pub const LOWEST_TEMPERATURE: FP = 0xC049_0000_0000_0000;  // -50.0

/// The highest temperature for which E(T) is published.
pub const HIGHEST_TEMPERATURE: FP = 0x409B_A066_6666_6666;  // 1768.1

/// The temperature up to which `R_TYPE_E_BELOW_1064_18` holds.
pub const E_BREAK_0: FP = 0x4090_A0B8_51EB_851F;  // 1064.18

/// The temperature up to which `R_TYPE_E_ABOVE_1064_18_BELOW_1664_5` holds.
pub const E_BREAK_1: FP = 0x409A_0200_0000_0000;  // 1664.5

/// The lowest voltage that T(E) accepts: -0.226 mV, less a tolerance of 0.0005 mV.
pub const LOWEST_VOLTAGE: FP = 0xBFCC_FDF3_B645_A1CB;  // -0.226 - 0.0005

/// The highest voltage that T(E) accepts: 21.103 mV, plus a tolerance of 0.0005 mV.
pub const HIGHEST_VOLTAGE: FP = 0x4035_1A7E_F9DB_22D1;  // 21.103 + 0.0005

/// The voltage below which `R_TYPE_T0` holds.
pub const T_BREAK_0: FP = 0x3FFE_C49B_A5E3_53F8;  // 1.923

/// The voltage below which `R_TYPE_T1` holds.
pub const T_BREAK_1: FP = 0x402A_74BC_6A7E_F9DB;  // 13.228

/// The voltage below which `R_TYPE_T2` holds.
pub const T_BREAK_2: FP = 0x4033_BD2F_1A9F_BE77;  // 19.739

/// Whether `t` lies in the range for which E(T) is published, bounds included.
/// A NaN lies outside.
pub open spec fn e_defined(t: Celsius) -> bool {
    ge_spec(t.0, LOWEST_TEMPERATURE) && le_spec(t.0, HIGHEST_TEMPERATURE)
}

/// E(T) at `t`: the polynomial of the stretch that holds `t`. A breakpoint
/// belongs to the stretch below it.
pub open spec fn e_spec(t: Celsius) -> Millivolts {
    Millivolts(
        if !gt_spec(t.0, E_BREAK_0) {
            horner(R_TYPE_E_BELOW_1064_18@, t.0)
        } else if !gt_spec(t.0, E_BREAK_1) {
            horner(R_TYPE_E_ABOVE_1064_18_BELOW_1664_5@, t.0)
        } else {
            horner(R_TYPE_E_ABOVE_1664_5@, t.0)
        },
    )
}

/// Whether `e` lies in the range that T(E) accepts, bounds included. A NaN
/// lies outside.
pub open spec fn t_defined(e: Millivolts) -> bool {
    ge_spec(e.0, LOWEST_VOLTAGE) && le_spec(e.0, HIGHEST_VOLTAGE)
}

/// T(E) at `e`: the polynomial of the stretch that holds `e`. A breakpoint
/// belongs to the stretch above it.
pub open spec fn t_spec(e: Millivolts) -> Celsius {
    Celsius(
        if lt_spec(e.0, T_BREAK_0) {
            horner(R_TYPE_T0@, e.0)
        } else if lt_spec(e.0, T_BREAK_1) {
            horner(R_TYPE_T1@, e.0)
        } else if lt_spec(e.0, T_BREAK_2) {
            horner(R_TYPE_T2@, e.0)
        } else {
            horner(R_TYPE_T3@, e.0)
        },
    )
}

/// Whether E(T) is published for `t`.
pub fn e_in_range(t: Celsius) -> (r: bool)
    ensures
        r == e_defined(t),
{
    fp_ge(t.0, LOWEST_TEMPERATURE) && fp_le(t.0, HIGHEST_TEMPERATURE)
}

/// Whether T(E) accepts `e`.
pub fn t_in_range(e: Millivolts) -> (r: bool)
    ensures
        r == t_defined(e),
{
    fp_ge(e.0, LOWEST_VOLTAGE) && fp_le(e.0, HIGHEST_VOLTAGE)
}

/// E(T) in millivolts at any `t`, in or out of the published range. Out of it
/// the nearest stretch is continued, and nothing is promised of its accuracy.
pub fn e_extrapolated(t: Celsius) -> (r: Millivolts)
    ensures
        r == e_spec(t),
{
    let t: FP = t.0;
    let e: FP = if !fp_gt(t, E_BREAK_0) {
        polyval(R_TYPE_E_BELOW_1064_18, t)
    } else if !fp_gt(t, E_BREAK_1) {
        polyval(R_TYPE_E_ABOVE_1064_18_BELOW_1664_5, t)
    } else {
        polyval(R_TYPE_E_ABOVE_1664_5, t)
    };
    Millivolts(e)
}

/// E(T) in millivolts for `t` from -50 C to 1768.1 C.
pub fn e(t: Celsius) -> (r: Millivolts)
    requires
        e_defined(t),
    ensures
        r == e_spec(t),
{
    e_extrapolated(t)
}

/// T(E) in degrees Celsius at any `e`, in or out of the accepted range. Out of
/// it the nearest stretch is continued, and nothing is promised of its accuracy.
pub fn t_extrapolated(e: Millivolts) -> (r: Celsius)
    ensures
        r == t_spec(e),
{
    let e: FP = e.0;
    let t: FP = if fp_lt(e, T_BREAK_0) {
        polyval(R_TYPE_T0, e)
    } else if fp_lt(e, T_BREAK_1) {
        polyval(R_TYPE_T1, e)
    } else if fp_lt(e, T_BREAK_2) {
        polyval(R_TYPE_T2, e)
    } else {
        polyval(R_TYPE_T3, e)
    };
    Celsius(t)
}

/// T(E) in degrees Celsius for `e` from -0.226 mV to 21.103 mV.
pub fn t(e: Millivolts) -> (r: Celsius)
    requires
        t_defined(e),
    ensures
        r == t_spec(e),
{
    t_extrapolated(e)
}

/// E(T) is zero at 0 C: the reference functions take the voltage against a
/// reference junction at 0 C.
pub proof fn lemma_e_zero_at_zero()
    ensures
        e_defined(Celsius(0)),
        e_spec(Celsius(0)) == Millivolts(0),
{
    lemma_horner_at_zero(R_TYPE_E_BELOW_1064_18@);
}

/// E(T) is defined for no temperature below the lowest or above the highest
/// of its range, however near.
pub proof fn lemma_e_undefined_outside(t: Celsius)
    requires
        lt_spec(t.0, LOWEST_TEMPERATURE) || gt_spec(t.0, HIGHEST_TEMPERATURE),
    ensures
        !e_defined(t),
{
}

/// T(E) accepts no voltage below the lowest or above the highest of its
/// range, however near.
pub proof fn lemma_t_undefined_outside(e: Millivolts)
    requires
        lt_spec(e.0, LOWEST_VOLTAGE) || gt_spec(e.0, HIGHEST_VOLTAGE),
    ensures
        !t_defined(e),
{
}

} // verus!
