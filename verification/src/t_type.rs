//! Type T thermocouple (copper-constantan): the ITS-90 reference functions.
//!
//! `e` gives the thermoelectric voltage E(T) in millivolts for a temperature in
//! degrees Celsius, `t` the temperature T(E) for a voltage. Each is a
//! polynomial, with one set of coefficients for each stretch of its range.
use crate::arith::{fp_ge, fp_gt, fp_le, fp_lt, ge_spec, gt_spec, le_spec, lt_spec};
use crate::binary64::FP;
use crate::polyval::{horner, lemma_horner_at_zero, polyval};
use crate::units::{Celsius, Millivolts};
use vstd::prelude::*;

verus! {

/// Coefficients of E(T) from -270 C to 0 C, lowest power first.
pub const T_TYPE_E_BELOW_0: [FP; 15] = [
    0x0000_0000_0000_0000,  // 0.000000000000E+00
    0x3FA3_D6CA_B33B_09D8,  // 0.387481063640E-01
    0x3F07_2BAD_3394_7FE1,  // 0.441944343470E-04
    0x3E7F_CB5B_5B38_A994,  // 0.118443231050E-06
    0x3E55_829F_30EE_81E6,  // 0.200329735540E-07
    0x3E0E_F89F_C1A9_459C,  // 0.901380195590E-09
    0x3DB8_E7BB_D8A5_03D6,  // 0.226511565930E-10
    0x3D59_6200_600A_5032,  // 0.360711542050E-12
    0x3CF1_560C_9265_3409,  // 0.384939398830E-14
    0x3C80_4394_B8F0_6D48,  // 0.282135219250E-16
    0x3C05_0819_AC03_0B54,  // 0.142515947790E-18
    0x3B82_6C9D_9818_8B7F,  // 0.487686622860E-21
    0x3AF4_E1B1_2EFC_7F20,  // 0.107955392700E-23
    0x3A5B_9EF8_0151_D8F7,  // 0.139450270620E-26
    0x39B0_2F33_8678_9393,  // 0.797951539270E-30
];

/// Coefficients of E(T) above 0 C, to 400 C, lowest power first.
pub const T_TYPE_E_ABOVE_0: [FP; 9] = [
    0x0000_0000_0000_0000,  //  0.000000000000E+00
    0x3FA3_D6CA_B33B_09D8,  //  0.387481063640E-01
    0x3F01_7468_3D59_59CF,  //  0.332922278800E-04
    0x3E8B_AC5F_DE8E_730B,  //  0.206182434040E-06
    0xBE22_CBF5_8C16_AB0C,  // -0.218822568460E-08
    0x3DA8_2EB1_902C_FDC5,  //  0.109968809280E-10
    0xBD21_5904_D4BC_F93E,  // -0.308157587720E-13
    0x3C8A_3789_273F_22AD,  //  0.454791352900E-16
    0xBBE0_3DA1_D49F_98F0,  // -0.275129016730E-19
];

/// Coefficients of T(E) from -5.603 mV to 0 mV, lowest power first.
pub const T_TYPE_T0: [FP; 8] = [
    0x0000_0000_0000_0000,  //  0.0000000E+00
    0x4039_F2FE_3F35_9FF5,  //  2.5949192E+01
    0xBFCB_4924_CC93_161D,  // -2.1316967E-01
    0x3FE9_4936_1464_1020,  //  7.9018692E-01
    0x3FDB_37C0_4077_696E,  //  4.2527777E-01
    0x3FC1_079C_1620_A8C2,  //  1.3304473E-01
    0x3F94_BA2C_7260_0001,  //  2.0241446E-02
    0x3F54_C16A_80ED_CA4A,  //  1.2668171E-03
];

/// Coefficients of T(E) from 0 mV to 20.872 mV, lowest power first.
pub const T_TYPE_T1: [FP; 8] = [
    0x0000_0000_0000_0000,  //  0.000000E+00
    0x4039_ED91_6872_B021,  //  2.592800E+01
    0xBFE8_5458_7C98_D7D3,  // -7.602961E-01
    0x3FA7_BED8_6D69_E5CD,  //  4.637791E-02
    0xBF61_BD29_0D36_EC9E,  // -2.165394E-03
    0x3F0F_B5AE_745B_6A5F,  //  6.048144E-05
    0xBEA8_7900_7584_A893,  // -7.293422E-07
    0x0000_0000_0000_0000,  //  0.000000E+00
];

/// The lowest temperature for which E(T) is published.
pub const LOWEST_TEMPERATURE: FP = 0xC070_E000_0000_0000;  // -270.0

/// The highest temperature for which E(T) is published.
pub const HIGHEST_TEMPERATURE: FP = 0x4079_0000_0000_0000;  // 400.0

/// The temperature up to which `T_TYPE_E_BELOW_0` holds.
pub const E_BREAK_0: FP = 0x0000_0000_0000_0000;  // 0.0

/// The lowest voltage that T(E) accepts: -5.603 mV, less a tolerance of 0.0005 mV.
pub const LOWEST_VOLTAGE: FP = 0xC016_69FB_E76C_8B43;  // -5.603 - 0.0005

/// The highest voltage that T(E) accepts: 20.872 mV, plus a tolerance of 0.0005 mV.
pub const HIGHEST_VOLTAGE: FP = 0x4034_DF5C_28F5_C28F;  // 20.872 + 0.0005

/// The voltage below which `T_TYPE_T0` holds.
pub const T_BREAK_0: FP = 0x0000_0000_0000_0000;  // 0.0

/// Whether `t` lies in the range for which E(T) is published, bounds included.
/// A NaN lies outside.
pub open spec fn e_defined(t: Celsius) -> bool {
    ge_spec(t.0, LOWEST_TEMPERATURE) && le_spec(t.0, HIGHEST_TEMPERATURE)
}

/// E(T) at `t`: the polynomial of the stretch that holds `t`. A breakpoint
/// belongs to the stretch below it.
pub open spec fn e_spec(t: Celsius) -> Millivolts {
    Millivolts(
        if !gt_spec(t.0, E_BREAK_0) {
            horner(T_TYPE_E_BELOW_0@, t.0)
        } else {
            horner(T_TYPE_E_ABOVE_0@, t.0)
        },
    )
}

/// Whether `e` lies in the range that T(E) accepts, bounds included. A NaN
/// lies outside.
pub open spec fn t_defined(e: Millivolts) -> bool {
    ge_spec(e.0, LOWEST_VOLTAGE) && le_spec(e.0, HIGHEST_VOLTAGE)
}

/// T(E) at `e`: the polynomial of the stretch that holds `e`. A breakpoint
/// belongs to the stretch above it.
pub open spec fn t_spec(e: Millivolts) -> Celsius {
    Celsius(
        if lt_spec(e.0, T_BREAK_0) {
            horner(T_TYPE_T0@, e.0)
        } else {
            horner(T_TYPE_T1@, e.0)
        },
    )
}

/// Whether E(T) is published for `t`.
pub fn e_in_range(t: Celsius) -> (r: bool)
    ensures
        r == e_defined(t),
{
    fp_ge(t.0, LOWEST_TEMPERATURE) && fp_le(t.0, HIGHEST_TEMPERATURE)
}

/// Whether T(E) accepts `e`.
pub fn t_in_range(e: Millivolts) -> (r: bool)
    ensures
        r == t_defined(e),
{
    fp_ge(e.0, LOWEST_VOLTAGE) && fp_le(e.0, HIGHEST_VOLTAGE)
}

/// E(T) in millivolts at any `t`, in or out of the published range. Out of it
/// the nearest stretch is continued, and nothing is promised of its accuracy.
pub fn e_extrapolated(t: Celsius) -> (r: Millivolts)
    ensures
        r == e_spec(t),
{
    let t: FP = t.0;
    let e: FP = if !fp_gt(t, E_BREAK_0) {
        polyval(T_TYPE_E_BELOW_0, t)
    } else {
        polyval(T_TYPE_E_ABOVE_0, t)
    };
    Millivolts(e)
}

/// E(T) in millivolts for `t` from -270 C to 400 C.
pub fn e(t: Celsius) -> (r: Millivolts)
    requires
        e_defined(t),
    ensures
        r == e_spec(t),
{
    e_extrapolated(t)
}

/// T(E) in degrees Celsius at any `e`, in or out of the accepted range. Out of
/// it the nearest stretch is continued, and nothing is promised of its accuracy.
pub fn t_extrapolated(e: Millivolts) -> (r: Celsius)
    ensures
        r == t_spec(e),
{
    let e: FP = e.0;
    let t: FP = if fp_lt(e, T_BREAK_0) {
        polyval(T_TYPE_T0, e)
    } else {
        polyval(T_TYPE_T1, e)
    };
    Celsius(t)
}

/// T(E) in degrees Celsius for `e` from -5.603 mV to 20.872 mV.
pub fn t(e: Millivolts) -> (r: Celsius)
    requires
        t_defined(e),
    ensures
        r == t_spec(e),
{
    t_extrapolated(e)
}

/// E(T) is zero at 0 C: the reference functions take the voltage against a
/// reference junction at 0 C.
pub proof fn lemma_e_zero_at_zero()
    ensures
        e_defined(Celsius(0)),
        e_spec(Celsius(0)) == Millivolts(0),
{
    lemma_horner_at_zero(T_TYPE_E_BELOW_0@);
}

/// E(T) is defined for no temperature below the lowest or above the highest
/// of its range, however near.
pub proof fn lemma_e_undefined_outside(t: Celsius)
    requires
        lt_spec(t.0, LOWEST_TEMPERATURE) || gt_spec(t.0, HIGHEST_TEMPERATURE),
    ensures
        !e_defined(t),
{
}

/// T(E) accepts no voltage below the lowest or above the highest of its
/// range, however near.
pub proof fn lemma_t_undefined_outside(e: Millivolts)
    requires
        lt_spec(e.0, LOWEST_VOLTAGE) || gt_spec(e.0, HIGHEST_VOLTAGE),
    ensures
        !t_defined(e),
{
}

} // verus!
