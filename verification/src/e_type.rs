//! Type E thermocouple (chromel-constantan): the ITS-90 reference functions.
//!
//! `e` gives the thermoelectric voltage E(T) in millivolts for a temperature in
//! degrees Celsius, `t` the temperature T(E) for a voltage. Each is a
//! polynomial, with one set of coefficients for each stretch of its range.
use crate::arith::{fp_ge, fp_gt, fp_le, fp_lt, ge_spec, gt_spec, le_spec, lt_spec};
use crate::binary64::FP;
use crate::polyval::{horner, lemma_horner_at_zero, polyval};
use crate::units::{Celsius, Millivolts};
use vstd::prelude::*;

verus! {

/// Coefficients of E(T) from -270 C to 0 C, lowest power first.
pub const E_TYPE_E_BELOW_0: [FP; 14] = [
    0x0000_0000_0000_0000,  //  0.000000000000E+00
    0x3FAE_0967_D29B_AE2C,  //  0.586655087080E-01
    0x3F07_CEF5_4B03_1698,  //  0.454109771240E-04
    0xBEAA_2BFB_3ABF_5397,  // -0.779980486860E-06
    0xBE5B_B3E4_EB08_D743,  // -0.258001608430E-07
    0xBE04_6D81_278D_E00B,  // -0.594525830570E-09
    0xBDA4_7F7C_28DC_41D2,  // -0.932140586670E-11
    0xBD3C_F500_43A0_A124,  // -0.102876055340E-12
    0xBCCC_F4D5_E3DA_F084,  // -0.803701236210E-15
    0xBC54_482E_BF8C_BECD,  // -0.439794973910E-17
    0xBBD3_610F_CE2C_1C91,  // -0.164147763550E-19
    0xBB47_FB31_FCBD_D101,  // -0.396736195160E-22
    0xBAB1_4718_BF89_D72B,  // -0.558273287210E-25
    0xBA05_F78E_6F04_71D5,  // -0.346578420130E-28
];

/// Coefficients of E(T) above 0 C, to 1000 C, lowest power first.
pub const E_TYPE_E_ABOVE_0: [FP; 11] = [
    0x0000_0000_0000_0000,  //  0.000000000000E+00
    0x3FAE_0967_D2A0_1413,  //  0.586655087100E-01
    0x3F07_9C21_3505_5ECF,  //  0.450322755820E-04
    0x3E5F_0A48_4FCA_95FB,  //  0.289084072120E-07
    0xBDF6_B76E_4641_AE7F,  // -0.330568966520E-09
    0x3D66_E0E0_A836_ABD1,  //  0.650244032700E-12
    0xBCAB_AAA0_2FBC_036B,  // -0.191974955040E-15
    0xBC37_203E_00CB_45B6,  // -0.125366004970E-17
    0x3BA4_4BC6_245F_4A06,  //  0.214892175690E-20
    0xBAFB_D49C_FAE8_3BFC,  // -0.143880417820E-23
    0x3A3C_7DBC_A770_019B,  //  0.359608994810E-27
];

/// Coefficients of T(E) from -8.825 mV to 0 mV, lowest power first.
pub const E_TYPE_T0: [FP; 10] = [
    0x0000_0000_0000_0000,  //  0.0000000E+00
    0x4030_FA2F_8BDE_C5F4,  //  1.6977288E+01
    0xBFDB_D97E_2097_4F3C,  // -4.3514970E-01
    0xBFC4_4CE7_CFB2_854E,  // -1.5859697E-01
    0xBFB7_AE44_A5BB_29D1,  // -9.2502871E-02
    0xBF9A_B5D8_AE46_3DC1,  // -2.6084314E-02
    0xBF70_F0EE_634C_34F5,  // -4.1360199E-03
    0xBF36_4DF6_7540_329B,  // -3.4034030E-04
    0xBEE8_40DA_60ED_295B,  // -1.1564890E-05
    0x0000_0000_0000_0000,  //  0.0000000E+00
];

/// Coefficients of T(E) from 0 mV to 76.373 mV, lowest power first.
pub const E_TYPE_T1: [FP; 10] = [
    0x0000_0000_0000_0000,  //  0.0000000E+00
    0x4031_0E99_D883_BA34,  //  1.7057035E+01
    0xBFCD_D385_3838_AB98,  // -2.3301759E-01
    0x3F7A_CD6B_1C1C_850B,  //  6.5435585E-03
    0xBF13_48B6_6796_2FF5,  // -7.3562749E-05
    0xBEBE_0646_1E78_0905,  // -1.7896001E-06
    0x3E76_8EEB_D961_3073,  //  8.4036165E-08
    0xBE17_991A_7D18_2D35,  // -1.3735879E-09
    0x3DA7_600E_F0DC_12DF,  //  1.0629823E-11
    0xBD22_441E_383B_2A13,  // -3.2447087E-14
];

/// The lowest temperature for which E(T) is published.
pub const LOWEST_TEMPERATURE: FP = 0xC070_E000_0000_0000;  // -270.0

/// The highest temperature for which E(T) is published.
pub const HIGHEST_TEMPERATURE: FP = 0x408F_4000_0000_0000;  // 1000.0

/// The temperature up to which `E_TYPE_E_BELOW_0` holds.
pub const E_BREAK_0: FP = 0x0000_0000_0000_0000;  // 0.0

/// The lowest voltage that T(E) accepts: -8.825 mV, less a tolerance of 0.0005 mV.
pub const LOWEST_VOLTAGE: FP = 0xC021_A6A7_EF9D_B22D;  // -8.825 - 0.0005

/// The highest voltage that T(E) accepts: 76.373 mV, plus a tolerance of 0.0005 mV.
pub const HIGHEST_VOLTAGE: FP = 0x4053_17E7_6C8B_4396;  // 76.373 + 0.0005

/// The voltage below which `E_TYPE_T0` holds.
pub const T_BREAK_0: FP = 0x0000_0000_0000_0000;  // 0.0

/// Whether `t` lies in the range for which E(T) is published, bounds included.
/// A NaN lies outside.
pub open spec fn e_defined(t: Celsius) -> bool {
    ge_spec(t.0, LOWEST_TEMPERATURE) && le_spec(t.0, HIGHEST_TEMPERATURE)
}

/// E(T) at `t`: the polynomial of the stretch that holds `t`. A breakpoint
/// belongs to the stretch below it.
pub open spec fn e_spec(t: Celsius) -> Millivolts {
    Millivolts(
        if !gt_spec(t.0, E_BREAK_0) {
            horner(E_TYPE_E_BELOW_0@, t.0)
        } else {
            horner(E_TYPE_E_ABOVE_0@, t.0)
        },
    )
}

/// Whether `e` lies in the range that T(E) accepts, bounds included. A NaN
/// lies outside.
pub open spec fn t_defined(e: Millivolts) -> bool {
    ge_spec(e.0, LOWEST_VOLTAGE) && le_spec(e.0, HIGHEST_VOLTAGE)
}

/// T(E) at `e`: the polynomial of the stretch that holds `e`. A breakpoint
/// belongs to the stretch above it.
pub open spec fn t_spec(e: Millivolts) -> Celsius {
    Celsius(
        if lt_spec(e.0, T_BREAK_0) {
            horner(E_TYPE_T0@, e.0)
        } else {
            horner(E_TYPE_T1@, e.0)
        },
    )
}

/// Whether E(T) is published for `t`.
pub fn e_in_range(t: Celsius) -> (r: bool)
    ensures
        r == e_defined(t),
{
    fp_ge(t.0, LOWEST_TEMPERATURE) && fp_le(t.0, HIGHEST_TEMPERATURE)
}

/// Whether T(E) accepts `e`.
pub fn t_in_range(e: Millivolts) -> (r: bool)
    ensures
        r == t_defined(e),
{
    fp_ge(e.0, LOWEST_VOLTAGE) && fp_le(e.0, HIGHEST_VOLTAGE)
}

/// E(T) in millivolts at any `t`, in or out of the published range. Out of it
/// the nearest stretch is continued, and nothing is promised of its accuracy.
pub fn e_extrapolated(t: Celsius) -> (r: Millivolts)
    ensures
        r == e_spec(t),
{
    let t: FP = t.0;
    let e: FP = if !fp_gt(t, E_BREAK_0) {
        polyval(E_TYPE_E_BELOW_0, t)
    } else {
        polyval(E_TYPE_E_ABOVE_0, t)
    };
    Millivolts(e)
}

/// E(T) in millivolts for `t` from -270 C to 1000 C.
pub fn e(t: Celsius) -> (r: Millivolts)
    requires
        e_defined(t),
    ensures
        r == e_spec(t),
{
    e_extrapolated(t)
}

/// T(E) in degrees Celsius at any `e`, in or out of the accepted range. Out of
/// it the nearest stretch is continued, and nothing is promised of its accuracy.
pub fn t_extrapolated(e: Millivolts) -> (r: Celsius)
    ensures
        r == t_spec(e),
{
    let e: FP = e.0;
    let t: FP = if fp_lt(e, T_BREAK_0) {
        polyval(E_TYPE_T0, e)
    } else {
        polyval(E_TYPE_T1, e)
    };
    Celsius(t)
}

/// T(E) in degrees Celsius for `e` from -8.825 mV to 76.373 mV.
pub fn t(e: Millivolts) -> (r: Celsius)
    requires
        t_defined(e),
    ensures
        r == t_spec(e),
{
    t_extrapolated(e)
}

/// E(T) is zero at 0 C: the reference functions take the voltage against a
/// reference junction at 0 C.
pub proof fn lemma_e_zero_at_zero()
    ensures
        e_defined(Celsius(0)),
        e_spec(Celsius(0)) == Millivolts(0),
{
    lemma_horner_at_zero(E_TYPE_E_BELOW_0@);
}

/// E(T) is defined for no temperature below the lowest or above the highest
/// of its range, however near.
pub proof fn lemma_e_undefined_outside(t: Celsius)
    requires
        lt_spec(t.0, LOWEST_TEMPERATURE) || gt_spec(t.0, HIGHEST_TEMPERATURE),
    ensures
        !e_defined(t),
{
}

/// T(E) accepts no voltage below the lowest or above the highest of its
/// range, however near.
pub proof fn lemma_t_undefined_outside(e: Millivolts)
    requires
        lt_spec(e.0, LOWEST_VOLTAGE) || gt_spec(e.0, HIGHEST_VOLTAGE),
    ensures
        !t_defined(e),
{
}

} // verus!
