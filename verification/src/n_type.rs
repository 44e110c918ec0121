//! Type N thermocouple (nicrosil-nisil): the ITS-90 reference functions.
//!
//! `e` gives the thermoelectric voltage E(T) in millivolts for a temperature in
//! degrees Celsius, `t` the temperature T(E) for a voltage. Each is a
//! polynomial, with one set of coefficients for each stretch of its range.
use crate::arith::{fp_ge, fp_gt, fp_le, fp_lt, ge_spec, gt_spec, le_spec, lt_spec};
use crate::binary64::FP;
use crate::polyval::{horner, lemma_horner_at_zero, polyval};
use crate::units::{Celsius, Millivolts};
use vstd::prelude::*;

verus! {

/// Coefficients of E(T) from -270 C to 0 C, lowest power first.
pub const N_TYPE_E_BELOW_0: [FP; 9] = [
    0x0000_0000_0000_0000,  //  0.000000000000E+00
    0x3F9A_C973_E265_C621,  //  0.261591059620E-01
    0x3EE6_FAC1_2A3C_471C,  //  0.109574842280E-04
    0xBE79_30B6_4B06_D110,  // -0.938411115540E-07
    0xBDC9_83E9_F5AF_C1EA,  // -0.464120397590E-10
    0xBD87_22FD_5673_F9AA,  // -0.263033577160E-11
    0xBD19_8168_B163_76BF,  // -0.226534380030E-13
    0xBC95_EE66_414A_685C,  // -0.760893007910E-16
    0xBBFB_9297_2D14_28D9,  // -0.934196678350E-19
];

/// Coefficients of E(T) above 0 C, to 1300 C, lowest power first.
pub const N_TYPE_E_ABOVE_0: [FP; 11] = [
    0x0000_0000_0000_0000,  //  0.000000000000E+00
    0x3F9A_8D3C_3743_F78A,  //  0.259293946010E-01
    0x3EF0_7928_BABC_B4A4,  //  0.157101418800E-04
    0x3E67_8759_2CFC_D77A,  //  0.438256272370E-07
    0xBDF1_5BFD_F2DE_CA5A,  // -0.252611697940E-09
    0x3D66_A0B1_971F_A2BB,  //  0.643118193390E-12
    0xBCD2_20F5_03DB_5D11,  // -0.100634715190E-14
    0x3C32_6657_282C_FC53,  //  0.997453389920E-18
    0xBB86_FE54_F920_B4C8,  // -0.608632456070E-21
    0x3AD0_219D_85FF_D8FC,  //  0.208492293390E-24
    0xBA03_7278_90C4_C220,  // -0.306821961510E-28
];

/// Coefficients of T(E) from -3.990 mV to 0 mV, lowest power first.
pub const N_TYPE_T0: [FP; 10] = [
    0x0000_0000_0000_0000,  // 0.0000000E+00
    0x4043_37EA_9A3D_2D88,  // 3.8436847E+01
    0x3FF1_9DE5_082C_F52C,  // 1.1010485E+00
    0x4014_E448_1395_083A,  // 5.2229312E+00
    0x401C_D2FF_6D33_0942,  // 7.2060525E+00
    0x4017_653B_3057_B6A0,  // 5.8488586E+00
    0x4006_3434_F0A2_94EB,  // 2.7754916E+00
    0x3FE8_A9FF_62A1_34EE,  // 7.7075166E-01
    0x3FBD_A6D0_B9C1_574E,  // 1.1582665E-01
    0x3F7D_F52A_89CD_65FD,  // 7.3138868E-03
];

/// Coefficients of T(E) from 0 mV to 20.613 mV, lowest power first.
pub const N_TYPE_T1: [FP; 10] = [
    0x0000_0000_0000_0000,  //  0.00000E+00
    0x4043_5844_D013_A92A,  //  3.86896E+01
    0xBFF1_529D_C725_C3DF,  // -1.08267E+00
    0x3FA8_1312_2B7B_AECD,  //  4.70205E-02
    0xBEC1_CC4B_69AB_2A69,  // -2.12169E-06
    0xBF1E_BDFD_9E73_3F8A,  // -1.17272E-04
    0x3ED6_9E79_9399_EF38,  //  5.39280E-06
    0xBE75_6CE2_E26B_1927,  // -7.98156E-08
    0x0000_0000_0000_0000,  //  0.00000E+00
    0x0000_0000_0000_0000,  //  0.00000E+00
];

/// Coefficients of T(E) from 20.613 mV to 47.513 mV, lowest power first.
pub const N_TYPE_T2: [FP; 10] = [
    0x4033_B98F_C504_816F,  //  1.972485E+01
    0x4040_8135_0092_CCF7,  //  3.300943E+01
    0xBFD9_0E98_B497_4BE1,  // -3.915159E-01
    0x3F84_2F10_3046_3B45,  //  9.855391E-03
    0xBF20_B414_5A85_25A7,  // -1.274371E-04
    0x3EAA_0FD2_334F_EE58,  //  7.767022E-07
    0x0000_0000_0000_0000,  //  0.000000E+00
    0x0000_0000_0000_0000,  //  0.000000E+00
    0x0000_0000_0000_0000,  //  0.000000E+00
    0x0000_0000_0000_0000,  //  0.000000E+00
];

/// The lowest temperature for which E(T) is published.
pub const LOWEST_TEMPERATURE: FP = 0xC070_E000_0000_0000;  // -270.0

/// The highest temperature for which E(T) is published.
pub const HIGHEST_TEMPERATURE: FP = 0x4094_5000_0000_0000;  // 1300.0

/// The temperature up to which `N_TYPE_E_BELOW_0` holds.
pub const E_BREAK_0: FP = 0x0000_0000_0000_0000;  // 0.0

/// The lowest voltage that T(E) accepts: -3.990 mV, less a tolerance of 0.0005 mV.
pub const LOWEST_VOLTAGE: FP = 0xC00F_EC8B_4395_8107;  // -3.990 - 0.0005

/// The highest voltage that T(E) accepts: 47.513 mV, plus a tolerance of 0.0005 mV.
pub const HIGHEST_VOLTAGE: FP = 0x4047_C1BA_5E35_3F7D;  // 47.513 + 0.0005

/// The voltage below which `N_TYPE_T0` holds.
pub const T_BREAK_0: FP = 0x0000_0000_0000_0000;  // 0.0

/// The voltage below which `N_TYPE_T1` holds.
pub const T_BREAK_1: FP = 0x4034_9CED_9168_72B0;  // 20.613

/// Whether `t` lies in the range for which E(T) is published, bounds included.
/// A NaN lies outside.
pub open spec fn e_defined(t: Celsius) -> bool {
    ge_spec(t.0, LOWEST_TEMPERATURE) && le_spec(t.0, HIGHEST_TEMPERATURE)
}

/// E(T) at `t`: the polynomial of the stretch that holds `t`. A breakpoint
/// belongs to the stretch below it.
pub open spec fn e_spec(t: Celsius) -> Millivolts {
    Millivolts(
        if !gt_spec(t.0, E_BREAK_0) {
            horner(N_TYPE_E_BELOW_0@, t.0)
        } else {
            horner(N_TYPE_E_ABOVE_0@, t.0)
        },
    )
}

/// Whether `e` lies in the range that T(E) accepts, bounds included. A NaN
/// lies outside.
pub open spec fn t_defined(e: Millivolts) -> bool {
    ge_spec(e.0, LOWEST_VOLTAGE) && le_spec(e.0, HIGHEST_VOLTAGE)
}

/// T(E) at `e`: the polynomial of the stretch that holds `e`. A breakpoint
/// belongs to the stretch above it.
pub open spec fn t_spec(e: Millivolts) -> Celsius {
    Celsius(
        if lt_spec(e.0, T_BREAK_0) {
            horner(N_TYPE_T0@, e.0)
        } else if lt_spec(e.0, T_BREAK_1) {
            horner(N_TYPE_T1@, e.0)
        } else {
            horner(N_TYPE_T2@, e.0)
        },
    )
}

/// Whether E(T) is published for `t`.
pub fn e_in_range(t: Celsius) -> (r: bool)
    ensures
        r == e_defined(t),
{
    fp_ge(t.0, LOWEST_TEMPERATURE) && fp_le(t.0, HIGHEST_TEMPERATURE)
}

/// Whether T(E) accepts `e`.
pub fn t_in_range(e: Millivolts) -> (r: bool)
    ensures
        r == t_defined(e),
{
    fp_ge(e.0, LOWEST_VOLTAGE) && fp_le(e.0, HIGHEST_VOLTAGE)
}

/// E(T) in millivolts at any `t`, in or out of the published range. Out of it
/// the nearest stretch is continued, and nothing is promised of its accuracy.
pub fn e_extrapolated(t: Celsius) -> (r: Millivolts)
    ensures
        r == e_spec(t),
{
    let t: FP = t.0;
    let e: FP = if !fp_gt(t, E_BREAK_0) {
        polyval(N_TYPE_E_BELOW_0, t)
    } else {
        polyval(N_TYPE_E_ABOVE_0, t)
    };
    Millivolts(e)
}

/// E(T) in millivolts for `t` from -270 C to 1300 C.
pub fn e(t: Celsius) -> (r: Millivolts)
    requires
        e_defined(t),
    ensures
        r == e_spec(t),
{
    e_extrapolated(t)
}

/// T(E) in degrees Celsius at any `e`, in or out of the accepted range. Out of
/// it the nearest stretch is continued, and nothing is promised of its accuracy.
pub fn t_extrapolated(e: Millivolts) -> (r: Celsius)
    ensures
        r == t_spec(e),
{
    let e: FP = e.0;
    let t: FP = if fp_lt(e, T_BREAK_0) {
        polyval(N_TYPE_T0, e)
    } else if fp_lt(e, T_BREAK_1) {
        polyval(N_TYPE_T1, e)
    } else {
        polyval(N_TYPE_T2, e)
    };
    Celsius(t)
}

/// T(E) in degrees Celsius for `e` from -3.990 mV to 47.513 mV.
pub fn t(e: Millivolts) -> (r: Celsius)
    requires
        t_defined(e),
    ensures
        r == t_spec(e),
{
    t_extrapolated(e)
}

/// E(T) is zero at 0 C: the reference functions take the voltage against a
/// reference junction at 0 C.
pub proof fn lemma_e_zero_at_zero()
    ensures
        e_defined(Celsius(0)),
        e_spec(Celsius(0)) == Millivolts(0),
{
    lemma_horner_at_zero(N_TYPE_E_BELOW_0@);
}

/// E(T) is defined for no temperature below the lowest or above the highest
/// of its range, however near.
pub proof fn lemma_e_undefined_outside(t: Celsius)
    requires
        lt_spec(t.0, LOWEST_TEMPERATURE) || gt_spec(t.0, HIGHEST_TEMPERATURE),
    ensures
        !e_defined(t),
{
}

/// T(E) accepts no voltage below the lowest or above the highest of its
/// range, however near.
pub proof fn lemma_t_undefined_outside(e: Millivolts)
    requires
        lt_spec(e.0, LOWEST_VOLTAGE) || gt_spec(e.0, HIGHEST_VOLTAGE),
    ensures
        !t_defined(e),
{
}

} // verus!
