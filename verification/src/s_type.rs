//! Type S thermocouple (platinum/rhodium alloy): the ITS-90 reference functions.
//!
//! `e` gives the thermoelectric voltage E(T) in millivolts for a temperature in
//! degrees Celsius, `t` the temperature T(E) for a voltage. Each is a
//! polynomial, with one set of coefficients for each stretch of its range.
use crate::arith::{fp_ge, fp_gt, fp_le, fp_lt, ge_spec, gt_spec, le_spec, lt_spec};
use crate::binary64::FP;
use crate::polyval::{horner, lemma_horner_at_zero, polyval};
use crate::units::{Celsius, Millivolts};
use vstd::prelude::*;

verus! {

/// Coefficients of E(T) from -50 C to 1064.18 C, lowest power first.
pub const S_TYPE_E_BELOW_1064_18: [FP; 9] = [
    0x0000_0000_0000_0000,  //  0.000000000000E+00
    0x3F76_2198_7E6D_1AEA,  //  0.540313308631E-02
    0x3EEA_690B_B2E5_3F15,  //  0.125934289740E-04
    0xBE58_F64E_4543_8BD0,  // -0.232477968689E-07
    0x3DC1_B427_1C25_2889,  //  0.322028823036E-10
    0xBD22_A8EA_BABB_A8BF,  // -0.331465196389E-13
    0x3C7D_7C3C_EEB9_303C,  //  0.255744251786E-16
    0xBBCD_87F3_0B68_F683,  // -0.125068871393E-19
    0x3B0A_409B_869D_78D2,  //  0.271443176145E-23
];

/// Coefficients of E(T) above 1064.18 C, to 1664.5 C, lowest power first.
pub const S_TYPE_E_ABOVE_1064_18_BELOW_1664_5: [FP; 5] = [
    0x3FF5_439A_291B_0842,  //  0.132900444085E+01
    0x3F6B_672B_30C7_0FFE,  //  0.334509311344E-02
    0x3EDB_76EA_CEFF_0434,  //  0.654805192818E-05
    0xBE1C_5274_7807_1A13,  // -0.164856259209E-08
    0x3D0D_4563_FBAD_1687,  //  0.129989605174E-13
];

/// Coefficients of E(T) above 1664.5 C, to 1768.1 C, lowest power first.
pub const S_TYPE_E_ABOVE_1664_5: [FP; 5] = [
    0x4062_541A_7B54_3CCC,  //  0.146628232636E+03
    0xBFD0_8A20_266F_3F00,  // -0.258430516752E+00
    0x3F25_74A5_196B_84DE,  //  0.163693574641E-03
    0xBE61_BD85_09C6_9EF5,  // -0.330439046987E-07
    0xBD05_3D50_7B64_3E6A,  // -0.943223690612E-14
];

/// Coefficients of T(E) from -0.235 mV to 1.874 mV, lowest power first.
pub const S_TYPE_T0: [FP; 10] = [
    0x0000_0000_0000_0000,  //  0.00000000E+00
    0x4067_1E61_F9F0_1B86,  //  1.84949460E+02
    0xC054_0339_DAED_2100,  // -8.00504062E+01
    0x4059_8F32_0D99_45B7,  //  1.02237430E+02
    0xC063_07F4_7735_C183,  // -1.52248592E+02
    0x4067_9A48_711D_798E,  //  1.88821343E+02
    0xC063_E2C0_0757_0C56,  // -1.59085941E+02
    0x4054_9360_E0EB_67C3,  //  8.23027880E+01
    0xC037_6B0E_C9C7_5ECF,  // -2.34181944E+01
    0x4006_6205_C96D_9CBC,  //  2.79786260E+00
];

/// Coefficients of T(E) from 1.874 mV to 11.950 mV, lowest power first.
pub const S_TYPE_T1: [FP; 10] = [
    0x4029_D484_497B_4922,  //  1.291507177E+01
    0x4062_5428_0750_565A,  //  1.466298863E+02
    0xC02E_B1BB_8CDE_7541,  // -1.534713402E+01
    0x4009_2AE5_B8E8_24A8,  //  3.145945973E+00
    0xBFDA_A514_E695_4087,  // -4.163257839E-01
    0x3FA0_5287_22BE_DCCD,  //  3.187963771E-02
    0xBF55_2985_3487_C709,  // -1.291637500E-03
    0x3EF6_E538_A789_DC10,  //  2.183475087E-05
    0xBE83_6D28_7B51_F64E,  // -1.447379511E-07
    0x3E41_A231_D0A8_BAE7,  //  8.211272125E-09
];

/// Coefficients of T(E) from 11.950 mV to 17.536 mV, lowest power first.
pub const S_TYPE_T2: [FP; 10] = [
    0xC054_3831_55C3_2B0D,  // -8.087801117E+01
    0x4064_4508_AFD1_EA43,  //  1.621573104E+02
    0xC021_12E0_8D8D_B67B,  // -8.536869453E+00
    0x3FDE_34BC_323B_5FA9,  //  4.719686976E-01
    0xBF8D_86A0_7BB4_A406,  // -1.441693666E-02
    0x3F2B_48C1_02D4_A46F,  //  2.081618890E-04
    0x0000_0000_0000_0000,  //  0.000000000E+00
    0x0000_0000_0000_0000,  //  0.000000000E+00
    0x0000_0000_0000_0000,  //  0.000000000E+00
    0x0000_0000_0000_0000,  //  0.000000000E+00
];

/// Coefficients of T(E) from 17.536 mV to 18.693 mV, lowest power first.
pub const S_TYPE_T3: [FP; 10] = [
    0x40EA_0B58_0A52_6959,  //  5.333875126E+04
    0xC0C8_2376_2435_696E,  // -1.235892298E+04
    0x4091_12A1_654D_61B3,  //  1.092657613E+03
    0xC045_5416_81CC_9E54,  // -4.265693686E+01
    0x3FE3_FDB5_EF20_F0CD,  //  6.247205420E-01
    0x0000_0000_0000_0000,  //  0.000000000E+00
    0x0000_0000_0000_0000,  //  0.000000000E+00
    0x0000_0000_0000_0000,  //  0.000000000E+00
    0x0000_0000_0000_0000,  //  0.000000000E+00
    0x0000_0000_0000_0000,  //  0.000000000E+00
];

/// The lowest temperature for which E(T) is published.
pub const LOWEST_TEMPERATURE: FP = 0xC049_0000_0000_0000;  // -50.0

/// The highest temperature for which E(T) is published.
pub const HIGHEST_TEMPERATURE: FP = 0x409B_A066_6666_6666;  // 1768.1

/// The temperature up to which `S_TYPE_E_BELOW_1064_18` holds.
pub const E_BREAK_0: FP = 0x4090_A0B8_51EB_851F;  // 1064.18

/// The temperature up to which `S_TYPE_E_ABOVE_1064_18_BELOW_1664_5` holds.
pub const E_BREAK_1: FP = 0x409A_0200_0000_0000;  // 1664.5

/// The lowest voltage that T(E) accepts: -0.235 mV, less a tolerance of 0.00056 mV.
pub const LOWEST_VOLTAGE: FP = 0xBFCE_26D4_801F_7510;  // -0.235 - 0.00056

/// The highest voltage that T(E) accepts: 18.693 mV, plus a tolerance of 0.00056 mV.
pub const HIGHEST_VOLTAGE: FP = 0x4032_B18D_25ED_D053;  // 18.693 + 0.00056

/// The voltage below which `S_TYPE_T0` holds.
pub const T_BREAK_0: FP = 0x3FFD_FBE7_6C8B_4396;  // 1.874

/// The voltage below which `S_TYPE_T1` holds.
pub const T_BREAK_1: FP = 0x4027_E666_6666_6666;  // 11.950

/// The voltage below which `S_TYPE_T2` holds.
pub const T_BREAK_2: FP = 0x4031_8937_4BC6_A7F0;  // 17.536

/// Whether `t` lies in the range for which E(T) is published, bounds included.
/// A NaN lies outside.
pub open spec fn e_defined(t: Celsius) -> bool {
    ge_spec(t.0, LOWEST_TEMPERATURE) && le_spec(t.0, HIGHEST_TEMPERATURE)
}

/// E(T) at `t`: the polynomial of the stretch that holds `t`. A breakpoint
/// belongs to the stretch below it.
pub open spec fn e_spec(t: Celsius) -> Millivolts {
    Millivolts(
        if !gt_spec(t.0, E_BREAK_0) {
            horner(S_TYPE_E_BELOW_1064_18@, t.0)
        } else if !gt_spec(t.0, E_BREAK_1) {
            horner(S_TYPE_E_ABOVE_1064_18_BELOW_1664_5@, t.0)
        } else {
            horner(S_TYPE_E_ABOVE_1664_5@, t.0)
        },
    )
}

/// Whether `e` lies in the range that T(E) accepts, bounds included. A NaN
/// lies outside.
pub open spec fn t_defined(e: Millivolts) -> bool {
    ge_spec(e.0, LOWEST_VOLTAGE) && le_spec(e.0, HIGHEST_VOLTAGE)
}

/// T(E) at `e`: the polynomial of the stretch that holds `e`. A breakpoint
/// belongs to the stretch above it.
pub open spec fn t_spec(e: Millivolts) -> Celsius {
    Celsius(
        if lt_spec(e.0, T_BREAK_0) {
            horner(S_TYPE_T0@, e.0)
        } else if lt_spec(e.0, T_BREAK_1) {
            horner(S_TYPE_T1@, e.0)
        } else if lt_spec(e.0, T_BREAK_2) {
            horner(S_TYPE_T2@, e.0)
        } else {
            horner(S_TYPE_T3@, e.0)
        },
    )
}

/// Whether E(T) is published for `t`.
pub fn e_in_range(t: Celsius) -> (r: bool)
    ensures
        r == e_defined(t),
{
    fp_ge(t.0, LOWEST_TEMPERATURE) && fp_le(t.0, HIGHEST_TEMPERATURE)
}

/// Whether T(E) accepts `e`.
pub fn t_in_range(e: Millivolts) -> (r: bool)
    ensures
        r == t_defined(e),
{
    fp_ge(e.0, LOWEST_VOLTAGE) && fp_le(e.0, HIGHEST_VOLTAGE)
}

/// E(T) in millivolts at any `t`, in or out of the published range. Out of it
/// the nearest stretch is continued, and nothing is promised of its accuracy.
pub fn e_extrapolated(t: Celsius) -> (r: Millivolts)
    ensures
        r == e_spec(t),
{
    let t: FP = t.0;
    let e: FP = if !fp_gt(t, E_BREAK_0) {
        polyval(S_TYPE_E_BELOW_1064_18, t)
    } else if !fp_gt(t, E_BREAK_1) {
        polyval(S_TYPE_E_ABOVE_1064_18_BELOW_1664_5, t)
    } else {
        polyval(S_TYPE_E_ABOVE_1664_5, t)
    };
    Millivolts(e)
}

/// E(T) in millivolts for `t` from -50 C to 1768.1 C.
pub fn e(t: Celsius) -> (r: Millivolts)
    requires
        e_defined(t),
    ensures
        r == e_spec(t),
{
    e_extrapolated(t)
}

/// T(E) in degrees Celsius at any `e`, in or out of the accepted range. Out of
/// it the nearest stretch is continued, and nothing is promised of its accuracy.
pub fn t_extrapolated(e: Millivolts) -> (r: Celsius)
    ensures
        r == t_spec(e),
{
    let e: FP = e.0;
    let t: FP = if fp_lt(e, T_BREAK_0) {
        polyval(S_TYPE_T0, e)
    } else if fp_lt(e, T_BREAK_1) {
        polyval(S_TYPE_T1, e)
    } else if fp_lt(e, T_BREAK_2) {
        polyval(S_TYPE_T2, e)
    } else {
        polyval(S_TYPE_T3, e)
    };
    Celsius(t)
}

/// T(E) in degrees Celsius for `e` from -0.235 mV to 18.693 mV.
pub fn t(e: Millivolts) -> (r: Celsius)
    requires
        t_defined(e),
    ensures
        r == t_spec(e),
{
    t_extrapolated(e)
}

/// E(T) is zero at 0 C: the reference functions take the voltage against a
/// reference junction at 0 C.
pub proof fn lemma_e_zero_at_zero()
    ensures
        e_defined(Celsius(0)),
        e_spec(Celsius(0)) == Millivolts(0),
{
    lemma_horner_at_zero(S_TYPE_E_BELOW_1064_18@);
}

/// E(T) is defined for no temperature below the lowest or above the highest
/// of its range, however near.
pub proof fn lemma_e_undefined_outside(t: Celsius)
    requires
        lt_spec(t.0, LOWEST_TEMPERATURE) || gt_spec(t.0, HIGHEST_TEMPERATURE),
    ensures
        !e_defined(t),
{
}

/// T(E) accepts no voltage below the lowest or above the highest of its
/// range, however near.
pub proof fn lemma_t_undefined_outside(e: Millivolts)
    requires
        lt_spec(e.0, LOWEST_VOLTAGE) || gt_spec(e.0, HIGHEST_VOLTAGE),
    ensures
        !t_defined(e),
{
}

} // verus!
