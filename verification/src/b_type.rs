//! Type B thermocouple (platinum/rhodium alloy): the ITS-90 reference functions.
//!
//! `e` gives the thermoelectric voltage E(T) in millivolts for a temperature in
//! degrees Celsius, `t` the temperature T(E) for a voltage. Each is a
//! polynomial, with one set of coefficients for each stretch of its range.
use crate::arith::{fp_ge, fp_gt, fp_le, fp_lt, ge_spec, gt_spec, le_spec, lt_spec};
use crate::binary64::FP;
use crate::polyval::{horner, lemma_horner_at_zero, polyval};
use crate::units::{Celsius, Millivolts};
use vstd::prelude::*;

verus! {

/// Coefficients of E(T) from 0 C to 630.615 C, lowest power first.
pub const B_TYPE_E_BELOW_630_615: [FP; 7] = [
    0x0000_0000_0000_0000,  //  0.000000000000E+00
    0xBF30_27B8_960E_63BE,  // -0.246508183460E-03
    0x3ED8_C36A_BD5A_3481,  //  0.590404211710E-05
    0xBE16_C6E6_663E_6969,  // -0.132579316360E-08
    0x3D7B_905F_113B_5C4A,  //  0.156682919010E-11
    0xBCDE_8648_EC7C_7C9A,  // -0.169445292400E-14
    0x3C27_3D45_23C7_DDF4,  //  0.629903470940E-18
];

/// Coefficients of E(T) above 630.615 C, to 1820 C, lowest power first.
pub const B_TYPE_E_ABOVE_630_615: [FP; 9] = [
    0xC00F_2689_747A_A9A9,  // -0.389381686210E+01
    0x3F9D_41E9_83E4_93FA,  //  0.285717474700E-01
    0xBF16_408A_FEF1_C204,  // -0.848851047850E-04
    0x3E85_2FC7_ED52_98F5,  //  0.157852801640E-06
    0xBDE7_2369_0E9F_A1AC,  // -0.168353448640E-09
    0x3D3F_4573_44C9_2842,  //  0.111097940130E-12
    0xBC89_A951_6F93_9866,  // -0.445154310330E-16
    0x3BC7_5EB5_DBCB_C57D,  //  0.989756408210E-20
    0xBAF2_2452_5C82_C7C4,  // -0.937913302890E-24
];

/// Coefficients of T(E) from 0.291 mV to 2.431 mV, lowest power first.
pub const B_TYPE_T0: [FP; 9] = [
    0x4058_9B17_B0F6_AD71,  //  9.8423321E+01
    0x4085_DDB8_51EB_851F,  //  6.9971500E+02
    0xC08A_7D39_6D09_17D7,  // -8.4765304E+02
    0x408F_6A1D_7DBF_4880,  //  1.0052644E+03
    0xC08A_0BAD_18D2_5EDD,  // -8.3345952E+02
    0x407C_715D_E15C_A6CA,  //  4.5508542E+02
    0xC063_675F_30E7_FF58,  // -1.5523037E+02
    0x403D_E302_0C49_BA5E,  //  2.9886750E+01
    0xC003_CB56_7557_9AF2,  // -2.4742860E+00
];

/// Coefficients of T(E) from 2.431 mV to 13.820 mV, lowest power first.
pub const B_TYPE_T1: [FP; 9] = [
    0x406A_A4D2_9DC7_25C4,  //  2.1315071E+02
    0x4071_D1AE_3E6C_4C59,  //  2.8510504E+02
    0xC04A_5F16_EBD4_CFD1,  // -5.2742887E+01
    0x4023_D508_7D7D_0361,  //  9.9160804E+00
    0xBFF4_BE96_8E4C_5E7D,  // -1.2965303E+00
    0x3FBC_A953_4B00_AF52,  //  1.1195870E-01
    0xBF78_D503_4B3A_C637,  // -6.0625199E-03
    0x3F28_75D3_7AEB_A079,  //  1.8661696E-04
    0xBEC4_DEA2_ACAC_6778,  // -2.4878585E-06
];

/// The lowest temperature for which E(T) is published.
pub const LOWEST_TEMPERATURE: FP = 0x0000_0000_0000_0000;  // 0.0

/// The highest temperature for which E(T) is published.
pub const HIGHEST_TEMPERATURE: FP = 0x409C_7000_0000_0000;  // 1820.0

/// The temperature up to which `B_TYPE_E_BELOW_630_615` holds.
pub const E_BREAK_0: FP = 0x4083_B4EB_851E_B852;  // 630.615

/// The lowest voltage that T(E) accepts: 0.291 mV, less a tolerance of 0.0005 mV.
pub const LOWEST_VOLTAGE: FP = 0x3FD2_978D_4FDF_3B64;  // 0.291 - 0.0005

/// The highest voltage that T(E) accepts: 13.82 mV, plus a tolerance of 0.0005 mV.
pub const HIGHEST_VOLTAGE: FP = 0x402B_A418_9374_BC6B;  // 13.82 + 0.0005

/// The voltage below which `B_TYPE_T0` holds.
pub const T_BREAK_0: FP = 0x4003_72B0_20C4_9BA6;  // 2.431

/// Whether `t` lies in the range for which E(T) is published, bounds included.
/// A NaN lies outside.
pub open spec fn e_defined(t: Celsius) -> bool {
    ge_spec(t.0, LOWEST_TEMPERATURE) && le_spec(t.0, HIGHEST_TEMPERATURE)
}

/// E(T) at `t`: the polynomial of the stretch that holds `t`. A breakpoint
/// belongs to the stretch below it.
pub open spec fn e_spec(t: Celsius) -> Millivolts {
    Millivolts(
        if !gt_spec(t.0, E_BREAK_0) {
            horner(B_TYPE_E_BELOW_630_615@, t.0)
        } else {
            horner(B_TYPE_E_ABOVE_630_615@, t.0)
        },
    )
}

/// Whether `e` lies in the range that T(E) accepts, bounds included. A NaN
/// lies outside.
pub open spec fn t_defined(e: Millivolts) -> bool {
    ge_spec(e.0, LOWEST_VOLTAGE) && le_spec(e.0, HIGHEST_VOLTAGE)
}

/// T(E) at `e`: the polynomial of the stretch that holds `e`. A breakpoint
/// belongs to the stretch above it.
pub open spec fn t_spec(e: Millivolts) -> Celsius {
    Celsius(
        if lt_spec(e.0, T_BREAK_0) {
            horner(B_TYPE_T0@, e.0)
        } else {
            horner(B_TYPE_T1@, e.0)
        },
    )
}

/// Whether E(T) is published for `t`.
pub fn e_in_range(t: Celsius) -> (r: bool)
    ensures
        r == e_defined(t),
{
    fp_ge(t.0, LOWEST_TEMPERATURE) && fp_le(t.0, HIGHEST_TEMPERATURE)
}

/// Whether T(E) accepts `e`.
pub fn t_in_range(e: Millivolts) -> (r: bool)
    ensures
        r == t_defined(e),
{
    fp_ge(e.0, LOWEST_VOLTAGE) && fp_le(e.0, HIGHEST_VOLTAGE)
}

/// E(T) in millivolts at any `t`, in or out of the published range. Out of it
/// the nearest stretch is continued, and nothing is promised of its accuracy.
pub fn e_extrapolated(t: Celsius) -> (r: Millivolts)
    ensures
        r == e_spec(t),
{
    let t: FP = t.0;
    let e: FP = if !fp_gt(t, E_BREAK_0) {
        polyval(B_TYPE_E_BELOW_630_615, t)
    } else {
        polyval(B_TYPE_E_ABOVE_630_615, t)
    };
    Millivolts(e)
}

/// E(T) in millivolts for `t` from 0 C to 1820 C.
pub fn e(t: Celsius) -> (r: Millivolts)
    requires
        e_defined(t),
    ensures
        r == e_spec(t),
{
    e_extrapolated(t)
}

/// T(E) in degrees Celsius at any `e`, in or out of the accepted range. Out of
/// it the nearest stretch is continued, and nothing is promised of its accuracy.
pub fn t_extrapolated(e: Millivolts) -> (r: Celsius)
    ensures
        r == t_spec(e),
{
    let e: FP = e.0;
    let t: FP = if fp_lt(e, T_BREAK_0) {
        polyval(B_TYPE_T0, e)
    } else {
        polyval(B_TYPE_T1, e)
    };
    Celsius(t)
}

/// T(E) in degrees Celsius for `e` from 0.291 mV to 13.82 mV.
pub fn t(e: Millivolts) -> (r: Celsius)
    requires
        t_defined(e),
    ensures
        r == t_spec(e),
{
    t_extrapolated(e)
}

/// E(T) is zero at 0 C: the reference functions take the voltage against a
/// reference junction at 0 C.
pub proof fn lemma_e_zero_at_zero()
    ensures
        e_defined(Celsius(0)),
        e_spec(Celsius(0)) == Millivolts(0),
{
    lemma_horner_at_zero(B_TYPE_E_BELOW_630_615@);
}

/// E(T) is defined for no temperature below the lowest or above the highest
/// of its range, however near.
pub proof fn lemma_e_undefined_outside(t: Celsius)
    requires
        lt_spec(t.0, LOWEST_TEMPERATURE) || gt_spec(t.0, HIGHEST_TEMPERATURE),
    ensures
        !e_defined(t),
{
}

/// T(E) accepts no voltage below the lowest or above the highest of its
/// range, however near.
pub proof fn lemma_t_undefined_outside(e: Millivolts)
    requires
        lt_spec(e.0, LOWEST_VOLTAGE) || gt_spec(e.0, HIGHEST_VOLTAGE),
    ensures
        !t_defined(e),
{
}

} // verus!
