//! Type J thermocouple (iron-constantan): the ITS-90 reference functions.
//!
//! `e` gives the thermoelectric voltage E(T) in millivolts for a temperature in
//! degrees Celsius, `t` the temperature T(E) for a voltage. Each is a
//! polynomial, with one set of coefficients for each stretch of its range.
use crate::arith::{fp_ge, fp_gt, fp_le, fp_lt, ge_spec, gt_spec, le_spec, lt_spec};
use crate::binary64::FP;
use crate::polyval::{horner, lemma_horner_at_zero, polyval};
use crate::units::{Celsius, Millivolts};
use vstd::prelude::*;

verus! {

/// Coefficients of E(T) from -210 C to 760 C, lowest power first.
pub const J_TYPE_E_BELOW_760: [FP; 9] = [
    0x0000_0000_0000_0000,  //  0.000000000000E+00
    0x3FA9_CB90_23FF_849F,  //  0.503811878150E-01
    0x3EFF_F4CB_9121_C083,  //  0.304758369300E-04
    0xBE76_FFF5_3FA6_3875,  // -0.856810657200E-07
    0x3DE2_2E41_E874_73D2,  //  0.132281952950E-09
    0xBD47_FFF9_CA6C_0F2B,  // -0.170529583370E-12
    0x3CAE_307B_3A4D_FD4C,  //  0.209480906970E-15
    0xBC02_80DF_304B_E56B,  // -0.125383953360E-18
    0x3B32_E5C8_E766_02E1,  //  0.156317256970E-22
];

/// Coefficients of E(T) above 760 C, to 1200 C, lowest power first.
pub const J_TYPE_E_ABOVE_760: [FP; 6] = [
    0x4072_874C_D3F0_D870,  //  0.296456256810E+03
    0xBFF7_F638_D122_89FD,  // -0.149761277860E+01
    0x3F6A_0A3D_25B8_D6BA,  //  0.317871039240E-02
    0xBECA_B73D_179F_6383,  // -0.318476867010E-05
    0x3E1B_0216_DD7E_5BE7,  //  0.157208190040E-08
    0xBD55_98DD_935B_CCB7,  // -0.306913690560E-12
];

/// Coefficients of T(E) from -8.095 mV to 0 mV, lowest power first.
pub const J_TYPE_T0: [FP; 9] = [
    0x0000_0000_0000_0000,  //  0.0000000E+00
    0x4033_873C_9257_85F9,  //  1.9528268E+01
    0xBFF3_A86B_DF4C_2B52,  // -1.2286185E+00
    0xBFF1_3417_9471_3BAC,  // -1.0752178E+00
    0xBFE2_E866_CC11_E6DD,  // -5.9086933E-01
    0xBFC6_16AE_01DB_7760,  // -1.7256713E-01
    0xBF9C_CE81_E149_BA11,  // -2.8131513E-02
    0xBF63_A17B_A172_3C44,  // -2.3963370E-03
    0xBF15_F949_B079_23AE,  // -8.3823321E-05
];

/// Coefficients of T(E) from 0 mV to 42.919 mV, lowest power first.
pub const J_TYPE_T1: [FP; 9] = [
    0x0000_0000_0000_0000,  //  0.000000E+00
    0x4033_C8C4_9BA5_E354,  //  1.978425E+01
    0xBFC9_9D8B_96A1_9795,  // -2.001204E-01
    0x3F85_3CB4_3B5B_75C8,  //  1.036969E-02
    0xBF30_B5AA_3A5E_723D,  // -2.549687E-04
    0x3ECE_130E_B496_EE03,  //  3.585153E-06
    0xBE6C_B121_1EB0_F4C1,  // -5.344285E-08
    0x3E01_85E9_229B_41A9,  //  5.099890E-10
    0x0000_0000_0000_0000,  //  0.000000E+00
];

/// Coefficients of T(E) from 42.919 mV to 69.553 mV, lowest power first.
pub const J_TYPE_T2: [FP; 9] = [
    0xC0A8_5329_EADD_590C,  // -3.11358187E+03
    0x4072_C8B2_EDFE_75BC,  //  3.00543684E+02
    0xC023_E53D_2B03_B9C9,  // -9.94773230E+00
    0x3FC5_CB9F_E68F_C17F,  //  1.70276630E-01
    0xBF57_6F42_2B11_5C64,  // -1.43033468E-03
    0x3ED3_E050_2624_BD11,  //  4.73886084E-06
    0x0000_0000_0000_0000,  //  0.00000000E+00
    0x0000_0000_0000_0000,  //  0.00000000E+00
    0x0000_0000_0000_0000,  //  0.00000000E+00
];

/// The lowest temperature for which E(T) is published.
pub const LOWEST_TEMPERATURE: FP = 0xC06A_4000_0000_0000;  // -210.0

/// The highest temperature for which E(T) is published.
pub const HIGHEST_TEMPERATURE: FP = 0x4092_C000_0000_0000;  // 1200.0

/// The temperature up to which `J_TYPE_E_BELOW_760` holds.
pub const E_BREAK_0: FP = 0x4087_C000_0000_0000;  // 760.0

/// The lowest voltage that T(E) accepts: -8.095 mV, less a tolerance of 0.0005 mV.
pub const LOWEST_VOLTAGE: FP = 0xC020_30E5_6041_8938;  // -8.095 - 0.0005

/// The highest voltage that T(E) accepts: 69.553 mV, plus a tolerance of 0.0005 mV.
pub const HIGHEST_VOLTAGE: FP = 0x4051_636C_8B43_9581;  // 69.553 + 0.0005

/// The voltage below which `J_TYPE_T0` holds.
pub const T_BREAK_0: FP = 0x0000_0000_0000_0000;  // 0.0

/// The voltage below which `J_TYPE_T1` holds.
pub const T_BREAK_1: FP = 0x4045_75A1_CAC0_8312;  // 42.919

/// Whether `t` lies in the range for which E(T) is published, bounds included.
/// A NaN lies outside.
pub open spec fn e_defined(t: Celsius) -> bool {
    ge_spec(t.0, LOWEST_TEMPERATURE) && le_spec(t.0, HIGHEST_TEMPERATURE)
}

/// E(T) at `t`: the polynomial of the stretch that holds `t`. A breakpoint
/// belongs to the stretch below it.
pub open spec fn e_spec(t: Celsius) -> Millivolts {
    Millivolts(
        if !gt_spec(t.0, E_BREAK_0) {
            horner(J_TYPE_E_BELOW_760@, t.0)
        } else {
            horner(J_TYPE_E_ABOVE_760@, t.0)
        },
    )
}

/// Whether `e` lies in the range that T(E) accepts, bounds included. A NaN
/// lies outside.
pub open spec fn t_defined(e: Millivolts) -> bool {
    ge_spec(e.0, LOWEST_VOLTAGE) && le_spec(e.0, HIGHEST_VOLTAGE)
}

/// T(E) at `e`: the polynomial of the stretch that holds `e`. A breakpoint
/// belongs to the stretch above it.
pub open spec fn t_spec(e: Millivolts) -> Celsius {
    Celsius(
        if lt_spec(e.0, T_BREAK_0) {
            horner(J_TYPE_T0@, e.0)
        } else if lt_spec(e.0, T_BREAK_1) {
            horner(J_TYPE_T1@, e.0)
        } else {
            horner(J_TYPE_T2@, e.0)
        },
    )
}

/// Whether E(T) is published for `t`.
pub fn e_in_range(t: Celsius) -> (r: bool)
    ensures
        r == e_defined(t),
{
    fp_ge(t.0, LOWEST_TEMPERATURE) && fp_le(t.0, HIGHEST_TEMPERATURE)
}

/// Whether T(E) accepts `e`.
pub fn t_in_range(e: Millivolts) -> (r: bool)
    ensures
        r == t_defined(e),
{
    fp_ge(e.0, LOWEST_VOLTAGE) && fp_le(e.0, HIGHEST_VOLTAGE)
}

/// E(T) in millivolts at any `t`, in or out of the published range. Out of it
/// the nearest stretch is continued, and nothing is promised of its accuracy.
pub fn e_extrapolated(t: Celsius) -> (r: Millivolts)
    ensures
        r == e_spec(t),
{
    let t: FP = t.0;
    let e: FP = if !fp_gt(t, E_BREAK_0) {
        polyval(J_TYPE_E_BELOW_760, t)
    } else {
        polyval(J_TYPE_E_ABOVE_760, t)
    };
    Millivolts(e)
}

/// E(T) in millivolts for `t` from -210 C to 1200 C.
pub fn e(t: Celsius) -> (r: Millivolts)
    requires
        e_defined(t),
    ensures
        r == e_spec(t),
{
    e_extrapolated(t)
}

/// T(E) in degrees Celsius at any `e`, in or out of the accepted range. Out of
/// it the nearest stretch is continued, and nothing is promised of its accuracy.
pub fn t_extrapolated(e: Millivolts) -> (r: Celsius)
    ensures
        r == t_spec(e),
{
    let e: FP = e.0;
    let t: FP = if fp_lt(e, T_BREAK_0) {
        polyval(J_TYPE_T0, e)
    } else if fp_lt(e, T_BREAK_1) {
        polyval(J_TYPE_T1, e)
    } else {
        polyval(J_TYPE_T2, e)
    };
    Celsius(t)
}

/// T(E) in degrees Celsius for `e` from -8.095 mV to 69.553 mV.
pub fn t(e: Millivolts) -> (r: Celsius)
    requires
        t_defined(e),
    ensures
        r == t_spec(e),
{
    t_extrapolated(e)
}

/// E(T) is zero at 0 C: the reference functions take the voltage against a
/// reference junction at 0 C.
pub proof fn lemma_e_zero_at_zero()
    ensures
        e_defined(Celsius(0)),
        e_spec(Celsius(0)) == Millivolts(0),
{
    lemma_horner_at_zero(J_TYPE_E_BELOW_760@);
}

/// E(T) is defined for no temperature below the lowest or above the highest
/// of its range, however near.
pub proof fn lemma_e_undefined_outside(t: Celsius)
    requires
        lt_spec(t.0, LOWEST_TEMPERATURE) || gt_spec(t.0, HIGHEST_TEMPERATURE),
    ensures
        !e_defined(t),
{
}

/// T(E) accepts no voltage below the lowest or above the highest of its
/// range, however near.
pub proof fn lemma_t_undefined_outside(e: Millivolts)
    requires
        lt_spec(e.0, LOWEST_VOLTAGE) || gt_spec(e.0, HIGHEST_VOLTAGE),
    ensures
        !t_defined(e),
{
}

} // verus!
