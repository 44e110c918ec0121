//! From degrees Celsius to another unit and back.
//!
//! Each conversion rounds, so the way back does not always end where it
//! began. For temperatures of at most `2^20` degrees Celsius in absolute
//! value, a million and more, it ends within a billionth of a degree.
use crate::arith::{add_spec, div_spec, mul_spec, sub_spec};
use crate::binary64::{exponent, is_finite, significand, FP};
use crate::rounding::lemma_pow2_landmarks;
use crate::units::{
    celsius_of_fahrenheit, celsius_of_kelvin, celsius_of_rankine, celsius_of_reaumur,
    fahrenheit_of_celsius, kelvin_of_celsius, rankine_of_celsius, reaumur_of_celsius, Celsius,
    CELSIUS_PER_REAUMUR, FAHRENHEIT_OFFSET, FAHRENHEIT_PER_CELSIUS, KELVIN_OFFSET,
    RANKINE_OFFSET, REAUMUR_PER_CELSIUS,
};
use crate::value::{
    distance, lemma_add_error, lemma_div_error, lemma_mul_error, lemma_scaled_value_sign,
    lemma_sub_error, scaled_value,
};
use vstd::arithmetic::mul::{
    lemma_mul_inequality, lemma_mul_is_commutative, lemma_mul_strict_inequality,
    lemma_mul_strictly_positive, lemma_mul_unary_negation,
};
use vstd::arithmetic::power2::{lemma_pow2_adds, lemma_pow2_pos, lemma_pow2_unfold, pow2};
use vstd::prelude::*;

verus! {

/// Whether `t` is a finite temperature of at most `2^20` degrees in absolute
/// value.
pub open spec fn moderate(t: Celsius) -> bool {
    is_finite(t.0) && -pow2(1094) <= scaled_value(t.0) <= pow2(1094)
}

/// Whether `r` is finite and within `10^-9` degrees of `t`.
pub open spec fn within_a_billionth(r: Celsius, t: Celsius) -> bool {
    is_finite(r.0) && distance(scaled_value(r.0), scaled_value(t.0)) * 1_000_000_000 <= pow2(1074)
}

/// The powers of two that the bounds of this module are made of.
proof fn lemma_pow2_ladder()
    ensures
        pow2(1095) == 2 * pow2(1094),
        pow2(1094) == pow2(11) * pow2(1083),
        pow2(1083) == pow2(53) * pow2(1030),
        pow2(1094) == pow2(52) * pow2(1042),
        pow2(1074) == pow2(32) * pow2(1042),
        pow2(1042) == 2 * pow2(1041),
        pow2(32) == 0x1_0000_0000,
        pow2(11) == 0x800,
        pow2(1041) > 0,
{
    lemma_pow2_unfold(1095);
    lemma_pow2_unfold(1042);
    lemma_pow2_adds(11, 1083);
    lemma_pow2_adds(53, 1030);
    lemma_pow2_adds(52, 1042);
    lemma_pow2_adds(32, 1042);
    lemma_pow2_pos(1041);
    vstd::arithmetic::power2::lemma2_to64();
}

/// Degrees Celsius to kelvins and back: within a billionth of a degree.
pub proof fn lemma_kelvin_round_trip(t: Celsius)
    requires
        moderate(t),
    ensures
        within_a_billionth(celsius_of_kelvin(kelvin_of_celsius(t)), t),
{
    lemma_pow2_landmarks();
    lemma_pow2_ladder();
    let offset: int = scaled_value(KELVIN_OFFSET);
    assert(significand(KELVIN_OFFSET) == 0x11_1266_6666_6666);
    assert(exponent(KELVIN_OFFSET) == -44);
    lemma_scaled_value_sign(KELVIN_OFFSET);
    lemma_pow2_pos(1030);
    lemma_mul_strict_inequality(0x11_1266_6666_6666, 0x20_0000_0000_0000, pow2(1030) as int);
    lemma_mul_strictly_positive(0x11_1266_6666_6666, pow2(1030) as int);
    assert((exponent(KELVIN_OFFSET) + 1074) as nat == 1030);
    assert(offset == 0x11_1266_6666_6666 * pow2(1030));
    assert(0 < offset < pow2(1083));
    let there: u64 = kelvin_of_celsius(t).0;
    lemma_add_error(t.0, KELVIN_OFFSET, 21);
    lemma_sub_error(there, KELVIN_OFFSET, 21);
}

/// A product of a bounded number and a positive bounded factor is bounded by
/// the product of the bounds.
proof fn lemma_product_below(x: int, xb: nat, c: int, cb: nat)
    requires
        -xb <= x <= xb,
        0 < xb,
        0 < c < cb,
    ensures
        -(xb * cb) < x * c < xb * cb,
{
    lemma_mul_inequality(x, xb as int, c);
    lemma_mul_inequality(-(xb as int), x, c);
    lemma_mul_unary_negation(xb as int, c);
    lemma_mul_strict_inequality(c, cb as int, xb as int);
    lemma_mul_is_commutative(c, xb as int);
    lemma_mul_is_commutative(cb as int, xb as int);
}

/// A product of a bounded number and a non-negative factor is bounded by the
/// bound's product.
proof fn lemma_product_within(x: int, xb: nat, c: nat)
    requires
        -xb <= x <= xb,
    ensures
        -(xb * c) <= x * c <= xb * c,
{
    lemma_mul_inequality(x, xb as int, c as int);
    lemma_mul_inequality(-(xb as int), x, c as int);
    lemma_mul_unary_negation(xb as int, c as int);
}

/// Two products in a row, with the error of each: how far the end is from
/// the start, when the two factors multiply to `u * u + w`.
proof fn lemma_two_products(t: int, y1: int, y2: int, c1: int, c2: int, u: int, w: int)
    requires
        c1 * c2 == u * u + w,
    ensures
        (y2 - t) * (u * u) == t * w + (y1 * u - t * c1) * c2 + (y2 * u - y1 * c2) * u,
{
    let d1: int = y1 * u - t * c1;
    let d2: int = y2 * u - y1 * c2;
    assert((y2 * u) * u == (y1 * c2) * u + d2 * u) by (nonlinear_arith)
        requires
            y2 * u == y1 * c2 + d2,
    ;
    assert((y1 * c2) * u == (y1 * u) * c2) by (nonlinear_arith);
    assert((y1 * u) * c2 == (t * c1) * c2 + d1 * c2) by (nonlinear_arith)
        requires
            y1 * u == t * c1 + d1,
    ;
    assert((t * c1) * c2 == t * (c1 * c2)) by (nonlinear_arith);
    assert(t * (c1 * c2) == t * (u * u) + t * w) by (nonlinear_arith)
        requires
            c1 * c2 == u * u + w,
    ;
    assert((y2 - t) * (u * u) == (y2 * u) * u - t * (u * u)) by (nonlinear_arith);
}

/// Degrees Celsius to degrees Reaumur and back: within a billionth of a
/// degree.
pub proof fn lemma_reaumur_round_trip(t: Celsius)
    requires
        moderate(t),
    ensures
        within_a_billionth(celsius_of_reaumur(reaumur_of_celsius(t)), t),
{
    lemma_pow2_landmarks();
    vstd::arithmetic::power2::lemma2_to64();
    vstd::arithmetic::power2::lemma2_to64_rest();
    let u: nat = pow2(1074);
    let w: nat = pow2(2094);
    let c1: int = scaled_value(REAUMUR_PER_CELSIUS);
    let c2: int = scaled_value(CELSIUS_PER_REAUMUR);
    assert(significand(REAUMUR_PER_CELSIUS) == 0x19_9999_9999_999A);
    assert(exponent(REAUMUR_PER_CELSIUS) == -53);
    assert(significand(CELSIUS_PER_REAUMUR) == 0x14_0000_0000_0000);
    assert(exponent(CELSIUS_PER_REAUMUR) == -52);
    lemma_scaled_value_sign(REAUMUR_PER_CELSIUS);
    lemma_scaled_value_sign(CELSIUS_PER_REAUMUR);
    assert((exponent(REAUMUR_PER_CELSIUS) + 1074) as nat == 1021);
    assert((exponent(CELSIUS_PER_REAUMUR) + 1074) as nat == 1022);
    assert(c1 == 0x19_9999_9999_999A * pow2(1021));
    assert(c2 == 0x14_0000_0000_0000 * pow2(1022));
    // both factors are positive; 0.8 is below 1, 1.25 below 2
    lemma_pow2_pos(1021);
    lemma_pow2_pos(1022);
    lemma_pow2_adds(53, 1021);
    lemma_pow2_adds(53, 1022);
    lemma_pow2_adds(50, 1022);
    lemma_mul_strictly_positive(0x19_9999_9999_999A, pow2(1021) as int);
    lemma_mul_strictly_positive(0x14_0000_0000_0000, pow2(1022) as int);
    lemma_mul_strict_inequality(0x19_9999_9999_999A, 0x20_0000_0000_0000, pow2(1021) as int);
    lemma_mul_strict_inequality(0x14_0000_0000_0000, 0x20_0000_0000_0000, pow2(1022) as int);
    assert(0 < c1 < pow2(1074));
    assert(0 < c2 < pow2(1075));
    assert(c2 == 5 * pow2(1072)) by {
        assert(0x14_0000_0000_0000 * pow2(1022) == 5 * (0x4_0000_0000_0000 * pow2(1022)))
            by (nonlinear_arith);
    }
    // the two factors multiply to 1 + 2^-54
    assert(c1 * c2 == u * u + w) by {
        let p: nat = pow2(1021);
        let q: nat = pow2(1022);
        lemma_pow2_adds(1021, 1022);
        lemma_pow2_adds(105, 2043);
        lemma_pow2_adds(51, 2043);
        lemma_pow2_adds(1074, 1074);
        lemma_pow2_adds(64, 41);
        lemma_pow2_adds(32, 19);
        assert((0x19_9999_9999_999A * p) * (0x14_0000_0000_0000 * q) == (0x19_9999_9999_999A
            * 0x14_0000_0000_0000) * (p * q)) by (nonlinear_arith);
        assert(0x19_9999_9999_999A * 0x14_0000_0000_0000 == pow2(105) + pow2(51));
        assert((pow2(105) + pow2(51)) * pow2(2043) == pow2(105) * pow2(2043) + pow2(51) * pow2(
            2043,
        )) by (nonlinear_arith);
    }
    // there
    let v: int = scaled_value(t.0);
    lemma_pow2_pos(1094);
    lemma_pow2_adds(1094, 1074);
    lemma_product_below(v, pow2(1094), c1, pow2(1074));
    lemma_mul_error(t.0, REAUMUR_PER_CELSIUS, 20);
    let there: u64 = reaumur_of_celsius(t).0;
    let v1: int = scaled_value(there);
    // and back
    lemma_pow2_adds(1094, 1075);
    lemma_product_below(v1, pow2(1094), c2, pow2(1075));
    lemma_mul_error(there, CELSIUS_PER_REAUMUR, 21);
    let back: u64 = celsius_of_reaumur(reaumur_of_celsius(t)).0;
    let v2: int = scaled_value(back);
    // the errors, gathered at the scale 2^-3222
    lemma_two_products(v, v1, v2, c1, c2, u as int, w as int);
    let d1: int = v1 * u - v * c1;
    let d2: int = v2 * u - v1 * c2;
    assert(-pow2(2114) <= d1 <= pow2(2114));
    assert(-pow2(2115) <= d2 <= pow2(2115));
    let base: nat = pow2(3186);
    lemma_product_within(v, pow2(1094), w);
    lemma_product_within(d1, pow2(2114), pow2(1072));
    lemma_product_within(d2, pow2(2115), u);
    lemma_pow2_adds(1094, 2094);
    lemma_pow2_adds(2114, 1072);
    lemma_pow2_adds(2115, 1074);
    lemma_pow2_adds(2, 3186);
    lemma_pow2_adds(3, 3186);
    assert(d1 * c2 == 5 * (d1 * pow2(1072))) by (nonlinear_arith)
        requires
            c2 == 5 * pow2(1072),
    ;
    let gap: int = v2 - v;
    assert(-(17 * base) <= gap * (u * u) <= 17 * base);
    // back at the scale 2^-1074
    lemma_pow2_adds(1038, 2148);
    lemma_pow2_adds(36, 1038);
    lemma_pow2_pos(2148);
    lemma_pow2_adds(32, 4);
    let small: nat = pow2(1038);
    let square: nat = pow2(2148);
    lemma_pow2_adds(1074, 1074);
    assert(u * u == square);
    if gap > 17 * small {
        lemma_mul_strict_inequality((17 * small) as int, gap, square as int);
        assert((17 * small) * square == 17 * (small * square)) by (nonlinear_arith);
    }
    if gap < -(17 * small) {
        lemma_mul_strict_inequality(gap, -(17 * small), square as int);
        assert((-(17 * small)) * square == -(17 * (small * square))) by (nonlinear_arith);
    }
    assert(-(17 * small) <= gap <= 17 * small);
}

/// Times 1.8, plus an offset of at most 512 degrees, and back: within a
/// billionth of a degree.
proof fn lemma_scaled_offset_round_trip(t: FP, offset: FP)
    requires
        moderate(Celsius(t)),
        is_finite(offset),
        0 <= scaled_value(offset) <= pow2(1083),
    ensures
        within_a_billionth(
            Celsius(
                div_spec(
                    sub_spec(
                        add_spec(mul_spec(t, FAHRENHEIT_PER_CELSIUS), offset),
                        offset,
                    ),
                    FAHRENHEIT_PER_CELSIUS,
                ),
            ),
            Celsius(t),
        ),
{
    lemma_pow2_landmarks();
    vstd::arithmetic::power2::lemma2_to64();
    vstd::arithmetic::power2::lemma2_to64_rest();
    let u: nat = pow2(1074);
    let c: int = scaled_value(FAHRENHEIT_PER_CELSIUS);
    let o: int = scaled_value(offset);
    assert(significand(FAHRENHEIT_PER_CELSIUS) == 0x1C_CCCC_CCCC_CCCD);
    assert(exponent(FAHRENHEIT_PER_CELSIUS) == -52);
    lemma_scaled_value_sign(FAHRENHEIT_PER_CELSIUS);
    assert((exponent(FAHRENHEIT_PER_CELSIUS) + 1074) as nat == 1022);
    assert(c == 0x1C_CCCC_CCCC_CCCD * pow2(1022));
    // 1.75 < 1.8 < 2
    lemma_pow2_pos(1022);
    lemma_pow2_adds(53, 1022);
    lemma_pow2_adds(50, 1022);
    lemma_mul_strict_inequality(0x1C_CCCC_CCCC_CCCD, 0x20_0000_0000_0000, pow2(1022) as int);
    lemma_mul_strict_inequality(0x1C_0000_0000_0000, 0x1C_CCCC_CCCC_CCCD, pow2(1022) as int);
    assert(0x1C_0000_0000_0000 * pow2(1022) == 7 * (0x4_0000_0000_0000 * pow2(1022)))
        by (nonlinear_arith);
    assert(7 * pow2(1072) < c < pow2(1075));
    lemma_pow2_pos(1072);
    // the ladder of bounds
    lemma_pow2_unfold(1096);
    lemma_pow2_unfold(1095);
    lemma_pow2_unfold(1075);
    lemma_pow2_adds(12, 1083);
    lemma_pow2_adds(53, 1042);
    lemma_pow2_pos(1083);
    lemma_pow2_pos(1042);
    lemma_pow2_pos(1094);
    // times 1.8
    let v: int = scaled_value(t);
    lemma_pow2_adds(1094, 1075);
    lemma_product_below(v, pow2(1094), c, pow2(1075));
    lemma_mul_error(t, FAHRENHEIT_PER_CELSIUS, 21);
    let y1: FP = mul_spec(t, FAHRENHEIT_PER_CELSIUS);
    let v1: int = scaled_value(y1);
    let d1: int = v1 * u - v * c;
    // plus the offset
    lemma_add_error(y1, offset, 22);
    let y2: FP = add_spec(y1, offset);
    let v2: int = scaled_value(y2);
    let d2: int = v2 - (v1 + o);
    // less the offset
    lemma_sub_error(y2, offset, 22);
    let y3: FP = sub_spec(y2, offset);
    let v3: int = scaled_value(y3);
    let d3: int = v3 - (v2 - o);
    // by 1.8
    lemma_pow2_pos(1096);
    lemma_product_within(v3, pow2(1096), u);
    lemma_mul_strict_inequality(u as int, c, pow2(1096) as int);
    lemma_mul_is_commutative(u as int, pow2(1096) as int);
    lemma_div_error(y3, FAHRENHEIT_PER_CELSIUS, 22);
    let y4: FP = div_spec(y3, FAHRENHEIT_PER_CELSIUS);
    let v4: int = scaled_value(y4);
    let d4: int = v4 * c - v3 * u;
    // the four errors together
    let gap: int = v4 - v;
    assert(gap * c == d1 + (d2 + d3) * u + d4) by (nonlinear_arith)
        requires
            gap == v4 - v,
            d1 == v1 * u - v * c,
            v3 == v1 + d2 + d3,
            d4 == v4 * c - v3 * u,
    ;
    lemma_product_within(d2 + d3, 2 * pow2(1042), u);
    lemma_pow2_adds(1042, 1074);
    lemma_pow2_adds(1, 2116);
    lemma_pow2_adds(1, 2115);
    lemma_pow2_adds(1042, 1075);
    lemma_mul_inequality(c, pow2(1075) as int, pow2(1042) as int);
    lemma_mul_is_commutative(pow2(1042) as int, pow2(1075) as int);
    assert((2 * pow2(1042)) * u == 2 * (pow2(1042) * u)) by (nonlinear_arith);
    let base: nat = pow2(2115);
    assert(-(9 * base) <= gap * c <= 9 * base);
    // freed of the divisor, which is more than 1.75
    let small: nat = pow2(1043);
    lemma_pow2_adds(1043, 1072);
    lemma_pow2_adds(31, 1043);
    if 7 * gap > 9 * small {
        lemma_mul_strict_inequality((9 * small) as int, 7 * gap, pow2(1072) as int);
        lemma_mul_inequality((7 * pow2(1072)) as int, c, gap);
        assert((7 * gap) * pow2(1072) == (7 * pow2(1072)) * gap) by (nonlinear_arith);
        assert((9 * small) * pow2(1072) == 9 * (small * pow2(1072))) by (nonlinear_arith);
        lemma_mul_is_commutative(c, gap);
    }
    if 7 * gap < -(9 * small) {
        lemma_mul_strict_inequality(7 * gap, -(9 * small), pow2(1072) as int);
        lemma_mul_inequality((7 * pow2(1072)) as int, c, -gap);
        assert((7 * gap) * pow2(1072) == -((7 * pow2(1072)) * (-gap))) by (nonlinear_arith);
        assert((-(9 * small)) * pow2(1072) == -(9 * (small * pow2(1072)))) by (nonlinear_arith);
        assert(c * (-gap) == -(gap * c)) by (nonlinear_arith);
    }
    assert(-(9 * small) <= 7 * gap <= 9 * small);
}

/// Degrees Celsius to degrees Fahrenheit and back: within a billionth of a
/// degree.
pub proof fn lemma_fahrenheit_round_trip(t: Celsius)
    requires
        moderate(t),
    ensures
        within_a_billionth(celsius_of_fahrenheit(fahrenheit_of_celsius(t)), t),
{
    lemma_pow2_landmarks();
    assert(significand(FAHRENHEIT_OFFSET) == 0x10_0000_0000_0000);
    assert(exponent(FAHRENHEIT_OFFSET) == -47);
    lemma_scaled_value_sign(FAHRENHEIT_OFFSET);
    assert((exponent(FAHRENHEIT_OFFSET) + 1074) as nat == 1027);
    lemma_pow2_adds(52, 1027);
    lemma_pow2_adds(4, 1079);
    lemma_pow2_pos(1079);
    vstd::arithmetic::power2::lemma2_to64();
    lemma_scaled_offset_round_trip(t.0, FAHRENHEIT_OFFSET);
}

/// Degrees Celsius to degrees Rankine and back: within a billionth of a
/// degree.
pub proof fn lemma_rankine_round_trip(t: Celsius)
    requires
        moderate(t),
    ensures
        within_a_billionth(celsius_of_rankine(rankine_of_celsius(t)), t),
{
    lemma_pow2_landmarks();
    assert(significand(RANKINE_OFFSET) == 0x1E_BAB8_51EB_851F);
    assert(exponent(RANKINE_OFFSET) == -44);
    lemma_scaled_value_sign(RANKINE_OFFSET);
    assert((exponent(RANKINE_OFFSET) + 1074) as nat == 1030);
    lemma_pow2_adds(53, 1030);
    lemma_pow2_pos(1030);
    lemma_mul_strict_inequality(0x1E_BAB8_51EB_851F, 0x20_0000_0000_0000, pow2(1030) as int);
    lemma_mul_strictly_positive(0x1E_BAB8_51EB_851F, pow2(1030) as int);
    lemma_scaled_offset_round_trip(t.0, RANKINE_OFFSET);
}

} // verus!
