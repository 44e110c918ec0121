//! The numbers behind the encodings.
//!
//! Every finite binary64 value is a whole multiple of `2^-1074`, so the
//! number that an encoding stands for can be told as an integer: its
//! [`scaled_value`]. The laws of this module tie the encodings to these
//! numbers: the order of the encodings is the order of the numbers, and a
//! rounded result is a nearest neighbour of what was rounded.
use crate::arith::{
    add_spec, common_exponent, div_spec, exact_sum, mul_spec, normal_exponent,
    normal_significand, round_quotient, sub_spec,
};
use crate::binary64::{
    biased_exponent, exponent, floor_log2, fraction, is_finite, is_nan, is_negative, is_zero,
    magnitude, negated,
    ordinal, quantum, round, round_half_even, round_magnitude, rounded_significand,
    signed_significand, significand, with_sign, FP, IMPLICIT_BIT, POSITIVE_INFINITY,
};
use crate::rounding::{
    lemma_floor_log2_bounds, lemma_pow2_landmarks, lemma_pow2_monotonic, lemma_quotient_at_least,
    lemma_quotient_below, lemma_rounded_significand_bounds,
};
use vstd::arithmetic::div_mod::{
    lemma_basic_div, lemma_div_by_multiple, lemma_fundamental_div_mod,
    lemma_fundamental_div_mod_converse, lemma_mod_bound, lemma_mod_multiples_basic,
    lemma_small_mod,
};
use vstd::arithmetic::mul::{
    lemma_mul_inequality, lemma_mul_inequality_converse, lemma_mul_is_associative,
    lemma_mul_is_commutative, lemma_mul_is_distributive_add_other_way,
    lemma_mul_is_distributive_sub_other_way, lemma_mul_strict_inequality,
    lemma_mul_strict_inequality_converse, lemma_mul_unary_negation,
};
use vstd::arithmetic::power2::{lemma_pow2_adds, lemma_pow2_pos, lemma_pow2_unfold, pow2};
use vstd::prelude::*;

verus! {

/// The absolute value of the number that a finite `x` stands for, as a
/// multiple of `2^-1074`.
pub open spec fn scaled_magnitude(x: FP) -> nat {
    significand(x) * pow2((exponent(x) + 1074) as nat)
}

/// The number that a finite `x` stands for, as a multiple of `2^-1074`.
pub open spec fn scaled_value(x: FP) -> int {
    signed_significand(x) * pow2((exponent(x) + 1074) as nat)
}

/// The distance between two integers.
pub open spec fn distance(a: int, b: int) -> nat {
    if a >= b {
        (a - b) as nat
    } else {
        (b - a) as nat
    }
}

/// The value of a finite encoding is its magnitude with the sign.
pub proof fn lemma_scaled_value_sign(x: FP)
    ensures
        scaled_value(x) == if is_negative(x) {
            -(scaled_magnitude(x) as int)
        } else {
            scaled_magnitude(x) as int
        },
{
    lemma_mul_unary_negation(significand(x) as int, pow2((exponent(x) + 1074) as nat) as int);
}

/// Each exponent field holds one binade: the subnormal numbers lie below
/// `2^52` units, the numbers with the field `b > 0` from `2^(51+b)` units up
/// to `2^(52+b)`.
proof fn lemma_magnitude_bracket(x: FP)
    requires
        is_finite(x),
    ensures
        biased_exponent(x) == 0 ==> scaled_magnitude(x) == fraction(x),
        biased_exponent(x) >= 1 ==> pow2((51 + biased_exponent(x)) as nat) <= scaled_magnitude(x)
            < pow2((52 + biased_exponent(x)) as nat),
{
    lemma_pow2_landmarks();
    let b: int = biased_exponent(x);
    if b == 0 {
        assert(significand(x) * pow2(0) == significand(x)) by (nonlinear_arith)
            requires
                pow2(0) == 1,
        ;
    } else {
        let p: nat = pow2((b - 1) as nat);
        lemma_pow2_adds(52, (b - 1) as nat);
        lemma_pow2_adds(53, (b - 1) as nat);
        lemma_pow2_pos((b - 1) as nat);
        lemma_mul_inequality(0x10_0000_0000_0000, significand(x) as int, p as int);
        lemma_mul_strict_inequality(significand(x) as int, 0x20_0000_0000_0000, p as int);
    }
}

/// Of two finite encodings, the one with the larger magnitude stands for the
/// number that is larger in absolute value.
pub proof fn lemma_magnitude_order(a: FP, b: FP)
    requires
        is_finite(a),
        is_finite(b),
        magnitude(a) < magnitude(b),
    ensures
        scaled_magnitude(a) < scaled_magnitude(b),
{
    lemma_pow2_landmarks();
    lemma_magnitude_bracket(a);
    lemma_magnitude_bracket(b);
    let ba: int = biased_exponent(a);
    let bb: int = biased_exponent(b);
    if ba == bb {
        let p: nat = pow2((exponent(a) + 1074) as nat);
        lemma_pow2_pos((exponent(a) + 1074) as nat);
        lemma_mul_strict_inequality(significand(a) as int, significand(b) as int, p as int);
    } else {
        assert(ba < bb);
        lemma_pow2_monotonic((52 + ba) as nat, (51 + bb) as nat);
    }
}

/// The order of the encodings is the order of the numbers: among finite
/// values, `ordinal` grows exactly as the number that a value stands for, and
/// two values share an ordinal exactly if they stand for the same number.
pub proof fn lemma_order_is_by_value(a: FP, b: FP)
    requires
        is_finite(a),
        is_finite(b),
    ensures
        ordinal(a) < ordinal(b) <==> scaled_value(a) < scaled_value(b),
        ordinal(a) == ordinal(b) <==> scaled_value(a) == scaled_value(b),
{
    lemma_scaled_value_sign(a);
    lemma_scaled_value_sign(b);
    lemma_magnitude_bracket(0);
    if magnitude(a) > 0 {
        lemma_magnitude_order(0, a);
    }
    if magnitude(b) > 0 {
        lemma_magnitude_order(0, b);
    }
    if magnitude(a) < magnitude(b) {
        lemma_magnitude_order(a, b);
    } else if magnitude(b) < magnitude(a) {
        lemma_magnitude_order(b, a);
    }
}

/// Rounding to nearest: no multiple of `d` is nearer to `n` than
/// `round_half_even(n, d) * d`, and one that is as near belongs to an odd
/// multiplier or to the same.
pub proof fn lemma_round_half_even_is_nearest(n: nat, d: nat, k: int)
    requires
        d > 0,
    ensures
        distance((round_half_even(n, d) * d) as int, n as int) <= distance(k * d, n as int),
        2 * distance((round_half_even(n, d) * d) as int, n as int) <= d,
        distance((round_half_even(n, d) * d) as int, n as int) == distance(k * d, n as int) ==> k
            == round_half_even(n, d) || round_half_even(n, d) % 2 == 0,
{
    let q: int = n as int / d as int;
    let r: int = n as int % d as int;
    lemma_fundamental_div_mod(n as int, d as int);
    lemma_mod_bound(n as int, d as int);
    lemma_mul_is_commutative(d as int, q);
    assert((q + 1) * d == q * d + d) by (nonlinear_arith);
    if k <= q {
        lemma_mul_inequality(k, q, d as int);
    } else {
        lemma_mul_inequality(q + 1, k, d as int);
    }
    if k < q {
        lemma_mul_inequality(k, q - 1, d as int);
        assert((q - 1) * d == q * d - d) by (nonlinear_arith);
    }
    if k > q + 1 {
        lemma_mul_inequality(q + 2, k, d as int);
        assert((q + 2) * d == q * d + 2 * d) by (nonlinear_arith);
    }
}

/// What an encoding built from a quantum `q` and a significand `n` stands
/// for: `n * 2^q`, also where `n` is `2^53` and carries into the exponent
/// field.
pub proof fn lemma_encoding_value(q: int, n: nat)
    requires
        -1074 <= q,
        n <= 2 * IMPLICIT_BIT,
        q > -1074 ==> n >= IMPLICIT_BIT,
        (q + 1074) * IMPLICIT_BIT + n < POSITIVE_INFINITY,
    ensures
        scaled_magnitude(((q + 1074) * IMPLICIT_BIT + n) as u64) == n * pow2((q + 1074) as nat),
{
    lemma_pow2_landmarks();
    let r: u64 = ((q + 1074) * IMPLICIT_BIT + n) as u64;
    if n < IMPLICIT_BIT {
        lemma_fundamental_div_mod_converse(r as int, IMPLICIT_BIT as int, 0, n as int);
    } else if n < 2 * IMPLICIT_BIT {
        lemma_fundamental_div_mod_converse(
            r as int,
            IMPLICIT_BIT as int,
            q + 1075,
            n - IMPLICIT_BIT,
        );
    } else {
        lemma_fundamental_div_mod_converse(r as int, IMPLICIT_BIT as int, q + 1076, 0);
        lemma_pow2_unfold((q + 1075) as nat);
        assert(IMPLICIT_BIT * (2 * pow2((q + 1074) as nat)) == (2 * IMPLICIT_BIT) * pow2(
            (q + 1074) as nat,
        )) by (nonlinear_arith);
    }
}

/// A rounded result stands for its rounded significand at its quantum.
pub proof fn lemma_round_magnitude_value(m: nat, e: int)
    requires
        m > 0,
        round_magnitude(m, e) < POSITIVE_INFINITY,
    ensures
        scaled_magnitude(round_magnitude(m, e)) == rounded_significand(m, e) * pow2(
            (quantum(m, e) + 1074) as nat,
        ),
{
    lemma_rounded_significand_bounds(m, e);
    lemma_encoding_value(quantum(m, e), rounded_significand(m, e));
}

/// Scaling two integers by `c` scales their distance by `c`.
pub proof fn lemma_distance_scales(a: int, b: int, c: nat)
    ensures
        distance(a * c, b * c) == distance(a, b) * c,
{
    lemma_mul_is_distributive_sub_other_way(c as int, a, b);
    lemma_mul_is_distributive_sub_other_way(c as int, b, a);
    if a >= b {
        lemma_mul_inequality(b, a, c as int);
    } else {
        lemma_mul_inequality(a, b, c as int);
    }
}

/// The error of one rounding, for a number below `2^k` in absolute value and
/// inside the range of binary64: the result is finite, stays at or below
/// `2^k`, and is off by at most `2^(k-54)`, half a unit in the last place of
/// the binade below `2^k`.
///
/// The numbers are told as multiples of `2^-z`, for any `z` fine enough to
/// hold `m * 2^e` exactly.
pub proof fn lemma_round_error(m: nat, e: int, k: int, z: nat)
    requires
        m > 0,
        z >= 1074,
        e + z >= 0,
        -1021 <= k <= 1023,
        m * pow2((e + z) as nat) < pow2((k + z) as nat),
    ensures
        round_magnitude(m, e) < POSITIVE_INFINITY,
        scaled_magnitude(round_magnitude(m, e)) * pow2((z - 1074) as nat) <= pow2((k + z) as nat),
        distance(
            (scaled_magnitude(round_magnitude(m, e)) * pow2((z - 1074) as nat)) as int,
            (m * pow2((e + z) as nat)) as int,
        ) <= pow2((k + z - 54) as nat),
{
    lemma_pow2_landmarks();
    let unit: nat = pow2((e + z) as nat);
    let fl: nat = floor_log2(m);
    lemma_pow2_pos((e + z) as nat);
    lemma_floor_log2_bounds(m);
    if fl + e >= k {
        lemma_pow2_monotonic((k + z) as nat, (fl + e + z) as nat);
        lemma_pow2_adds(fl, (e + z) as nat);
        lemma_mul_inequality(pow2(fl) as int, m as int, unit as int);
    }
    let q: int = quantum(m, e);
    let n: nat = rounded_significand(m, e);
    lemma_rounded_significand_bounds(m, e);
    assert(round_magnitude(m, e) == (q + 1074) * IMPLICIT_BIT + n);
    lemma_round_magnitude_value(m, e);
    let last: nat = pow2((q + z) as nat);
    let sm: nat = scaled_magnitude(round_magnitude(m, e));
    assert(sm * pow2((z - 1074) as nat) == n * last) by {
        lemma_pow2_adds((q + 1074) as nat, (z - 1074) as nat);
        lemma_mul_is_associative(
            n as int,
            pow2((q + 1074) as nat) as int,
            pow2((z - 1074) as nat) as int,
        );
    }
    if e >= q {
        assert(n * last == m * unit) by {
            lemma_pow2_adds((e - q) as nat, (q + z) as nat);
            lemma_mul_is_associative(m as int, pow2((e - q) as nat) as int, last as int);
        }
    } else {
        let d: nat = (q - e) as nat;
        let step: nat = pow2(d);
        lemma_pow2_pos(d);
        lemma_pow2_adds(d, (e + z) as nat);
        assert(n * last == (n * step) * unit) by {
            lemma_mul_is_associative(n as int, step as int, unit as int);
        }
        lemma_round_half_even_is_nearest(m, step, 0);
        lemma_distance_scales((n * step) as int, m as int, unit);
        assert(2 * (distance((n * step) as int, m as int) * unit) <= step * unit) by {
            lemma_mul_inequality(
                (2 * distance((n * step) as int, m as int)) as int,
                step as int,
                unit as int,
            );
            lemma_mul_is_associative(2, distance((n * step) as int, m as int) as int, unit as int);
        }
        lemma_pow2_unfold((q + z) as nat);
        lemma_pow2_monotonic((q + z - 1) as nat, (k + z - 54) as nat);
        // the rounded number does not pass 2^k
        let room: nat = pow2((k - q) as nat);
        lemma_pow2_adds((k - q) as nat, (q + z) as nat);
        assert(room * last == (room * step) * unit) by {
            lemma_mul_is_associative(room as int, step as int, unit as int);
        }
        lemma_mul_strict_inequality_converse(m as int, (room * step) as int, unit as int);
        lemma_mul_is_commutative(room as int, step as int);
        lemma_quotient_below(m as int, step as int, room as int);
        lemma_mul_inequality(n as int, room as int, last as int);
    }
}

/// The exact sum of two finite values is their sum as numbers.
pub proof fn lemma_exact_sum_value(a: FP, b: FP)
    ensures
        scaled_value(a) + scaled_value(b) == exact_sum(a, b) * pow2(
            (common_exponent(a, b) + 1074) as nat,
        ),
{
    let e: int = common_exponent(a, b);
    let unit: nat = pow2((e + 1074) as nat);
    let da: nat = (exponent(a) - e) as nat;
    let db: nat = (exponent(b) - e) as nat;
    lemma_pow2_adds(da, (e + 1074) as nat);
    lemma_pow2_adds(db, (e + 1074) as nat);
    lemma_mul_is_associative(signed_significand(a), pow2(da) as int, unit as int);
    lemma_mul_is_associative(signed_significand(b), pow2(db) as int, unit as int);
    lemma_mul_is_distributive_add_other_way(
        unit as int,
        signed_significand(a) * pow2(da),
        signed_significand(b) * pow2(db),
    );
}

/// Negation negates the number.
pub proof fn lemma_negated_value(x: FP)
    ensures
        scaled_value(negated(x)) == -scaled_value(x),
        is_finite(negated(x)) == is_finite(x),
{
    lemma_scaled_value_sign(x);
    lemma_scaled_value_sign(negated(x));
}

/// The error of a sum that stays below `2^k` in absolute value: the result
/// is finite, stays at or below `2^k`, and is off by at most `2^(k-54)`.
pub proof fn lemma_add_error(a: FP, b: FP, k: int)
    requires
        is_finite(a),
        is_finite(b),
        -1020 <= k <= 1023,
        -pow2((k + 1074) as nat) < scaled_value(a) + scaled_value(b) < pow2((k + 1074) as nat),
    ensures
        is_finite(add_spec(a, b)),
        distance(scaled_value(add_spec(a, b)), scaled_value(a) + scaled_value(b)) <= pow2(
            (k + 1020) as nat,
        ),
        -pow2((k + 1074) as nat) <= scaled_value(add_spec(a, b)) <= pow2((k + 1074) as nat),
{
    lemma_pow2_landmarks();
    let e: int = common_exponent(a, b);
    let s: int = exact_sum(a, b);
    let unit: nat = pow2((e + 1074) as nat);
    let r: FP = add_spec(a, b);
    lemma_exact_sum_value(a, b);
    lemma_scaled_value_sign(r);
    if s == 0 {
        assert(significand(r) == 0);
        assert(0 * pow2((exponent(r) + 1074) as nat) == 0);
        assert(s * unit == 0);
    } else {
        let m: nat = if s < 0 {
            (-s) as nat
        } else {
            s as nat
        };
        lemma_mul_unary_negation(s, unit as int);
        assert(m * unit < pow2((k + 1074) as nat));
        lemma_round_error(m, e, k, 1074);
        let mag: u64 = round_magnitude(m, e);
        let sm: nat = scaled_magnitude(mag);
        assert(sm * pow2(0) == sm) by (nonlinear_arith)
            requires
                pow2(0) == 1,
        ;
        assert(r == with_sign(s < 0, mag));
        assert(magnitude(r) == mag);
        assert(scaled_magnitude(r) == sm);
    }
}

/// The error of a difference that stays below `2^k` in absolute value: the
/// result is finite, stays at or below `2^k`, and is off by at most
/// `2^(k-54)`.
pub proof fn lemma_sub_error(a: FP, b: FP, k: int)
    requires
        is_finite(a),
        is_finite(b),
        -1020 <= k <= 1023,
        -pow2((k + 1074) as nat) < scaled_value(a) - scaled_value(b) < pow2((k + 1074) as nat),
    ensures
        is_finite(sub_spec(a, b)),
        distance(scaled_value(sub_spec(a, b)), scaled_value(a) - scaled_value(b)) <= pow2(
            (k + 1020) as nat,
        ),
        -pow2((k + 1074) as nat) <= scaled_value(sub_spec(a, b)) <= pow2((k + 1074) as nat),
{
    lemma_negated_value(b);
    lemma_add_error(a, negated(b), k);
}

/// The product of the numbers of two finite values, from their significands.
pub proof fn lemma_product_value(a: FP, b: FP)
    ensures
        scaled_value(a) * scaled_value(b) == (signed_significand(a) * signed_significand(b))
            * pow2((exponent(a) + exponent(b) + 2148) as nat),
{
    let pa: nat = pow2((exponent(a) + 1074) as nat);
    let pb: nat = pow2((exponent(b) + 1074) as nat);
    lemma_pow2_adds((exponent(a) + 1074) as nat, (exponent(b) + 1074) as nat);
    let x: int = signed_significand(a);
    let y: int = signed_significand(b);
    assert((x * pa) * (y * pb) == (x * y) * (pa * pb)) by (nonlinear_arith);
}

/// The error of a product that stays below `2^k` in absolute value: the
/// result is finite, stays at or below `2^k`, and is off by at most
/// `2^(k-54)`. The product of two numbers in units of `2^-1074` is in units
/// of `2^-2148`.
pub proof fn lemma_mul_error(a: FP, b: FP, k: int)
    requires
        is_finite(a),
        is_finite(b),
        -1021 <= k <= 1023,
        -pow2((k + 2148) as nat) < scaled_value(a) * scaled_value(b) < pow2((k + 2148) as nat),
    ensures
        is_finite(mul_spec(a, b)),
        distance(scaled_value(mul_spec(a, b)) * pow2(1074), scaled_value(a) * scaled_value(b))
            <= pow2((k + 2094) as nat),
        -pow2((k + 1074) as nat) <= scaled_value(mul_spec(a, b)) <= pow2((k + 1074) as nat),
{
    lemma_pow2_landmarks();
    let e: int = exponent(a) + exponent(b);
    let m: nat = significand(a) * significand(b);
    let unit: nat = pow2((e + 2148) as nat);
    let r: FP = mul_spec(a, b);
    let negative: bool = is_negative(a) != is_negative(b);
    let sa: int = significand(a) as int;
    let sb: int = significand(b) as int;
    lemma_product_value(a, b);
    lemma_scaled_value_sign(r);
    lemma_mul_unary_negation(sa, sb);
    lemma_mul_unary_negation(sb, sa);
    lemma_mul_unary_negation(sa, -sb);
    lemma_mul_is_commutative(sa, sb);
    assert(signed_significand(a) * signed_significand(b) == if negative {
        -(m as int)
    } else {
        m as int
    });
    lemma_mul_unary_negation(m as int, unit as int);
    if m == 0 {
        assert(significand(r) == 0);
        assert(0 * pow2((exponent(r) + 1074) as nat) == 0);
        assert(0 * unit == 0);
        assert(0 * pow2(1074) == 0);
    } else {
        lemma_round_error(m, e, k, 2148);
        let mag: u64 = round_magnitude(m, e);
        let sm: nat = scaled_magnitude(mag);
        assert(r == with_sign(negative, mag));
        assert(magnitude(r) == mag);
        assert(scaled_magnitude(r) == sm);
        lemma_pow2_adds((k + 1074) as nat, 1074);
        lemma_pow2_pos(1074);
        if sm > pow2((k + 1074) as nat) {
            lemma_mul_strict_inequality(
                pow2((k + 1074) as nat) as int,
                sm as int,
                pow2(1074) as int,
            );
        }
        lemma_mul_unary_negation(sm as int, pow2(1074) as int);
    }
}

/// A number that binary64 holds rounds to itself.
pub proof fn lemma_round_representable(x: FP)
    requires
        is_finite(x),
    ensures
        round(is_negative(x), significand(x), exponent(x)) == x,
{
    lemma_pow2_landmarks();
    let m: nat = significand(x);
    let e: int = exponent(x);
    if m > 0 {
        lemma_floor_log2_bounds(m);
        let k: nat = floor_log2(m);
        if k > 52 {
            lemma_pow2_monotonic(53, k);
        }
        if e > -1074 {
            crate::rounding::lemma_floor_log2_unique(m, 52);
        }
        assert(quantum(m, e) == e);
        assert(m * pow2(0) == m) by (nonlinear_arith)
            requires
                pow2(0) == 1,
        ;
        assert(rounded_significand(m, e) == m);
    }
}

/// Adding a positive zero changes nothing, but for the negative zero, which
/// becomes positive.
pub proof fn lemma_add_zero(x: FP)
    requires
        !is_nan(x),
        !(is_zero(x) && is_negative(x)),
    ensures
        add_spec(x, 0) == x,
{
    lemma_pow2_landmarks();
    if is_finite(x) {
        lemma_round_representable(x);
        let shift: nat = (exponent(x) - common_exponent(x, 0)) as nat;
        assert(common_exponent(x, 0) == -1074);
        assert(signed_significand(0) == 0);
        assert(0 * pow2(0) == 0);
        if significand(x) > 0 {
            // the sum is the significand of `x` at a finer scale
            let m: nat = significand(x);
            let wide: nat = m * pow2(shift);
            lemma_mul_unary_negation(m as int, pow2(shift) as int);
            lemma_pow2_pos(shift);
            lemma_mul_inequality(1, pow2(shift) as int, m as int);
            lemma_mul_is_commutative(m as int, pow2(shift) as int);
            lemma_floor_log2_bounds(m);
            let k: nat = floor_log2(m);
            lemma_pow2_adds(k, shift);
            lemma_pow2_adds(k + 1, shift);
            lemma_mul_inequality(pow2(k) as int, m as int, pow2(shift) as int);
            lemma_mul_strict_inequality(m as int, pow2(k + 1) as int, pow2(shift) as int);
            crate::rounding::lemma_floor_log2_unique(wide, k + shift);
            assert(quantum(wide, -1074) == quantum(m, exponent(x)));
            let q: int = quantum(m, exponent(x));
            if k > 52 {
                lemma_pow2_monotonic(53, k);
            }
            if exponent(x) > -1074 {
                crate::rounding::lemma_floor_log2_unique(m, 52);
            }
            assert(q == exponent(x));
            lemma_scale_twice(m as int, shift, 0);
            if shift > 0 {
                lemma_div_by_multiple(m as int, pow2(shift) as int);
                lemma_mod_multiples_basic(m as int, pow2(shift) as int);
            } else {
                assert(m * pow2(0) == m) by (nonlinear_arith)
                    requires
                        pow2(0) == 1,
                ;
            }
            assert(rounded_significand(wide, -1074) == m);
        }
    }
}

/// A zero and a value add up to the value, but for two zeros of which one is
/// positive, which add up to the positive zero.
pub proof fn lemma_zero_plus(z: FP, x: FP)
    requires
        is_zero(z),
        !is_nan(x),
        !(is_zero(x) && is_negative(x)),
    ensures
        add_spec(z, x) == x,
{
    lemma_add_zero(x);
    if is_finite(x) {
        assert(significand(z) == 0);
        assert(signed_significand(z) == 0);
        assert(common_exponent(z, x) == common_exponent(x, 0));
        let low: nat = (exponent(z) - common_exponent(z, x)) as nat;
        assert(0 * pow2(low) == 0);
        assert(0 * pow2(0) == 0);
        assert(exact_sum(z, x) == exact_sum(x, 0));
    }
}

/// Two zeros add up to a zero.
pub proof fn lemma_zero_plus_zero(z: FP, x: FP)
    requires
        is_zero(z),
        is_zero(x),
    ensures
        is_zero(add_spec(z, x)),
{
    assert(signed_significand(z) == 0);
    assert(signed_significand(x) == 0);
    let low: nat = (exponent(z) - common_exponent(z, x)) as nat;
    let other: nat = (exponent(x) - common_exponent(z, x)) as nat;
    assert(0 * pow2(low) == 0);
    assert(0 * pow2(other) == 0);
}

/// Zero times a finite value is a zero.
pub proof fn lemma_zero_times(x: FP)
    requires
        is_finite(x),
    ensures
        is_zero(mul_spec(0, x)),
{
    assert(significand(0) == 0);
    assert(0 * significand(x) == 0);
}

/// A finite value less itself is the positive zero.
pub proof fn lemma_sub_self(x: FP)
    requires
        is_finite(x),
    ensures
        sub_spec(x, x) == 0,
{
    let shift: nat = (exponent(x) - common_exponent(x, negated(x))) as nat;
    lemma_mul_unary_negation(significand(x) as int, pow2(shift) as int);
}

/// Scaling by two powers of two in turn is scaling by the power of the sum.
pub proof fn lemma_scale_twice(x: int, a: nat, b: nat)
    ensures
        (x * pow2(a)) * pow2(b) == x * pow2(a + b),
{
    lemma_pow2_adds(a, b);
    lemma_mul_is_associative(x, pow2(a) as int, pow2(b) as int);
}

/// The error of one rounded quotient of normalised significands, for a
/// quotient below `2^k` and inside the range of binary64: the result is
/// finite, stays at or below `2^k`, and is off by at most `2^(k-54)`.
///
/// The numbers are told as multiples of `2^-z`, and the distance is
/// multiplied by the divisor `d`, which makes it an integer.
pub proof fn lemma_round_quotient_error(n: nat, d: nat, e: int, k: int, z: nat)
    requires
        IMPLICIT_BIT <= n < 2 * IMPLICIT_BIT,
        IMPLICIT_BIT <= d < 2 * IMPLICIT_BIT,
        z >= 1074,
        e + z >= 0,
        -1020 <= k <= 1023,
        n * pow2((e + z) as nat) < d * pow2((k + z) as nat),
    ensures
        round_quotient(n, d, e) < POSITIVE_INFINITY,
        scaled_magnitude(round_quotient(n, d, e)) * pow2((z - 1074) as nat) <= pow2(
            (k + z) as nat,
        ),
        distance(
            (scaled_magnitude(round_quotient(n, d, e)) * pow2((z - 1074) as nat) * d) as int,
            (n * pow2((e + z) as nat)) as int,
        ) <= d * pow2((k + z - 54) as nat),
{
    lemma_pow2_landmarks();
    let unit: nat = pow2((e + z) as nat);
    let top: nat = pow2((k + z) as nat);
    lemma_pow2_pos((e + z) as nat);
    lemma_pow2_pos((k + z) as nat);
    let leading: int = if n >= d {
        e
    } else {
        e - 1
    };
    // the quotient's leading bit lies below 2^k
    if leading >= k {
        if n >= d {
            lemma_pow2_monotonic((k + z) as nat, (e + z) as nat);
            lemma_mul_inequality(d as int, n as int, unit as int);
            lemma_mul_inequality(top as int, unit as int, d as int);
            lemma_mul_is_commutative(top as int, d as int);
            lemma_mul_is_commutative(unit as int, d as int);
        } else {
            lemma_pow2_monotonic((k + z + 1) as nat, (e + z) as nat);
            lemma_pow2_unfold((k + z + 1) as nat);
            lemma_mul_inequality((2 * top) as int, unit as int, d as int);
            lemma_mul_is_commutative(unit as int, d as int);
            assert((2 * top) * d == 2 * (d * top)) by (nonlinear_arith);
            lemma_mul_inequality(d as int, (2 * n) as int, unit as int);
            assert((2 * n) * unit == 2 * (n * unit)) by (nonlinear_arith);
        }
    }
    let q: int = if leading - 52 < -1074 {
        -1074
    } else {
        leading - 52
    };
    let last: nat = pow2((q + z) as nat);
    lemma_pow2_pos((q + z) as nat);
    let room: nat = pow2((k - q) as nat);
    lemma_pow2_adds((k - q) as nat, (q + z) as nat);
    let r: nat = if e >= q {
        round_half_even(n * pow2((e - q) as nat), d)
    } else {
        round_half_even(n, d * pow2((q - e) as nat))
    };
    if e >= q {
        let s: nat = (e - q) as nat;
        let scaled: nat = n * pow2(s);
        lemma_pow2_pos(s);
        lemma_scale_twice(n as int, s, (q + z) as nat);
        assert(scaled * last == n * unit);
        lemma_round_half_even_is_nearest(scaled, d, 0);
        // the bounds of the rounded significand
        if n >= d {
            lemma_pow2_monotonic(s, 52);
            lemma_mul_inequality(pow2(s) as int, 0x10_0000_0000_0000, n as int);
            lemma_mul_is_commutative(pow2(s) as int, n as int);
            assert(scaled < d * 0x20_0000_0000_0000);
            if q > -1074 {
                lemma_mul_inequality(d as int, n as int, 0x10_0000_0000_0000);
                lemma_quotient_at_least(scaled as int, d as int, 0x10_0000_0000_0000);
            }
        } else {
            lemma_pow2_monotonic(s, 53);
            lemma_mul_inequality(pow2(s) as int, 0x20_0000_0000_0000, n as int);
            lemma_mul_is_commutative(pow2(s) as int, n as int);
            assert(scaled < d * 0x20_0000_0000_0000);
            if q > -1074 {
                lemma_quotient_at_least(scaled as int, d as int, 0x10_0000_0000_0000);
            }
        }
        lemma_quotient_below(scaled as int, d as int, 0x20_0000_0000_0000);
        // the error, at the scale of the last place
        lemma_distance_scales((r * d) as int, scaled as int, last);
        assert((r * d) * last == (r * last) * d) by (nonlinear_arith);
        let off: nat = distance((r * d) as int, scaled as int);
        lemma_mul_inequality((2 * off) as int, d as int, last as int);
        lemma_mul_is_associative(2, off as int, last as int);
        assert(2 * distance(((r * last) * d) as int, (n * unit) as int) <= d * last);
        // the rounded number does not pass 2^k
        assert(scaled * last < (d * room) * last) by {
            lemma_mul_is_associative(d as int, room as int, last as int);
        }
        lemma_mul_strict_inequality_converse(scaled as int, (d * room) as int, last as int);
        lemma_quotient_below(scaled as int, d as int, room as int);
    } else {
        let g: nat = (q - e) as nat;
        let den: nat = d * pow2(g);
        lemma_pow2_pos(g);
        lemma_pow2_monotonic(1, g);
        lemma_mul_inequality(2, pow2(g) as int, d as int);
        lemma_mul_is_commutative(d as int, pow2(g) as int);
        lemma_basic_div(n as int, den as int);
        lemma_small_mod(n, den);
        lemma_round_half_even_is_nearest(n, den, 0);
        lemma_pow2_adds(g, (e + z) as nat);
        lemma_distance_scales((r * den) as int, n as int, unit);
        assert((r * den) * unit == (r * last) * d) by {
            lemma_mul_is_associative(d as int, pow2(g) as int, unit as int);
            assert((r * (d * pow2(g))) * unit == (r * (pow2(g) * unit)) * d) by (nonlinear_arith);
        }
        assert(den * unit == d * last) by {
            lemma_mul_is_associative(d as int, pow2(g) as int, unit as int);
        }
        let off: nat = distance((r * den) as int, n as int);
        lemma_mul_inequality((2 * off) as int, den as int, unit as int);
        lemma_mul_is_associative(2, off as int, unit as int);
        assert(2 * distance(((r * last) * d) as int, (n * unit) as int) <= d * last);
        lemma_pow2_monotonic(0, (k - q) as nat);
    }
    assert(r <= room);
    assert(r <= 2 * IMPLICIT_BIT);
    assert(round_quotient(n, d, e) == (q + 1074) * IMPLICIT_BIT + r);
    lemma_encoding_value(q, r);
    let sm: nat = scaled_magnitude(round_quotient(n, d, e));
    lemma_scale_twice(r as int, (q + 1074) as nat, (z - 1074) as nat);
    assert(sm * pow2((z - 1074) as nat) == r * last);
    lemma_mul_inequality(r as int, room as int, last as int);
    // half a unit in the last place is at most 2^(k-54)
    assert(2 * distance(((r * last) * d) as int, (n * unit) as int) <= d * last);
    if q + z >= 1 {
        lemma_pow2_unfold((q + z) as nat);
        lemma_pow2_monotonic((q + z - 1) as nat, (k + z - 54) as nat);
        lemma_mul_inequality(
            pow2((q + z - 1) as nat) as int,
            pow2((k + z - 54) as nat) as int,
            d as int,
        );
        lemma_mul_is_commutative(pow2((q + z - 1) as nat) as int, d as int);
        lemma_mul_is_commutative(pow2((k + z - 54) as nat) as int, d as int);
        assert(d * (2 * pow2((q + z - 1) as nat)) == 2 * (d * pow2((q + z - 1) as nat)))
            by (nonlinear_arith);
    } else {
        lemma_pow2_pos((k + z - 54) as nat);
        lemma_mul_inequality(1, pow2((k + z - 54) as nat) as int, d as int);
        lemma_mul_is_commutative(pow2((k + z - 54) as nat) as int, d as int);
        assert(d * last == d) by (nonlinear_arith)
            requires
                last == 1,
        ;
    }
}

/// A normalised significand has its leading bit at `2^52`.
pub proof fn lemma_normal_significand(x: FP)
    requires
        is_finite(x),
        !is_zero(x),
    ensures
        floor_log2(significand(x)) <= 52,
        IMPLICIT_BIT <= normal_significand(x) < 2 * IMPLICIT_BIT,
        -1126 <= normal_exponent(x) <= 971,
{
    lemma_pow2_landmarks();
    let s: nat = significand(x);
    let k: nat = floor_log2(s);
    lemma_floor_log2_bounds(s);
    if k > 52 {
        lemma_pow2_monotonic(53, k);
    }
    let shift: nat = (52 - k) as nat;
    lemma_pow2_adds(k, shift);
    lemma_pow2_adds(k + 1, shift);
    lemma_pow2_pos(shift);
    lemma_mul_inequality(pow2(k) as int, s as int, pow2(shift) as int);
    lemma_mul_strict_inequality(s as int, pow2(k + 1) as int, pow2(shift) as int);
    if exponent(x) > -1074 {
        crate::rounding::lemma_floor_log2_unique(s, 52);
    }
}

/// The error of a quotient by a positive divisor that stays below `2^k` in
/// absolute value: the result is finite, stays at or below `2^k`, and is off
/// by at most `2^(k-54)`. The distance is multiplied by the divisor, which
/// makes it an integer.
pub proof fn lemma_div_error(a: FP, c: FP, k: int)
    requires
        is_finite(a),
        is_finite(c),
        !is_negative(c),
        !is_zero(c),
        -1020 <= k <= 1023,
        -(pow2((k + 1074) as nat) * scaled_value(c)) < scaled_value(a) * pow2(1074) < pow2(
            (k + 1074) as nat,
        ) * scaled_value(c),
    ensures
        is_finite(div_spec(a, c)),
        distance(scaled_value(div_spec(a, c)) * scaled_value(c), scaled_value(a) * pow2(1074))
            <= scaled_value(c) * pow2((k + 1020) as nat),
        -pow2((k + 1074) as nat) <= scaled_value(div_spec(a, c)) <= pow2((k + 1074) as nat),
{
    lemma_pow2_landmarks();
    let r: FP = div_spec(a, c);
    let u: nat = pow2(1074);
    let cv: nat = scaled_magnitude(c);
    let av: nat = scaled_magnitude(a);
    lemma_scaled_value_sign(a);
    lemma_scaled_value_sign(c);
    lemma_scaled_value_sign(r);
    lemma_pow2_pos(1074);
    lemma_mul_unary_negation(av as int, u as int);
    if is_zero(a) {
        assert(significand(a) == 0);
        assert(significand(r) == 0);
        assert(0 * pow2((exponent(r) + 1074) as nat) == 0);
        assert(0 * pow2((exponent(a) + 1074) as nat) == 0);
        assert(0 * u == 0);
        assert(0 * cv == 0);
        lemma_pow2_pos((k + 1020) as nat);
        vstd::arithmetic::mul::lemma_mul_nonnegative(cv as int, pow2((k + 1020) as nat) as int);
    } else {
        lemma_normal_significand(a);
        lemma_normal_significand(c);
        let sa: nat = significand(a);
        let sc: nat = significand(c);
        let la: nat = (52 - floor_log2(sa)) as nat;
        let lc: nat = (52 - floor_log2(sc)) as nat;
        let na: nat = normal_significand(a);
        let nc: nat = normal_significand(c);
        let e: int = normal_exponent(a) - normal_exponent(c);
        let ea: nat = (exponent(a) + 1074) as nat;
        let ec: nat = (exponent(c) + 1074) as nat;
        let pc: nat = pow2(ec);
        let shift: nat = pow2(lc);
        let g: nat = pow2(lc + 1074);
        let unit: nat = pow2((e + 2148) as nat);
        let top: nat = pow2((k + 2148) as nat);
        let x: nat = na * unit;
        lemma_pow2_pos(ec);
        lemma_pow2_pos(lc);
        lemma_pow2_pos(lc + 1074);
        // the numerator and the divisor, brought to one scale
        assert(x * pc == (av * u) * g) by {
            lemma_scale_twice(sa as int, la, (e + 2148) as nat);
            lemma_scale_twice(sa as int, (la + e + 2148) as nat, ec);
            lemma_scale_twice(sa as int, ea, 1074);
            lemma_scale_twice(sa as int, ea + 1074, lc + 1074);
        }
        assert(nc * pc == cv * shift) by {
            lemma_scale_twice(sc as int, lc, ec);
            lemma_scale_twice(sc as int, ec, lc);
        }
        lemma_pow2_adds((k + 2148) as nat, lc);
        lemma_pow2_adds((k + 1074) as nat, lc + 1074);
        lemma_pow2_adds((k + 2094) as nat, lc);
        lemma_pow2_adds((k + 1020) as nat, lc + 1074);
        lemma_pow2_adds(1074, lc);
        lemma_pow2_adds((k + 1074) as nat, 1074);
        let bound: nat = pow2((k + 1074) as nat);
        let half: nat = pow2((k + 1020) as nat);
        assert((nc * top) * pc == (cv * bound) * g) by (nonlinear_arith)
            requires
                nc * pc == cv * shift,
                top * shift == bound * g,
        ;
        if x >= nc * top {
            lemma_mul_inequality((nc * top) as int, x as int, pc as int);
            lemma_mul_inequality_converse((cv * bound) as int, (av * u) as int, g as int);
            lemma_mul_is_commutative(cv as int, bound as int);
        }
        lemma_round_quotient_error(na, nc, e, k, 2148);
        let mag: u64 = round_quotient(na, nc, e);
        let sm: nat = scaled_magnitude(mag);
        let negative: bool = is_negative(a) != is_negative(c);
        assert(r == with_sign(negative, mag));
        assert(magnitude(r) == mag);
        assert(scaled_magnitude(r) == sm);
        // the result stays at or below 2^k
        if sm > bound {
            lemma_mul_strict_inequality(bound as int, sm as int, u as int);
        }
        // the error, freed of the common scale
        let rs: nat = sm * u;
        lemma_distance_scales((rs * nc) as int, x as int, pc);
        assert((rs * nc) * pc == (sm * cv) * g) by (nonlinear_arith)
            requires
                rs == sm * u,
                nc * pc == cv * shift,
                u * shift == g,
        ;
        let allowed: nat = nc * pow2((k + 2094) as nat);
        assert(allowed * pc == (cv * half) * g) by (nonlinear_arith)
            requires
                allowed == nc * pow2((k + 2094) as nat),
                nc * pc == cv * shift,
                pow2((k + 2094) as nat) * shift == half * g,
        ;
        lemma_mul_inequality(distance((rs * nc) as int, x as int) as int, allowed as int, pc as int);
        lemma_distance_scales((sm * cv) as int, (av * u) as int, g);
        lemma_mul_inequality_converse(
            distance((sm * cv) as int, (av * u) as int) as int,
            (cv * half) as int,
            g as int,
        );
        lemma_mul_unary_negation(sm as int, cv as int);
    }
}

} // verus!
