//! Arithmetic and comparison on binary64 values, in integer arithmetic.
//!
//! Each operation returns the value that IEEE 754 prescribes under rounding
//! to nearest, ties to even: the exact result of the operation on the numbers
//! that the operands stand for, rounded once. An invalid operation, or one
//! with a NaN operand, returns [`QUIET_NAN`].
use crate::binary64::{
    exponent, floor_log2, is_finite, is_infinite, is_nan, is_negative, is_zero, magnitude,
    min_exponent, negated, ordinal, round, round_half_even, round_magnitude, signed_significand,
    significand, with_sign, FP, IMPLICIT_BIT, POSITIVE_INFINITY, QUIET_NAN, SIGN_BIT,
};
use crate::rounding::{
    attach_sign, highest_bit, lemma_floor_log2_bounds, lemma_floor_log2_unique,
    lemma_pow2_landmarks, lemma_pow2_monotonic, lemma_quotient_below, power_of_two,
    round_to_nearest,
};
use vstd::arithmetic::div_mod::{
    lemma_basic_div, lemma_fundamental_div_mod_converse, lemma_small_mod,
};
use vstd::arithmetic::mul::{
    lemma_mul_inequality, lemma_mul_strict_inequality, lemma_mul_unary_negation,
};
use vstd::arithmetic::power2::{lemma_pow2_adds, lemma_pow2_pos, lemma_pow2_unfold, pow2};
use vstd::prelude::*;

verus! {

/// The product of two values.
pub open spec fn mul_spec(a: FP, b: FP) -> FP {
    let negative = is_negative(a) != is_negative(b);
    if is_nan(a) || is_nan(b) {
        QUIET_NAN
    } else if is_infinite(a) || is_infinite(b) {
        if is_zero(a) || is_zero(b) {
            QUIET_NAN
        } else {
            with_sign(negative, POSITIVE_INFINITY)
        }
    } else {
        round(negative, significand(a) * significand(b), exponent(a) + exponent(b))
    }
}

/// The smaller of the exponents of two values.
pub open spec fn common_exponent(a: FP, b: FP) -> int {
    if exponent(a) <= exponent(b) {
        exponent(a)
    } else {
        exponent(b)
    }
}

/// The exact sum of two finite values, as a multiple of
/// `2^common_exponent(a, b)`.
pub open spec fn exact_sum(a: FP, b: FP) -> int {
    let e = common_exponent(a, b);
    signed_significand(a) * pow2((exponent(a) - e) as nat) + signed_significand(b) * pow2(
        (exponent(b) - e) as nat,
    )
}

/// The sum of two values. An exact zero is positive, unless both operands are
/// negative.
pub open spec fn add_spec(a: FP, b: FP) -> FP {
    if is_nan(a) || is_nan(b) {
        QUIET_NAN
    } else if is_infinite(a) {
        if is_infinite(b) && is_negative(a) != is_negative(b) {
            QUIET_NAN
        } else {
            a
        }
    } else if is_infinite(b) {
        b
    } else {
        let s = exact_sum(a, b);
        if s == 0 {
            with_sign(is_negative(a) && is_negative(b), 0)
        } else if s < 0 {
            round(true, (-s) as nat, common_exponent(a, b))
        } else {
            round(false, s as nat, common_exponent(a, b))
        }
    }
}

/// The difference of two values: the sum of the first and the negated second.
pub open spec fn sub_spec(a: FP, b: FP) -> FP {
    add_spec(a, negated(b))
}

/// The significand of a finite non-zero value, scaled up by a power of two
/// until its leading bit has the weight `2^52`.
pub open spec fn normal_significand(x: FP) -> nat {
    significand(x) * pow2((52 - floor_log2(significand(x))) as nat)
}

/// The exponent that goes with [`normal_significand`]: `x` stands for
/// `normal_significand(x) * 2^normal_exponent(x)`.
pub open spec fn normal_exponent(x: FP) -> int {
    exponent(x) - (52 - floor_log2(significand(x)))
}

/// The encoding of the binary64 value nearest to `(n / d) * 2^e`, for `n` and
/// `d` with `d <= 2 * n` and `n < 2 * d`, so that the quotient's leading bit
/// is at `e` or one below.
pub open spec fn round_quotient(n: nat, d: nat, e: int) -> u64 {
    let leading = if n >= d {
        e
    } else {
        e - 1
    };
    let q = if leading - 52 < min_exponent() {
        min_exponent()
    } else {
        leading - 52
    };
    let r = if e >= q {
        round_half_even(n * pow2((e - q) as nat), d)
    } else {
        round_half_even(n, d * pow2((q - e) as nat))
    };
    let bits = (q - min_exponent()) * IMPLICIT_BIT + r;
    if bits >= POSITIVE_INFINITY {
        POSITIVE_INFINITY
    } else {
        bits as u64
    }
}

/// The quotient of two values.
pub open spec fn div_spec(a: FP, b: FP) -> FP {
    let negative = is_negative(a) != is_negative(b);
    if is_nan(a) || is_nan(b) {
        QUIET_NAN
    } else if is_infinite(a) {
        if is_infinite(b) {
            QUIET_NAN
        } else {
            with_sign(negative, POSITIVE_INFINITY)
        }
    } else if is_infinite(b) {
        with_sign(negative, 0)
    } else if is_zero(b) {
        if is_zero(a) {
            QUIET_NAN
        } else {
            with_sign(negative, POSITIVE_INFINITY)
        }
    } else if is_zero(a) {
        with_sign(negative, 0)
    } else {
        with_sign(
            negative,
            round_quotient(
                normal_significand(a),
                normal_significand(b),
                normal_exponent(a) - normal_exponent(b),
            ),
        )
    }
}

/// `a < b`: false when either is NaN; the two zeros are equal.
pub open spec fn lt_spec(a: FP, b: FP) -> bool {
    !is_nan(a) && !is_nan(b) && ordinal(a) < ordinal(b)
}

/// `a <= b`: false when either is NaN; the two zeros are equal.
pub open spec fn le_spec(a: FP, b: FP) -> bool {
    !is_nan(a) && !is_nan(b) && ordinal(a) <= ordinal(b)
}

/// `a == b`: false when either is NaN; the two zeros are equal.
pub open spec fn equal_spec(a: FP, b: FP) -> bool {
    !is_nan(a) && !is_nan(b) && ordinal(a) == ordinal(b)
}

/// `a > b`: false when either is NaN.
pub open spec fn gt_spec(a: FP, b: FP) -> bool {
    lt_spec(b, a)
}

/// `a >= b`: false when either is NaN.
pub open spec fn ge_spec(a: FP, b: FP) -> bool {
    le_spec(b, a)
}

/// Whether the sign bit of `x` is set.
pub fn sign_of(x: FP) -> (r: bool)
    ensures
        r == is_negative(x),
{
    x >= SIGN_BIT
}

/// The encoding of `x` with its sign bit cleared.
pub fn magnitude_of(x: FP) -> (r: u64)
    ensures
        r == magnitude(x),
        r < SIGN_BIT,
{
    if x >= SIGN_BIT {
        x - SIGN_BIT
    } else {
        x
    }
}

/// The integer significand of `x`.
pub fn significand_of(x: FP) -> (r: u64)
    ensures
        r == significand(x),
        r < 2 * IMPLICIT_BIT,
{
    let m: u64 = magnitude_of(x);
    if m / IMPLICIT_BIT == 0 {
        m % IMPLICIT_BIT
    } else {
        m % IMPLICIT_BIT + IMPLICIT_BIT
    }
}

/// The power of two that scales the integer significand of `x`.
pub fn exponent_of(x: FP) -> (r: i32)
    ensures
        r == exponent(x),
        -1074 <= r <= 972,
{
    let biased: u64 = magnitude_of(x) / IMPLICIT_BIT;
    if biased == 0 {
        -1074
    } else {
        biased as i32 - 1075
    }
}

/// The same value with the opposite sign.
pub fn fp_neg(x: FP) -> (r: FP)
    ensures
        r == negated(x),
{
    if x >= SIGN_BIT {
        x - SIGN_BIT
    } else {
        x + SIGN_BIT
    }
}

/// The product `a * b`, correctly rounded.
pub fn fp_mul(a: FP, b: FP) -> (r: FP)
    ensures
        r == mul_spec(a, b),
{
    let negative: bool = sign_of(a) != sign_of(b);
    let ma: u64 = magnitude_of(a);
    let mb: u64 = magnitude_of(b);
    if ma > POSITIVE_INFINITY || mb > POSITIVE_INFINITY {
        QUIET_NAN
    } else if ma == POSITIVE_INFINITY || mb == POSITIVE_INFINITY {
        if ma == 0 || mb == 0 {
            QUIET_NAN
        } else {
            attach_sign(negative, POSITIVE_INFINITY)
        }
    } else {
        let sa: u64 = significand_of(a);
        let sb: u64 = significand_of(b);
        assert(sa * sb < 0x20_0000_0000_0000 * 0x20_0000_0000_0000) by (nonlinear_arith)
            requires
                sa < 0x20_0000_0000_0000,
                sb < 0x20_0000_0000_0000,
        ;
        let m: u128 = (sa as u128) * (sb as u128);
        round_to_nearest(negative, m, exponent_of(a) + exponent_of(b))
    }
}

/// The encoding of a normal value, from its exponent and significand.
proof fn lemma_normal_encoding(x: FP)
    requires
        is_finite(x),
        exponent(x) > -1074,
    ensures
        magnitude(x) == (exponent(x) + 1074) * IMPLICIT_BIT + significand(x),
        IMPLICIT_BIT <= significand(x) < 2 * IMPLICIT_BIT,
        exponent(x) <= 971,
{
}

/// An addend more than 55 binary places below the last place of `sh * 2^d`
/// does not change it: same signs.
proof fn lemma_far_addend_same(sh: nat, sl: nat, d: nat, el: int)
    requires
        0x10_0000_0000_0000 <= sh < 0x20_0000_0000_0000,
        sl < 0x20_0000_0000_0000,
        d >= 55,
        -1074 <= el,
        el + d <= 971,
    ensures
        round_magnitude(sh * pow2(d) + sl, el) == (el + d + 1074) * IMPLICIT_BIT + sh,
{
    let p: nat = pow2(d);
    let m: nat = sh * p + sl;
    lemma_pow2_landmarks();
    lemma_pow2_unfold(55);
    lemma_pow2_monotonic(55, d);
    lemma_pow2_adds(52, d);
    lemma_pow2_adds(53, d);
    lemma_mul_inequality(0x10_0000_0000_0000, sh as int, p as int);
    lemma_mul_inequality(sh as int + 1, 0x20_0000_0000_0000, p as int);
    assert((sh + 1) * p == sh * p + p) by (nonlinear_arith);
    lemma_floor_log2_unique(m, 52 + d);
    lemma_fundamental_div_mod_converse(m as int, p as int, sh as int, sl as int);
}

/// An addend more than 55 binary places below the last place of `sh * 2^d`
/// does not change it: opposite signs.
proof fn lemma_far_addend_opposite(sh: nat, sl: nat, d: nat, el: int)
    requires
        0x10_0000_0000_0000 <= sh < 0x20_0000_0000_0000,
        sl < 0x20_0000_0000_0000,
        d >= 55,
        -1074 <= el,
        el + d <= 971,
    ensures
        sh * pow2(d) > sl,
        round_magnitude((sh * pow2(d) - sl) as nat, el) == (el + d + 1074) * IMPLICIT_BIT + sh,
{
    let p: nat = pow2(d);
    lemma_pow2_landmarks();
    lemma_pow2_unfold(55);
    lemma_pow2_monotonic(55, d);
    lemma_pow2_adds(52, d);
    lemma_pow2_adds(53, d);
    lemma_mul_inequality(0x10_0000_0000_0000, sh as int, p as int);
    if sl == 0 {
        lemma_far_addend_same(sh, 0, d, el);
    } else if sh > 0x10_0000_0000_0000 {
        let m: nat = (sh * p - sl) as nat;
        assert((sh - 1) * p == sh * p - p) by (nonlinear_arith);
        lemma_mul_inequality(0x10_0000_0000_0000, sh as int - 1, p as int);
        lemma_mul_inequality(sh as int, 0x20_0000_0000_0000, p as int);
        lemma_floor_log2_unique(m, 52 + d);
        lemma_fundamental_div_mod_converse(m as int, p as int, sh as int - 1, p as int - sl as int);
    } else {
        let h: nat = pow2((d - 1) as nat);
        lemma_pow2_unfold(d);
        lemma_pow2_unfold(54);
        lemma_pow2_monotonic(54, (d - 1) as nat);
        lemma_pow2_adds(52, (d - 1) as nat);
        lemma_pow2_adds(53, (d - 1) as nat);
        assert(sh * p == 0x10_0000_0000_0000 * p) by (nonlinear_arith)
            requires
                sh == 0x10_0000_0000_0000,
        ;
        let m: nat = (sh * p - sl) as nat;
        lemma_floor_log2_unique(m, 51 + d);
        lemma_fundamental_div_mod_converse(
            m as int,
            h as int,
            0x20_0000_0000_0000 - 1,
            h as int - sl as int,
        );
    }
}

/// The exact sum of two values, written over the larger exponent's distance
/// from the smaller.
proof fn lemma_exact_sum(hi: FP, lo: FP)
    requires
        exponent(hi) >= exponent(lo),
    ensures
        common_exponent(hi, lo) == exponent(lo),
        exact_sum(hi, lo) == (if is_negative(hi) {
            -(significand(hi) * pow2((exponent(hi) - exponent(lo)) as nat))
        } else {
            (significand(hi) * pow2((exponent(hi) - exponent(lo)) as nat)) as int
        }) + signed_significand(lo),
{
    let d: nat = (exponent(hi) - exponent(lo)) as nat;
    lemma_pow2_landmarks();
    lemma_mul_unary_negation(significand(hi) as int, pow2(d) as int);
    assert(signed_significand(lo) * pow2(0) == signed_significand(lo));
}

/// The sum of two finite values, the first with the larger exponent.
fn finite_sum(hi: FP, lo: FP) -> (r: FP)
    requires
        is_finite(hi),
        is_finite(lo),
        exponent(hi) >= exponent(lo),
    ensures
        r == add_spec(hi, lo),
{
    let eh: i32 = exponent_of(hi);
    let el: i32 = exponent_of(lo);
    let sh: u64 = significand_of(hi);
    let sl: u64 = significand_of(lo);
    let nh: bool = sign_of(hi);
    let nl: bool = sign_of(lo);
    let d: i32 = eh - el;
    proof {
        lemma_pow2_landmarks();
        lemma_exact_sum(hi, lo);
    }
    if d > 64 {
        proof {
            lemma_normal_encoding(hi);
            if nh == nl {
                lemma_far_addend_same(sh as nat, sl as nat, d as nat, el as int);
            } else {
                lemma_far_addend_opposite(sh as nat, sl as nat, d as nat, el as int);
            }
        }
        hi
    } else {
        let p: u128 = power_of_two(d as u32);
        proof {
            lemma_pow2_monotonic(d as nat, 64);
            lemma_pow2_pos(d as nat);
            lemma_mul_strict_inequality(sh as int, 0x20_0000_0000_0000, p as int);
            lemma_mul_inequality(p as int, 0x1_0000_0000_0000_0000, 0x20_0000_0000_0000);
        }
        let big: u128 = (sh as u128) * p;
        let small: u128 = sl as u128;
        if nh == nl {
            round_to_nearest(nh, big + small, el)
        } else if big > small {
            round_to_nearest(nh, big - small, el)
        } else if big < small {
            round_to_nearest(nl, small - big, el)
        } else {
            0
        }
    }
}

/// The sum `a + b`, correctly rounded.
pub fn fp_add(a: FP, b: FP) -> (r: FP)
    ensures
        r == add_spec(a, b),
{
    let ma: u64 = magnitude_of(a);
    let mb: u64 = magnitude_of(b);
    if ma > POSITIVE_INFINITY || mb > POSITIVE_INFINITY {
        QUIET_NAN
    } else if ma == POSITIVE_INFINITY {
        if mb == POSITIVE_INFINITY && sign_of(a) != sign_of(b) {
            QUIET_NAN
        } else {
            a
        }
    } else if mb == POSITIVE_INFINITY {
        b
    } else if exponent_of(a) >= exponent_of(b) {
        finite_sum(a, b)
    } else {
        finite_sum(b, a)
    }
}

/// The difference `a - b`, correctly rounded.
pub fn fp_sub(a: FP, b: FP) -> (r: FP)
    ensures
        r == sub_spec(a, b),
{
    fp_add(a, fp_neg(b))
}

/// The normalised significand and exponent of a finite non-zero value.
fn normalised(x: FP) -> (r: (u64, i32))
    requires
        is_finite(x),
        !is_zero(x),
    ensures
        r.0 == normal_significand(x),
        r.1 == normal_exponent(x),
        IMPLICIT_BIT <= r.0 < 2 * IMPLICIT_BIT,
        -1126 <= r.1 <= 971,
{
    let s: u64 = significand_of(x);
    let e: i32 = exponent_of(x);
    let k: u32 = highest_bit(s as u128);
    proof {
        lemma_pow2_landmarks();
        lemma_floor_log2_bounds(s as nat);
        if k > 52 {
            lemma_pow2_monotonic(53, k as nat);
        }
    }
    let shift: u32 = 52 - k;
    let p: u128 = power_of_two(shift);
    proof {
        lemma_pow2_adds(k as nat, shift as nat);
        lemma_pow2_adds((k + 1) as nat, shift as nat);
        lemma_pow2_pos(shift as nat);
        lemma_mul_inequality(pow2(k as nat) as int, s as int, p as int);
        lemma_mul_strict_inequality(s as int, pow2((k + 1) as nat) as int, p as int);
        if e > -1074 {
            lemma_floor_log2_unique(s as nat, 52);
        }
    }
    (((s as u128) * p) as u64, e - shift as i32)
}

/// The magnitude of the quotient of two normalised significands, scaled by
/// `2^e`.
fn quotient_magnitude(n: u64, d: u64, e: i32) -> (r: u64)
    requires
        IMPLICIT_BIT <= n < 2 * IMPLICIT_BIT,
        IMPLICIT_BIT <= d < 2 * IMPLICIT_BIT,
        -2200 <= e <= 2200,
    ensures
        r == round_quotient(n as nat, d as nat, e as int),
        r <= POSITIVE_INFINITY,
{
    let leading: i32 = if n >= d {
        e
    } else {
        e - 1
    };
    let q: i32 = if leading - 52 < -1074 {
        -1074
    } else {
        leading - 52
    };
    proof {
        lemma_pow2_landmarks();
    }
    let rounded: u64 = if e >= q {
        let s: u32 = (e - q) as u32;
        let p: u128 = power_of_two(s);
        proof {
            lemma_pow2_monotonic(s as nat, 53);
            lemma_pow2_pos(s as nat);
            lemma_mul_strict_inequality(n as int, 0x20_0000_0000_0000, p as int);
            lemma_mul_inequality(p as int, 0x20_0000_0000_0000, 0x20_0000_0000_0000);
        }
        let scaled: u128 = (n as u128) * p;
        let floor: u128 = scaled / (d as u128);
        let rem: u128 = scaled % (d as u128);
        proof {
            if n >= d {
                lemma_pow2_monotonic(s as nat, 52);
                lemma_mul_inequality(p as int, 0x10_0000_0000_0000, n as int);
                assert(n * p <= n * 0x10_0000_0000_0000) by (nonlinear_arith)
                    requires
                        p * n <= 0x10_0000_0000_0000 * n,
                ;
                assert(n * 0x10_0000_0000_0000 < d * 0x20_0000_0000_0000);
            } else {
                lemma_mul_inequality(p as int, 0x20_0000_0000_0000, n as int);
                assert(n * p <= n * 0x20_0000_0000_0000) by (nonlinear_arith)
                    requires
                        p * n <= 0x20_0000_0000_0000 * n,
                ;
            }
            lemma_quotient_below(scaled as int, d as int, 0x20_0000_0000_0000);
        }
        if 2 * rem > d as u128 || (2 * rem == d as u128 && floor % 2 == 1) {
            (floor + 1) as u64
        } else {
            floor as u64
        }
    } else {
        let gap: i32 = q - e;
        proof {
            let den: nat = d as nat * pow2(gap as nat);
            lemma_pow2_monotonic(1, gap as nat);
            lemma_mul_inequality(2, pow2(gap as nat) as int, d as int);
            assert(d * pow2(gap as nat) == pow2(gap as nat) * d) by (nonlinear_arith);
            if gap >= 2 {
                lemma_pow2_unfold(2);
                lemma_pow2_monotonic(2, gap as nat);
                lemma_mul_inequality(4, pow2(gap as nat) as int, d as int);
            }
            lemma_basic_div(n as int, den as int);
            lemma_small_mod(n as nat, den);
        }
        if gap == 1 && n > d {
            1
        } else {
            0
        }
    };
    let bits: u64 = ((q + 1074) as u64) * IMPLICIT_BIT + rounded;
    if bits >= POSITIVE_INFINITY {
        POSITIVE_INFINITY
    } else {
        bits
    }
}

/// The quotient `a / b`, correctly rounded.
pub fn fp_div(a: FP, b: FP) -> (r: FP)
    ensures
        r == div_spec(a, b),
{
    let negative: bool = sign_of(a) != sign_of(b);
    let ma: u64 = magnitude_of(a);
    let mb: u64 = magnitude_of(b);
    if ma > POSITIVE_INFINITY || mb > POSITIVE_INFINITY {
        QUIET_NAN
    } else if ma == POSITIVE_INFINITY {
        if mb == POSITIVE_INFINITY {
            QUIET_NAN
        } else {
            attach_sign(negative, POSITIVE_INFINITY)
        }
    } else if mb == POSITIVE_INFINITY {
        attach_sign(negative, 0)
    } else if mb == 0 {
        if ma == 0 {
            QUIET_NAN
        } else {
            attach_sign(negative, POSITIVE_INFINITY)
        }
    } else if ma == 0 {
        attach_sign(negative, 0)
    } else {
        let (n, en) = normalised(a);
        let (d, ed) = normalised(b);
        attach_sign(negative, quotient_magnitude(n, d, en - ed))
    }
}

/// The position of `x` in the order of the encodings.
fn ordinal_of(x: FP) -> (r: i128)
    ensures
        r == ordinal(x),
{
    if x >= SIGN_BIT {
        -((x - SIGN_BIT) as i128)
    } else {
        x as i128
    }
}

/// Whether `x` is a NaN.
pub fn fp_is_nan(x: FP) -> (r: bool)
    ensures
        r == is_nan(x),
{
    magnitude_of(x) > POSITIVE_INFINITY
}

/// `a < b`.
pub fn fp_lt(a: FP, b: FP) -> (r: bool)
    ensures
        r == lt_spec(a, b),
{
    !fp_is_nan(a) && !fp_is_nan(b) && ordinal_of(a) < ordinal_of(b)
}

/// `a <= b`.
pub fn fp_le(a: FP, b: FP) -> (r: bool)
    ensures
        r == le_spec(a, b),
{
    !fp_is_nan(a) && !fp_is_nan(b) && ordinal_of(a) <= ordinal_of(b)
}

/// `a == b`.
pub fn fp_eq(a: FP, b: FP) -> (r: bool)
    ensures
        r == equal_spec(a, b),
{
    !fp_is_nan(a) && !fp_is_nan(b) && ordinal_of(a) == ordinal_of(b)
}

/// `a > b`.
pub fn fp_gt(a: FP, b: FP) -> (r: bool)
    ensures
        r == gt_spec(a, b),
{
    fp_lt(b, a)
}

/// `a >= b`.
pub fn fp_ge(a: FP, b: FP) -> (r: bool)
    ensures
        r == ge_spec(a, b),
{
    fp_le(b, a)
}

} // verus!
