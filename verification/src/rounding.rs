//! Rounding to nearest, ties to even: from an exact integer multiple of a
//! power of two to the binary64 value that stands for it.
use crate::binary64::{
    floor_log2, quantum, round, rounded_significand, with_sign, FP, IMPLICIT_BIT,
    POSITIVE_INFINITY, SIGN_BIT,
};
use vstd::arithmetic::div_mod::{
    lemma_basic_div, lemma_fundamental_div_mod, lemma_mod_bound, lemma_small_mod,
};
use vstd::arithmetic::mul::{
    lemma_mul_inequality, lemma_mul_is_commutative, lemma_mul_strict_inequality,
};
use vstd::arithmetic::power2::{
    lemma2_to64, lemma2_to64_rest, lemma_pow2_adds, lemma_pow2_pos, lemma_pow2_strictly_increases,
    lemma_pow2_unfold, pow2,
};
use vstd::prelude::*;

verus! {

/// Two to the power 127.
pub const TOP_BIT: u128 = 0x8000_0000_0000_0000_0000_0000_0000_0000;

/// Powers of two grow with their exponent.
pub proof fn lemma_pow2_monotonic(a: nat, b: nat)
    requires
        a <= b,
    ensures
        pow2(a) <= pow2(b),
{
    if a < b {
        lemma_pow2_strictly_increases(a, b);
    }
}

/// The powers of two at the widths that binary64 arithmetic works with.
pub proof fn lemma_pow2_landmarks()
    ensures
        pow2(0) == 1,
        pow2(1) == 2,
        pow2(52) == 0x10_0000_0000_0000,
        pow2(53) == 0x20_0000_0000_0000,
        pow2(54) == 0x40_0000_0000_0000,
        pow2(63) == 0x8000_0000_0000_0000,
        pow2(64) == 0x1_0000_0000_0000_0000,
        pow2(106) == 0x400_0000_0000_0000_0000_0000_0000,
        pow2(127) == 0x8000_0000_0000_0000_0000_0000_0000_0000,
        pow2(128) == u128::MAX + 1,
{
    lemma2_to64();
    lemma2_to64_rest();
    lemma_pow2_adds(64, 42);
    lemma_pow2_adds(64, 63);
    lemma_pow2_adds(64, 64);
}

/// A dividend below `d * b` has a quotient by `d` below `b`.
pub proof fn lemma_quotient_below(x: int, d: int, b: int)
    requires
        d > 0,
        0 <= x < d * b,
    ensures
        x / d < b,
{
    lemma_fundamental_div_mod(x, d);
    lemma_mod_bound(x, d);
    if x / d >= b {
        lemma_mul_inequality(b, x / d, d);
        lemma_mul_is_commutative(b, d);
        lemma_mul_is_commutative(x / d, d);
    }
}

/// A dividend of at least `d * b` has a quotient by `d` of at least `b`.
pub proof fn lemma_quotient_at_least(x: int, d: int, b: int)
    requires
        d > 0,
        d * b <= x,
    ensures
        b <= x / d,
{
    lemma_fundamental_div_mod(x, d);
    lemma_mod_bound(x, d);
    if x / d < b {
        lemma_mul_inequality(x / d + 1, b, d);
        lemma_mul_is_commutative(b, d);
        lemma_mul_is_commutative(x / d + 1, d);
        assert((x / d + 1) * d == (x / d) * d + d) by (nonlinear_arith);
        lemma_mul_is_commutative(x / d, d);
    }
}

/// `floor_log2(m)` is the number of the highest set bit of `m`.
pub proof fn lemma_floor_log2_bounds(m: nat)
    requires
        m > 0,
    ensures
        pow2(floor_log2(m)) <= m < pow2(floor_log2(m) + 1),
    decreases m,
{
    if m <= 1 {
        lemma2_to64();
    } else {
        lemma_floor_log2_bounds(m / 2);
        let k: nat = floor_log2(m / 2);
        lemma_pow2_unfold(k + 1);
        lemma_pow2_unfold(k + 2);
    }
}

/// Only one `k` has `2^k <= m < 2^(k+1)`.
pub proof fn lemma_floor_log2_unique(m: nat, k: nat)
    requires
        pow2(k) <= m < pow2(k + 1),
    ensures
        floor_log2(m) == k,
{
    lemma_pow2_pos(k);
    lemma_floor_log2_bounds(m);
    let j: nat = floor_log2(m);
    if j < k {
        lemma_pow2_monotonic(j + 1, k);
    }
    if j > k {
        lemma_pow2_monotonic(k + 1, j);
    }
}

/// One shifted left by `n` places is two to the power `n`.
proof fn lemma_shift_is_pow2(n: u128)
    requires
        n < 128,
    ensures
        (1u128 << n) == pow2(n as nat),
    decreases n,
{
    if n == 0 {
        assert((1u128 << 0u128) == 1u128) by (bit_vector);
        lemma2_to64();
    } else {
        let p: u128 = (n - 1) as u128;
        lemma_shift_is_pow2(p);
        lemma_pow2_landmarks();
        lemma_pow2_monotonic(p as nat, 126);
        lemma_pow2_adds(126, 1);
        assert((1u128 << n) == 2 * (1u128 << p)) by (bit_vector)
            requires
                n == p + 1,
                n < 128,
        ;
        lemma_pow2_unfold(n as nat);
    }
}

/// Two to the power `n`.
pub fn power_of_two(n: u32) -> (r: u128)
    requires
        n < 128,
    ensures
        r == pow2(n as nat),
{
    proof {
        lemma_shift_is_pow2(n as u128);
    }
    1u128 << (n as u128)
}

/// The number of the highest set bit of `m`.
pub fn highest_bit(m: u128) -> (k: u32)
    requires
        m > 0,
    ensures
        k < 128,
        k == floor_log2(m as nat),
{
    let mut k: u32 = 0;
    let mut x: u128 = m;
    proof {
        lemma_floor_log2_bounds(m as nat);
        lemma_pow2_landmarks();
        if floor_log2(m as nat) >= 128 {
            lemma_pow2_monotonic(128, floor_log2(m as nat));
        }
    }
    while x > 1
        invariant
            x >= 1,
            floor_log2(m as nat) < 128,
            floor_log2(m as nat) == k + floor_log2(x as nat),
        decreases x,
    {
        x = x / 2;
        k = k + 1;
    }
    k
}

/// The encoding `m` of a non-negative value, with the sign bit set on demand.
pub fn attach_sign(negative: bool, m: u64) -> (r: FP)
    requires
        m < SIGN_BIT,
    ensures
        r == with_sign(negative, m),
{
    if negative {
        m + SIGN_BIT
    } else {
        m
    }
}

/// A rounded significand has at most 53 bits, or is `2^53`; above the
/// subnormal range it has its leading bit at `2^52` at least.
pub proof fn lemma_rounded_significand_bounds(m: nat, e: int)
    requires
        m > 0,
    ensures
        rounded_significand(m, e) <= 2 * IMPLICIT_BIT,
        quantum(m, e) > -1074 ==> rounded_significand(m, e) >= IMPLICIT_BIT,
{
    lemma_pow2_landmarks();
    lemma_floor_log2_bounds(m);
    let k: nat = floor_log2(m);
    let q: int = quantum(m, e);
    if e >= q {
        let s: nat = (e - q) as nat;
        lemma_pow2_adds(k + 1, s);
        lemma_pow2_adds(k, s);
        lemma_pow2_monotonic(k + 1 + s, 53);
        lemma_pow2_pos(s);
        lemma_mul_strict_inequality(m as int, pow2(k + 1) as int, pow2(s) as int);
        lemma_mul_inequality(pow2(k) as int, m as int, pow2(s) as int);
    } else {
        let d: nat = (q - e) as nat;
        lemma_pow2_pos(d);
        lemma_pow2_monotonic(k + 1, d + 53);
        lemma_pow2_adds(d, 53);
        lemma_quotient_below(m as int, pow2(d) as int, pow2(53) as int);
        if q > -1074 {
            lemma_pow2_adds(d, 52);
            lemma_quotient_at_least(m as int, pow2(d) as int, pow2(52) as int);
        }
    }
}

/// The binary64 value nearest to `m * 2^e`, ties to even, with the given sign.
pub fn round_to_nearest(negative: bool, m: u128, e: i32) -> (r: FP)
    ensures
        r == round(negative, m as nat, e as int),
{
    if m == 0 {
        return attach_sign(negative, 0);
    }
    let k: u32 = highest_bit(m);
    let natural: i64 = k as i64 + e as i64 - 52;
    proof {
        lemma_floor_log2_bounds(m as nat);
        lemma_pow2_landmarks();
        lemma_rounded_significand_bounds(m as nat, e as int);
    }
    if natural > 971 {
        return attach_sign(negative, POSITIVE_INFINITY);
    }
    let q: i64 = if natural < -1074 {
        -1074
    } else {
        natural
    };
    let n: u64 = if e as i64 >= q {
        let s: u32 = (e as i64 - q) as u32;
        let p: u128 = power_of_two(s);
        proof {
            lemma_pow2_adds((k + 1) as nat, s as nat);
            lemma_pow2_monotonic((k + 1 + s) as nat, 53);
            lemma_pow2_pos(s as nat);
            lemma_mul_strict_inequality(m as int, pow2((k + 1) as nat) as int, p as int);
        }
        (m * p) as u64
    } else {
        let d: i64 = q - e as i64;
        if d > 128 {
            proof {
                lemma_pow2_monotonic(129, d as nat);
                lemma_pow2_adds(128, 1);
                lemma_basic_div(m as int, pow2(d as nat) as int);
                lemma_small_mod(m as nat, pow2(d as nat));
            }
            0
        } else if d == 128 {
            proof {
                lemma_basic_div(m as int, pow2(128) as int);
                lemma_small_mod(m as nat, pow2(128));
            }
            if m > TOP_BIT {
                1
            } else {
                0
            }
        } else {
            let p: u128 = power_of_two(d as u32);
            proof {
                lemma_pow2_pos(d as nat);
            }
            let floor: u128 = m / p;
            let rem: u128 = m % p;
            let half: u128 = p / 2;
            proof {
                lemma_pow2_unfold(d as nat);
                lemma_pow2_monotonic((k + 1) as nat, (d + 53) as nat);
                lemma_pow2_adds(d as nat, 53);
                lemma_quotient_below(m as int, p as int, pow2(53) as int);
            }
            if rem > half || (rem == half && floor % 2 == 1) {
                (floor + 1) as u64
            } else {
                floor as u64
            }
        }
    };
    assert(n == rounded_significand(m as nat, e as int));
    let bits: u64 = ((q + 1074) as u64) * IMPLICIT_BIT + n;
    if bits >= POSITIVE_INFINITY {
        attach_sign(negative, POSITIVE_INFINITY)
    } else {
        attach_sign(negative, bits)
    }
}

} // verus!
