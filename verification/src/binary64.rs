//! IEEE 754 binary64 values held as bit patterns.
//!
//! A value of type [`FP`] is the 64-bit encoding of a double-precision number:
//! one sign bit, eleven exponent bits and fifty-two fraction bits. Everything
//! in this module is stated over integers, so that the arithmetic built on it
//! can be reasoned about exactly.
use vstd::arithmetic::power2::pow2;
use vstd::prelude::*;

verus! {

/// A double-precision value, held as its IEEE 754 binary64 bit pattern.
pub type FP = u64;

/// The sign bit of an encoding.
pub const SIGN_BIT: u64 = 0x8000_0000_0000_0000;

/// The encoding of positive infinity.
pub const POSITIVE_INFINITY: u64 = 0x7FF0_0000_0000_0000;

/// The one NaN encoding that the arithmetic of this crate produces.
pub const QUIET_NAN: u64 = 0x7FF8_0000_0000_0000;

/// Two to the power 52: the weight of the implicit leading bit of a normal
/// significand.
pub const IMPLICIT_BIT: u64 = 0x0010_0000_0000_0000;

/// The exponent of the least significant bit of a subnormal number.
pub open spec fn min_exponent() -> int {
    -1074
}

/// Whether the sign bit is set.
pub open spec fn is_negative(x: FP) -> bool {
    x >= SIGN_BIT
}

/// The encoding with its sign bit cleared.
pub open spec fn magnitude(x: FP) -> u64 {
    if x >= SIGN_BIT {
        (x - SIGN_BIT) as u64
    } else {
        x
    }
}

/// The encoding `m` of a non-negative value, with the sign bit set on demand.
pub open spec fn with_sign(negative: bool, m: u64) -> FP
    recommends
        m < SIGN_BIT,
{
    if negative {
        (m + SIGN_BIT) as u64
    } else {
        m
    }
}

/// The same value with the opposite sign.
pub open spec fn negated(x: FP) -> FP {
    with_sign(!is_negative(x), magnitude(x))
}

/// Whether `x` is a NaN: all exponent bits set, and a fraction bit.
pub open spec fn is_nan(x: FP) -> bool {
    magnitude(x) > POSITIVE_INFINITY
}

/// Whether `x` is an infinity: all exponent bits set, and no fraction bit.
pub open spec fn is_infinite(x: FP) -> bool {
    magnitude(x) == POSITIVE_INFINITY
}

/// Whether `x` stands for a number: a zero, a subnormal or a normal one.
pub open spec fn is_finite(x: FP) -> bool {
    magnitude(x) < POSITIVE_INFINITY
}

/// Whether `x` is one of the two zeros.
pub open spec fn is_zero(x: FP) -> bool {
    magnitude(x) == 0
}

/// The eleven exponent bits.
pub open spec fn biased_exponent(x: FP) -> int {
    magnitude(x) as int / IMPLICIT_BIT as int
}

/// The fifty-two fraction bits.
pub open spec fn fraction(x: FP) -> int {
    magnitude(x) as int % IMPLICIT_BIT as int
}

/// The integer significand of a finite value: the fraction bits, with the
/// implicit leading bit unless the value is subnormal.
pub open spec fn significand(x: FP) -> nat {
    if biased_exponent(x) == 0 {
        fraction(x) as nat
    } else {
        (fraction(x) + IMPLICIT_BIT) as nat
    }
}

/// The power of two that scales the integer significand: a finite `x` stands
/// for the number `significand(x) * 2^exponent(x)`, negated when the sign bit
/// is set.
pub open spec fn exponent(x: FP) -> int {
    if biased_exponent(x) == 0 {
        min_exponent()
    } else {
        biased_exponent(x) - 1075
    }
}

/// The significand with the sign of the value.
pub open spec fn signed_significand(x: FP) -> int {
    if is_negative(x) {
        -(significand(x) as int)
    } else {
        significand(x) as int
    }
}

/// The position of a value in the order of the encodings: its magnitude,
/// negated for values with the sign bit set. Among the values that are not
/// NaN it grows with the number an encoding stands for, and both zeros share
/// position 0.
pub open spec fn ordinal(x: FP) -> int {
    if is_negative(x) {
        -(magnitude(x) as int)
    } else {
        magnitude(x) as int
    }
}

/// The number of the highest set bit: the `k` with `2^k <= m < 2^(k+1)`.
pub open spec fn floor_log2(m: nat) -> nat
    decreases m,
{
    if m <= 1 {
        0
    } else {
        1 + floor_log2(m / 2)
    }
}

/// The integer nearest to `n / d`; of two equally near integers, the even one.
pub open spec fn round_half_even(n: nat, d: nat) -> nat
    recommends
        d > 0,
{
    let q = n / d;
    let r = n % d;
    if 2 * r > d || (2 * r == d && q % 2 == 1) {
        q + 1
    } else {
        q
    }
}

/// The exponent of the last place to which `m * 2^e` is rounded: 52 places
/// below its leading bit, but never below the subnormal range.
pub open spec fn quantum(m: nat, e: int) -> int {
    let natural = floor_log2(m) + e - 52;
    if natural < min_exponent() {
        min_exponent()
    } else {
        natural
    }
}

/// `m * 2^e` as a multiple of `2^quantum(m, e)`, rounded to the nearest
/// integer, ties to even.
pub open spec fn rounded_significand(m: nat, e: int) -> nat {
    let q = quantum(m, e);
    if e >= q {
        m * pow2((e - q) as nat)
    } else {
        round_half_even(m, pow2((q - e) as nat))
    }
}

/// The encoding of the binary64 value nearest to `m * 2^e`, for `m > 0`.
///
/// A rounded significand of `2^53` carries into the exponent field, and a
/// result past the largest finite value becomes infinity, both as IEEE 754
/// prescribes for rounding to nearest.
pub open spec fn round_magnitude(m: nat, e: int) -> u64 {
    let bits = (quantum(m, e) - min_exponent()) * IMPLICIT_BIT + rounded_significand(m, e);
    if bits >= POSITIVE_INFINITY {
        POSITIVE_INFINITY
    } else {
        bits as u64
    }
}

/// The binary64 value nearest to `m * 2^e`, with the given sign; a zero keeps
/// the sign.
pub open spec fn round(negative: bool, m: nat, e: int) -> FP {
    if m == 0 {
        with_sign(negative, 0)
    } else {
        with_sign(negative, round_magnitude(m, e))
    }
}

} // verus!
