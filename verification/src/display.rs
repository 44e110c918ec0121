//! The units in decimal notation.
//!
//! A value is written with a fixed number of digits after the point, which
//! are the digits of the number rounded to nearest, ties to even, and the
//! sign wherever the sign bit is set.
use crate::arith::{exponent_of, magnitude_of, sign_of, significand_of};
use crate::binary64::{
    is_infinite, is_nan, is_negative, round_half_even, FP, POSITIVE_INFINITY,
};
use crate::rounding::{lemma_pow2_landmarks, lemma_pow2_monotonic, power_of_two};
use crate::value::scaled_magnitude;
use vstd::arithmetic::div_mod::{
    lemma_basic_div, lemma_div_by_multiple, lemma_fundamental_div_mod,
    lemma_fundamental_div_mod_converse, lemma_mod_bound, lemma_mod_multiples_basic,
    lemma_small_mod,
};
use vstd::arithmetic::mul::{
    lemma_mul_inequality, lemma_mul_is_associative, lemma_mul_strict_inequality,
    lemma_mul_strictly_positive,
};
use vstd::arithmetic::power2::{lemma_pow2_adds, lemma_pow2_pos, lemma_pow2_unfold, pow2};
use vstd::prelude::*;

verus! {

/// `String::push` of the standard library appends the given character to
/// the end of the string.
pub assume_specification[ String::push ](s: &mut String, ch: char)
    ensures
        final(s)@ == old(s)@.push(ch),
;

/// Ten to the power `n`.
pub open spec fn pow10(n: nat) -> nat
    decreases n,
{
    if n == 0 {
        1
    } else {
        10 * pow10((n - 1) as nat)
    }
}

/// The character of the decimal digit `d`.
pub open spec fn digit_char(d: nat) -> char {
    if d == 0 {
        '0'
    } else if d == 1 {
        '1'
    } else if d == 2 {
        '2'
    } else if d == 3 {
        '3'
    } else if d == 4 {
        '4'
    } else if d == 5 {
        '5'
    } else if d == 6 {
        '6'
    } else if d == 7 {
        '7'
    } else if d == 8 {
        '8'
    } else {
        '9'
    }
}

/// The decimal digits of `n`, the most significant first, without leading
/// zeros.
pub open spec fn decimal(n: nat) -> Seq<char>
    decreases n,
{
    if n < 10 {
        seq![digit_char(n)]
    } else {
        decimal(n / 10).push(digit_char(n % 10))
    }
}

/// The last `width` decimal digits of `n`, with leading zeros.
pub open spec fn decimal_places(n: nat, width: nat) -> Seq<char>
    decreases width,
{
    if width == 0 {
        Seq::empty()
    } else {
        decimal_places(n / 10, (width - 1) as nat).push(digit_char(n % 10))
    }
}

/// The character of a decimal digit.
fn digit(d: u8) -> (c: char)
    requires
        d < 10,
    ensures
        c == digit_char(d as nat),
{
    if d == 0 {
        '0'
    } else if d == 1 {
        '1'
    } else if d == 2 {
        '2'
    } else if d == 3 {
        '3'
    } else if d == 4 {
        '4'
    } else if d == 5 {
        '5'
    } else if d == 6 {
        '6'
    } else if d == 7 {
        '7'
    } else if d == 8 {
        '8'
    } else {
        '9'
    }
}

/// Appends the decimal digits of `n`.
fn push_decimal(s: &mut String, n: u128)
    ensures
        final(s)@ == old(s)@ + decimal(n as nat),
    decreases n,
{
    if n >= 10 {
        push_decimal(s, n / 10);
    }
    s.push(digit((n % 10) as u8));
}

/// Appends the last `width` decimal digits of `n`.
fn push_places(s: &mut String, n: u128, width: u32)
    ensures
        final(s)@ == old(s)@ + decimal_places(n as nat, width as nat),
    decreases width,
{
    if width > 0 {
        push_places(s, n / 10, width - 1);
        s.push(digit((n % 10) as u8));
    }
}

/// The number that the decimal digits `d` stand for, the least significant
/// digit first.
pub open spec fn le_value(d: Seq<u8>) -> nat
    decreases d.len(),
{
    if d.len() == 0 {
        0
    } else {
        d[0] as nat + 10 * le_value(d.drop_first())
    }
}

/// Whether `d` holds decimal digits, at least one, the most significant of
/// them not zero.
pub open spec fn canonical(d: Seq<u8>) -> bool {
    &&& d.len() > 0
    &&& forall|i: int| 0 <= i < d.len() ==> d[i] < 10
    &&& d.last() != 0
}

/// A digit more at the top weighs ten to the number of the digits below it.
proof fn lemma_le_value_push(d: Seq<u8>, x: u8)
    ensures
        le_value(d.push(x)) == le_value(d) + x * pow10(d.len()),
    decreases d.len(),
{
    let longer: Seq<u8> = d.push(x);
    if d.len() == 0 {
        assert(longer.drop_first() =~= Seq::<u8>::empty());
        assert(le_value(longer.drop_first()) == 0);
        assert(le_value(longer) == x);
        assert(x * pow10(0) == x) by (nonlinear_arith)
            requires
                pow10(0) == 1,
        ;
    } else {
        assert(longer.drop_first() =~= d.drop_first().push(x));
        lemma_le_value_push(d.drop_first(), x);
        let below: nat = pow10((d.len() - 1) as nat);
        assert(pow10(d.len()) == 10 * below);
        assert(10 * (x * below) == x * (10 * below)) by (nonlinear_arith);
        assert(le_value(longer) == d[0] + 10 * le_value(d.drop_first().push(x)));
        assert(le_value(d) == d[0] + 10 * le_value(d.drop_first()));
    }
}

/// Canonical digits stand for a positive number.
proof fn lemma_canonical_positive(d: Seq<u8>)
    requires
        canonical(d),
    ensures
        le_value(d) >= 1,
    decreases d.len(),
{
    if d.len() > 1 {
        lemma_canonical_positive(d.drop_first());
    }
}

/// The digits of a number of two digits or more are the digits of its tenth
/// and its last digit.
proof fn lemma_decimal_step(d: Seq<u8>)
    requires
        canonical(d),
        d.len() >= 2,
    ensures
        decimal(le_value(d)) == decimal(le_value(d.drop_first())).push(digit_char(d[0] as nat)),
{
    lemma_canonical_positive(d.drop_first());
}

/// The decimal digits of `n`, the least significant first.
fn digits_of(n: u64) -> (d: Vec<u8>)
    requires
        n > 0,
    ensures
        canonical(d@),
        le_value(d@) == n,
{
    let mut d: Vec<u8> = Vec::new();
    let mut m: u64 = n;
    assert(pow10(0) * n == n) by (nonlinear_arith)
        requires
            pow10(0) == 1,
    ;
    while m > 0
        invariant
            forall|i: int| 0 <= i < d@.len() ==> d@[i] < 10,
            le_value(d@) + pow10(d@.len()) * m == n,
            m == 0 ==> d@.len() > 0 && d@.last() != 0,
        decreases m,
    {
        let low: u8 = (m % 10) as u8;
        proof {
            lemma_le_value_push(d@, low);
            let p: nat = pow10(d@.len());
            assert(low * p + (10 * p) * (m / 10) == p * m) by (nonlinear_arith)
                requires
                    m == 10 * (m / 10) + low,
            ;
        }
        d.push(low);
        m = m / 10;
    }
    d
}

/// Doubles the number that the digits stand for.
fn double(d: &mut Vec<u8>)
    requires
        canonical(old(d)@),
    ensures
        canonical(final(d)@),
        le_value(final(d)@) == 2 * le_value(old(d)@),
{
    let n: usize = d.len();
    let ghost before: Seq<u8> = d@;
    let mut carry: u8 = 0;
    let mut i: usize = 0;
    assert(d@.take(0) =~= Seq::<u8>::empty());
    while i < n
        invariant
            i <= n,
            d@.len() == n,
            before.len() == n,
            canonical(before),
            carry <= 1,
            forall|j: int| 0 <= j < i ==> d@[j] < 10,
            forall|j: int| i <= j < n ==> d@[j] == before[j],
            le_value(d@.take(i as int)) + carry * pow10(i as nat) == 2 * le_value(
                before.take(i as int),
            ),
            i == n && carry == 0 ==> d@[n - 1] != 0,
        decreases n - i,
    {
        assert(before[i as int] < 10);
        let t: u8 = 2 * d[i] + carry;
        let low: u8 = if t >= 10 {
            t - 10
        } else {
            t
        };
        let ghost lower: Seq<u8> = d@.take(i as int);
        d[i] = low;
        proof {
            assert(d@.take(i as int) =~= lower);
            assert(d@.take(i + 1) =~= lower.push(low));
            assert(before.take(i + 1) =~= before.take(i as int).push(before[i as int]));
            lemma_le_value_push(lower, low);
            lemma_le_value_push(before.take(i as int), before[i as int]);
            let p: nat = pow10(i as nat);
            let up: nat = if t >= 10 {
                1
            } else {
                0
            };
            assert(low * p + up * (10 * p) + carry * p == 2 * (before[i as int] * p) + 2 * (carry
                * p)) by (nonlinear_arith)
                requires
                    low + 10 * up == 2 * before[i as int] + carry,
            ;
        }
        carry = if t >= 10 {
            1
        } else {
            0
        };
        i = i + 1;
    }
    proof {
        assert(d@.take(n as int) =~= d@);
        assert(before.take(n as int) =~= before);
        lemma_le_value_push(d@, carry);
    }
    if carry > 0 {
        d.push(carry);
    }
}

/// The decimal digits of `m * 2^e`, the least significant first.
fn digits_of_scaled(m: u64, e: u32) -> (d: Vec<u8>)
    requires
        m > 0,
    ensures
        canonical(d@),
        le_value(d@) == m * pow2(e as nat),
{
    let mut d: Vec<u8> = digits_of(m);
    let mut i: u32 = 0;
    proof {
        lemma_pow2_landmarks();
        assert(m * pow2(0) == m) by (nonlinear_arith)
            requires
                pow2(0) == 1,
        ;
    }
    while i < e
        invariant
            i <= e,
            canonical(d@),
            le_value(d@) == m * pow2(i as nat),
        decreases e - i,
    {
        proof {
            lemma_pow2_unfold((i + 1) as nat);
            assert(2 * (m * pow2(i as nat)) == m * (2 * pow2(i as nat))) by (nonlinear_arith);
        }
        double(&mut d);
        i = i + 1;
    }
    d
}

/// Appends the number that the digits `d` stand for.
fn push_digits(s: &mut String, d: &Vec<u8>)
    requires
        canonical(d@),
    ensures
        final(s)@ == old(s)@ + decimal(le_value(d@)),
{
    let n: usize = d.len();
    let mut i: usize = n - 1;
    proof {
        let top: Seq<u8> = d@.skip(i as int);
        assert(top.drop_first() =~= Seq::<u8>::empty());
        assert(le_value(top.drop_first()) == 0);
        assert(le_value(top) == d@[i as int]);
        assert(d@[i as int] < 10);
    }
    s.push(digit(d[i]));
    while i > 0
        invariant
            i < n,
            n == d@.len(),
            canonical(d@),
            s@ == old(s)@ + decimal(le_value(d@.skip(i as int))),
        decreases i,
    {
        i = i - 1;
        proof {
            let tail: Seq<u8> = d@.skip(i as int);
            assert(tail.drop_first() =~= d@.skip(i + 1));
            lemma_decimal_step(tail);
        }
        s.push(digit(d[i]));
    }
    proof {
        assert(d@.skip(0) =~= d@);
    }
}

/// The powers of ten up to the eighteenth.
proof fn lemma_pow10_values()
    ensures
        pow10(0) == 1,
        pow10(1) == 10,
        pow10(2) == 100,
        pow10(3) == 1000,
        pow10(18) == 1_000_000_000_000_000_000,
        forall|n: nat| n <= 18 ==> 0 < #[trigger] pow10(n) <= 1_000_000_000_000_000_000,
{
    reveal_with_fuel(pow10, 20);
    assert forall|n: nat| n <= 18 implies 0 < #[trigger] pow10(n) <= 1_000_000_000_000_000_000 by {
        lemma_pow10_grows(n, 18);
    }
}

/// The powers of ten grow with the exponent.
proof fn lemma_pow10_grows(a: nat, b: nat)
    requires
        a <= b,
    ensures
        0 < pow10(a) <= pow10(b),
    decreases b,
{
    if a == 0 {
        if b > 0 {
            lemma_pow10_grows(0, (b - 1) as nat);
        }
    } else {
        lemma_pow10_grows((a - 1) as nat, (b - 1) as nat);
    }
}

/// Ten to the power `n`.
fn ten_to(n: u32) -> (r: u128)
    requires
        n <= 18,
    ensures
        r == pow10(n as nat),
{
    let mut r: u128 = 1;
    let mut i: u32 = 0;
    proof {
        lemma_pow10_values();
    }
    while i < n
        invariant
            i <= n,
            n <= 18,
            r == pow10(i as nat),
            forall|k: nat| k <= 18 ==> 0 < #[trigger] pow10(k) <= 1_000_000_000_000_000_000,
        decreases n - i,
    {
        r = r * 10;
        i = i + 1;
    }
    r
}

/// The absolute value of a finite `x` in units of `10^-places`, rounded to
/// nearest, ties to even.
pub open spec fn rounded_units(x: FP, places: nat) -> nat {
    round_half_even(scaled_magnitude(x) * pow10(places), pow2(1074))
}

/// `x` in decimal notation with `places` digits after the point: `NaN` for a
/// NaN, otherwise a minus sign if the sign bit is set, then `inf` for an
/// infinity and the rounded number for all else.
pub open spec fn fixed(x: FP, places: nat) -> Seq<char> {
    if is_nan(x) {
        seq!['N', 'a', 'N']
    } else {
        let sign = if is_negative(x) {
            seq!['-']
        } else {
            Seq::<char>::empty()
        };
        if is_infinite(x) {
            sign + seq!['i', 'n', 'f']
        } else {
            sign + decimal(rounded_units(x, places) / pow10(places)) + seq!['.'] + decimal_places(
                rounded_units(x, places) % pow10(places),
                places,
            )
        }
    }
}

/// Rounding a ratio takes no notice of a factor that numerator and
/// denominator share.
proof fn lemma_round_half_even_cancels(a: nat, b: nat, c: nat)
    requires
        b > 0,
        c > 0,
    ensures
        round_half_even(a * c, b * c) == round_half_even(a, b),
{
    let q: int = a as int / b as int;
    let r: int = a as int % b as int;
    lemma_fundamental_div_mod(a as int, b as int);
    lemma_mod_bound(a as int, b as int);
    lemma_mul_strictly_positive(b as int, c as int);
    lemma_mul_strict_inequality(r, b as int, c as int);
    lemma_mul_inequality(0, r, c as int);
    assert(a * c == q * (b * c) + r * c) by (nonlinear_arith)
        requires
            a == b * q + r,
    ;
    lemma_fundamental_div_mod_converse((a * c) as int, (b * c) as int, q, r * c);
    assert(2 * (r * c) == (2 * r) * c) by (nonlinear_arith);
    if 2 * r > b {
        lemma_mul_strict_inequality(b as int, 2 * r, c as int);
    } else if 2 * r < b {
        lemma_mul_strict_inequality(2 * r, b as int, c as int);
    }
}

/// A whole multiple of the denominator rounds to the multiplier.
proof fn lemma_round_half_even_exact(k: nat, d: nat)
    requires
        d > 0,
    ensures
        round_half_even(k * d, d) == k,
{
    lemma_div_by_multiple(k as int, d as int);
    lemma_mod_multiples_basic(k as int, d as int);
}

/// Appends `x` in decimal notation with `places` digits after the point.
pub fn push_fixed(s: &mut String, x: FP, places: u32)
    requires
        1 <= places <= 18,
    ensures
        final(s)@ == old(s)@ + fixed(x, places as nat),
{
    let m: u64 = magnitude_of(x);
    if m > POSITIVE_INFINITY {
        s.push('N');
        s.push('a');
        s.push('N');
        return ;
    }
    if sign_of(x) {
        s.push('-');
    }
    if m == POSITIVE_INFINITY {
        s.push('i');
        s.push('n');
        s.push('f');
        return ;
    }
    let sig: u64 = significand_of(x);
    let e: i32 = exponent_of(x);
    let scale: u128 = ten_to(places);
    proof {
        lemma_pow2_landmarks();
        lemma_pow10_values();
    }
    if e >= 0 {
        let digits: Vec<u8> = digits_of_scaled(sig, e as u32);
        proof {
            let whole: nat = sig as nat * pow2(e as nat);
            lemma_pow2_adds(e as nat, 1074);
            lemma_pow2_pos(1074);
            lemma_mul_is_associative(sig as int, pow2(e as nat) as int, pow2(1074) as int);
            assert((whole * pow2(1074)) * scale == (whole * scale) * pow2(1074))
                by (nonlinear_arith);
            lemma_round_half_even_exact((whole * scale) as nat, pow2(1074));
            lemma_div_by_multiple(whole as int, scale as int);
            lemma_mod_multiples_basic(whole as int, scale as int);
        }
        push_digits(s, &digits);
        s.push('.');
        push_places(s, 0, places);
    } else {
        let d: u32 = (-e) as u32;
        assert(sig * scale < 0x20_0000_0000_0000 * 1_000_000_000_000_000_000) by (nonlinear_arith)
            requires
                sig < 0x20_0000_0000_0000,
                0 < scale <= 1_000_000_000_000_000_000,
        ;
        let scaled: u128 = (sig as u128) * scale;
        proof {
            let rest: nat = pow2((1074 - d) as nat);
            lemma_pow2_adds(d as nat, (1074 - d) as nat);
            lemma_pow2_pos(d as nat);
            lemma_pow2_pos((1074 - d) as nat);
            assert((sig * rest) * scale == scaled * rest) by (nonlinear_arith)
                requires
                    scaled == sig * scale,
            ;
            lemma_round_half_even_cancels(scaled as nat, pow2(d as nat), rest);
        }
        let units: u128 = if d >= 120 {
            proof {
                lemma_pow2_monotonic(120, d as nat);
                lemma_pow2_adds(64, 56);
                vstd::arithmetic::power2::lemma2_to64_rest();
                lemma_basic_div(scaled as int, pow2(d as nat) as int);
                lemma_small_mod(scaled as nat, pow2(d as nat));
            }
            0
        } else {
            let p: u128 = power_of_two(d);
            proof {
                lemma_pow2_unfold(d as nat);
            }
            let floor: u128 = scaled / p;
            let rem: u128 = scaled % p;
            let half: u128 = p / 2;
            if rem > half || (rem == half && floor % 2 == 1) {
                floor + 1
            } else {
                floor
            }
        };
        push_decimal(s, units / scale);
        s.push('.');
        push_places(s, units % scale, places);
    }
}

} // verus!
