//! Evaluation of a polynomial by Horner's method.
use crate::arith::{add_spec, fp_add, fp_mul, mul_spec};
use crate::binary64::{is_finite, is_negative, is_zero, FP};
use crate::value::{lemma_zero_plus, lemma_zero_plus_zero, lemma_zero_times};
use vstd::prelude::*;

verus! {

/// The value at `x` of the polynomial with the coefficients `coefs`, lowest
/// power first, as Horner's method gives it: the coefficients are taken from
/// the highest power down, and each step multiplies what has accumulated by
/// `x` and adds the next coefficient, rounding after the product and after
/// the sum.
pub open spec fn horner(coefs: Seq<FP>, x: FP) -> FP
    decreases coefs.len(),
{
    if coefs.len() == 0 {
        0
    } else if coefs.len() == 1 {
        coefs[0]
    } else {
        add_spec(mul_spec(x, horner(coefs.drop_first(), x)), coefs[0])
    }
}

/// At zero a polynomial with finite coefficients takes the value of its
/// constant term. (A constant term that is a negative zero may come out as
/// the positive zero.)
pub proof fn lemma_horner_at_zero(coefs: Seq<FP>)
    requires
        coefs.len() > 0,
        forall|i: int| 0 <= i < coefs.len() ==> is_finite(#[trigger] coefs[i]),
    ensures
        is_finite(horner(coefs, 0)),
        !(is_zero(coefs[0]) && is_negative(coefs[0])) ==> horner(coefs, 0) == coefs[0],
        is_zero(coefs[0]) ==> is_zero(horner(coefs, 0)),
    decreases coefs.len(),
{
    if coefs.len() > 1 {
        let tail: Seq<FP> = coefs.drop_first();
        lemma_horner_at_zero(tail);
        let product: FP = mul_spec(0, horner(tail, 0));
        lemma_zero_times(horner(tail, 0));
        if is_zero(coefs[0]) {
            lemma_zero_plus_zero(product, coefs[0]);
        }
        if !(is_zero(coefs[0]) && is_negative(coefs[0])) {
            lemma_zero_plus(product, coefs[0]);
        }
    }
}

/// Evaluates the polynomial with the coefficients `coefs`, lowest power
/// first, at `x`.
pub fn polyval<const N_COEF: usize>(coefs: [FP; N_COEF], x: FP) -> (r: FP)
    requires
        N_COEF > 0,
    ensures
        r == horner(coefs@, x),
{
    let mut acc: FP = coefs[N_COEF - 1];
    let mut i: usize = N_COEF - 1;
    while i > 0
        invariant
            i < N_COEF,
            acc == horner(coefs@.subrange(i as int, N_COEF as int), x),
        decreases i,
    {
        i = i - 1;
        acc = fp_add(fp_mul(x, acc), coefs[i]);
        proof {
            let tail: Seq<FP> = coefs@.subrange(i as int, N_COEF as int);
            assert(tail.drop_first() =~= coefs@.subrange(i as int + 1, N_COEF as int));
        }
    }
    proof {
        assert(coefs@.subrange(0, N_COEF as int) =~= coefs@);
    }
    acc
}

} // verus!
