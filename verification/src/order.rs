//! The partial order of binary64 values.
use crate::arith::{fp_is_nan, fp_lt, lt_spec};
use crate::binary64::{is_nan, FP};
use std::cmp::Ordering;
use vstd::prelude::*;

verus! {

/// How `a` stands to `b`: nothing when either is NaN; otherwise less, equal
/// or greater by the numbers they stand for, the two zeros being equal.
pub open spec fn partial_order(a: FP, b: FP) -> Option<Ordering> {
    if is_nan(a) || is_nan(b) {
        None
    } else if lt_spec(a, b) {
        Some(Ordering::Less)
    } else if lt_spec(b, a) {
        Some(Ordering::Greater)
    } else {
        Some(Ordering::Equal)
    }
}

/// How `a` stands to `b`.
pub fn fp_partial_order(a: FP, b: FP) -> (r: Option<Ordering>)
    ensures
        r == partial_order(a, b),
{
    if fp_is_nan(a) || fp_is_nan(b) {
        None
    } else if fp_lt(a, b) {
        Some(Ordering::Less)
    } else if fp_lt(b, a) {
        Some(Ordering::Greater)
    } else {
        Some(Ordering::Equal)
    }
}

} // verus!
