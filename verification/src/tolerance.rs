//! Approximate-equality checks for computed quantities.
//!
//! Two magnitudes are accepted either when they differ by at most one
//! unit, or when their ratio lies within `precision / (precision + epsilon)`
//! and `precision / (precision - epsilon)`.  On rejection the offending
//! ratio is returned for inspection.

use vstd::prelude::*;
use crate::fixed::{mag, SCALE, UDecimal};

verus! {

/// Default ratio precision: one part in a thousand.
pub const DEFAULT_PRECISION: u128 = 1000;

/// Default ratio tolerance: one part per mill.
pub const DEFAULT_EPSILON: u128 = 1;

/// The verdict of the tolerance check on `x` against `y`.  The upper
/// bound of the admitted band saturates at the largest representable
/// ratio.
pub open spec fn tolerance_verdict(x: u128, y: u128, precision: u128, epsilon: u128) -> Result<
    (),
    UDecimal,
> {
    if mag(x - y) <= 1 {
        Ok(())
    } else {
        let den = if precision + epsilon > u128::MAX {
            u128::MAX as int
        } else {
            precision + epsilon
        };
        let lower = precision * SCALE / den;
        let upper_raw = precision * SCALE / (precision - epsilon);
        let upper = if upper_raw > u128::MAX {
            u128::MAX as int
        } else {
            upper_raw
        };
        let q = x * SCALE / y as int;
        if lower <= q <= upper {
            Ok(())
        } else {
            Err(UDecimal { inner: q as u128 })
        }
    }
}

/// Accepts `x` and `y` when they differ by at most one unit or when
/// their ratio stays within `epsilon` parts per `precision` of one;
/// otherwise hands back the ratio.
pub fn acceptable_computation_error(x: u128, y: u128, precision: u128, epsilon: u128) -> (r:
    Result<(), UDecimal>)
    requires
        x <= i128::MAX,
        y <= i128::MAX,
        0 < precision,
        epsilon < precision,
        mag(x - y) > 1 ==> y > 0 && x * SCALE / y as int <= u128::MAX,
    ensures
        r == tolerance_verdict(x, y, precision, epsilon),
{
    let delta: u128 = if x >= y {
        x - y
    } else {
        y - x
    };
    if delta > 1 {
        let den: u128 = precision.saturating_add(epsilon);
        proof {
            // The lower bound of the band never saturates: it is a
            // ratio of at most one.
            vstd::arithmetic::mul::lemma_mul_nonnegative(precision as int, SCALE as int);
            vstd::arithmetic::div_mod::lemma_div_is_ordered_by_denominator(
                precision as int * SCALE as int,
                precision as int,
                den as int,
            );
            vstd::arithmetic::div_mod::lemma_div_multiples_vanish(
                SCALE as int,
                precision as int,
            );
            vstd::arithmetic::mul::lemma_mul_is_commutative(precision as int, SCALE as int);
        }
        let lower: UDecimal = UDecimal::from_rational_saturating(precision, den);
        let upper: UDecimal = UDecimal::from_rational_saturating(precision, precision - epsilon);
        let q: UDecimal = UDecimal::from_rational_saturating(x, y);
        if lower.inner <= q.inner && q.inner <= upper.inner {
            Ok(())
        } else {
            Err(q)
        }
    } else {
        Ok(())
    }
}

/// The tolerance check with the default precision and epsilon.
pub fn default_acceptable_computation_error(x: u128, y: u128) -> (r: Result<(), UDecimal>)
    requires
        x <= i128::MAX,
        y <= i128::MAX,
        mag(x - y) > 1 ==> y > 0 && x * SCALE / y as int <= u128::MAX,
    ensures
        r == tolerance_verdict(x, y, DEFAULT_PRECISION, DEFAULT_EPSILON),
{
    acceptable_computation_error(x, y, DEFAULT_PRECISION, DEFAULT_EPSILON)
}

} // verus!
