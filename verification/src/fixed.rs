//! Signed and unsigned fixed-point decimals with eighteen fractional
//! digits, the numeric base of the whole engine.
//!
//! Every arithmetic operation is total and error-returning: overflow and
//! division by zero are reported through [`crate::Error`], never by a
//! panic.  Results of multiplication and division are truncated toward
//! zero.  The signed type uses the symmetric range
//! `-i128::MAX ..= i128::MAX`, so every value has a representable
//! negation and magnitude.

use vstd::prelude::*;
use crate::Error;

verus! {

/// Number of fractional units in one whole unit.
pub const SCALE: u128 = 1_000_000_000_000_000_000;

/// Magnitude of an integer.
pub open spec fn mag(a: int) -> int {
    if a >= 0 {
        a
    } else {
        -a
    }
}

/// Whether an integer fits the symmetric signed fixed-point range.
pub open spec fn representable(a: int) -> bool {
    -(i128::MAX as int) <= a <= i128::MAX as int
}

/// Product of two fixed-point values, truncated toward zero.
pub open spec fn scaled_mul(a: int, b: int) -> int {
    let m = mag(a) * mag(b) / (SCALE as int);
    if (a < 0) <==> (b < 0) {
        m
    } else {
        -m
    }
}

/// Quotient of two fixed-point values, truncated toward zero.
pub open spec fn scaled_div(a: int, b: int) -> int {
    let q = mag(a) * (SCALE as int) / mag(b);
    if (a < 0) <==> (b < 0) {
        q
    } else {
        -q
    }
}

/// Computes `a * b / SCALE` exactly, by splitting both factors at the
/// scale so that no intermediate outgrows the unsigned range unless the
/// result itself does: `None` exactly when the quotient exceeds
/// `u128::MAX`.
pub fn mul_div_by_scale(a: u128, b: u128) -> (r: Option<u128>)
    ensures
        match r {
            Some(v) => v == a * b / (SCALE as int),
            None => a * b / (SCALE as int) > u128::MAX,
        },
{
    let q1: u128 = a / SCALE;
    let r1: u128 = a % SCALE;
    let q2: u128 = b / SCALE;
    let r2: u128 = b % SCALE;
    proof {
        let s = SCALE as int;
        vstd::arithmetic::div_mod::lemma_fundamental_div_mod(a as int, s);
        vstd::arithmetic::div_mod::lemma_fundamental_div_mod(b as int, s);
        vstd::arithmetic::div_mod::lemma_mod_division_less_than_divisor(a as int, s);
        vstd::arithmetic::div_mod::lemma_mod_division_less_than_divisor(b as int, s);
        assert(a * b == (q1 * b + q2 * r1) * s + r1 * r2) by (nonlinear_arith)
            requires
                a == s * (q1 as int) + r1,
                b == s * (q2 as int) + r2,
                s == SCALE as int,
        ;
        vstd::arithmetic::div_mod::lemma_hoist_over_denominator(
            r1 as int * r2 as int,
            q1 as int * b as int + q2 as int * r1 as int,
            SCALE as nat,
        );
        assert(a * b / s == q1 * b + q2 * r1 + (r1 * r2) / s);
        vstd::arithmetic::mul::lemma_mul_nonnegative(q1 as int, b as int);
        vstd::arithmetic::mul::lemma_mul_nonnegative(q2 as int, r1 as int);
        vstd::arithmetic::mul::lemma_mul_nonnegative(r1 as int, r2 as int);
        vstd::arithmetic::div_mod::lemma_div_pos_is_pos(r1 as int * r2 as int, s);
        assert(r1 * r2 <= u128::MAX) by (nonlinear_arith)
            requires
                0 <= r1 < SCALE,
                0 <= r2 < SCALE,
                SCALE == 1000000000000000000u128,
        ;
    }
    let t1: u128 = match q1.checked_mul(b) {
        Some(v) => v,
        None => {
            return None;
        },
    };
    let t2: u128 = match q2.checked_mul(r1) {
        Some(v) => v,
        None => {
            return None;
        },
    };
    let t3: u128 = (r1 * r2) / SCALE;
    let s1: u128 = match t1.checked_add(t2) {
        Some(v) => v,
        None => {
            return None;
        },
    };
    match s1.checked_add(t3) {
        Some(v) => Some(v),
        None => None,
    }
}

/// Computes `r * SCALE / b` for `r < b` by binary long division over
/// the bits of `SCALE`: the running remainder stays below `b` and the
/// quotient below `SCALE`, so no intermediate can overflow, whatever
/// the sizes of `r` and `b`.
fn rem_scale_div(r: u128, b: u128) -> (q: u128)
    requires
        0 < b,
        r < b,
    ensures
        q == r * SCALE / b as int,
        q < SCALE,
{
    let mut quot: u128 = 0;
    let mut rem: u128 = 0;
    // Two to the sixtieth power, the first power of two above SCALE.
    let mut div: u128 = 1_152_921_504_606_846_976;
    let mut k: usize = 0;
    proof {
        vstd::arithmetic::power2::lemma2_to64();
        vstd::arithmetic::power2::lemma2_to64_rest();
        vstd::arithmetic::div_mod::lemma_basic_div(SCALE as int, div as int);
        vstd::arithmetic::mul::lemma_mul_basics(r as int);
    }
    while k < 60
        invariant
            0 < b,
            r < b,
            k <= 60,
            div == vstd::arithmetic::power2::pow2((60 - k) as nat),
            rem < b,
            quot < SCALE,
            quot * b + rem == r * (SCALE as int / div as int),
        decreases 60 - k,
    {
        proof {
            vstd::arithmetic::power2::lemma_pow2_unfold((60 - k) as nat);
            vstd::arithmetic::power2::lemma_pow2_pos((59 - k) as nat);
            vstd::arithmetic::div_mod::lemma_div_multiples_vanish(
                vstd::arithmetic::power2::pow2((59 - k) as nat) as int,
                2,
            );
        }
        let half: u128 = div / 2;
        let bit: u128 = (SCALE / half) % 2;
        let ghost p_old: int = SCALE as int / div as int;
        let ghost p_new: int = SCALE as int / half as int;
        proof {
            // Reading one more bit doubles the processed prefix of SCALE.
            vstd::arithmetic::div_mod::lemma_div_denominator(SCALE as int, half as int, 2);
            vstd::arithmetic::div_mod::lemma_fundamental_div_mod(p_new, 2);
            assert(p_new == 2 * p_old + bit);
            assert(r * p_new == 2 * (r * p_old) + bit * r) by (nonlinear_arith)
                requires
                    p_new == 2 * p_old + bit,
            ;
            if bit == 1 {
                assert(bit * r == r) by (nonlinear_arith)
                    requires
                        bit == 1,
                ;
            } else {
                assert(bit * r == 0) by (nonlinear_arith)
                    requires
                        bit == 0,
                ;
            }
        }
        // Double the remainder and add the bit's worth of r, folding
        // each overflow of b into the quotient increment.
        let mut inc: u128 = 0;
        let mut t: u128;
        if rem >= b - rem {
            inc = 1;
            t = rem - (b - rem);
        } else {
            t = rem + rem;
        }
        if bit == 1 {
            if t >= b - r {
                inc = inc + 1;
                t = t - (b - r);
            } else {
                t = t + r;
            }
        }
        proof {
            let q2: int = 2 * quot + inc;
            let ghost incb: int = inc as int * b as int;
            if inc == 0 {
                assert(incb == 0) by (nonlinear_arith)
                    requires
                        incb == inc * b,
                        inc == 0,
                ;
            } else if inc == 1 {
                assert(incb == b) by (nonlinear_arith)
                    requires
                        incb == inc * b,
                        inc == 1,
                ;
            } else {
                assert(inc == 2);
                assert(incb == 2 * b) by (nonlinear_arith)
                    requires
                        incb == inc * b,
                        inc == 2,
                ;
            }
            assert(t == 2 * rem + bit * r - incb);
            assert(q2 * b == 2 * (quot * b) + incb) by (nonlinear_arith)
                requires
                    q2 == 2 * quot + inc,
                    incb == inc * b,
            ;
            assert(q2 * b + t == r * p_new);
            // The new quotient stays below SCALE.
            vstd::arithmetic::div_mod::lemma_div_nonincreasing(SCALE as int, half as int);
            vstd::arithmetic::mul::lemma_mul_inequality(r as int, b as int - 1, p_new);
            vstd::arithmetic::mul::lemma_mul_inequality(p_new, SCALE as int, b as int - 1);
            vstd::arithmetic::mul::lemma_mul_is_commutative(b as int - 1, p_new);
            vstd::arithmetic::mul::lemma_mul_is_commutative(SCALE as int, b as int - 1);
            vstd::arithmetic::mul::lemma_mul_strict_inequality(
                b as int - 1,
                b as int,
                SCALE as int,
            );
            vstd::arithmetic::mul::lemma_mul_is_commutative(b as int, SCALE as int);
            assert(q2 * b < SCALE * b);
            vstd::arithmetic::mul::lemma_mul_strict_inequality_converse(
                q2,
                SCALE as int,
                b as int,
            );
        }
        quot = quot * 2 + inc;
        rem = t;
        div = half;
        k = k + 1;
    }
    proof {
        vstd::arithmetic::power2::lemma2_to64();
        vstd::arithmetic::div_mod::lemma_div_basics(SCALE as int);
        vstd::arithmetic::div_mod::lemma_fundamental_div_mod_converse_div(
            r as int * SCALE as int,
            b as int,
            quot as int,
            rem as int,
        );
    }
    quot
}

/// Computes `a * SCALE / b` exactly through the division of `a` by `b`
/// and long division of the remainder: `None` exactly when the true
/// quotient exceeds `u128::MAX`.
pub fn scale_div(a: u128, b: u128) -> (r: Option<u128>)
    requires
        b > 0,
    ensures
        match r {
            Some(v) => v == a * SCALE / b as int,
            None => a * SCALE / b as int > u128::MAX,
        },
{
    let q1: u128 = a / b;
    let r1: u128 = a % b;
    proof {
        let s = SCALE as int;
        vstd::arithmetic::div_mod::lemma_fundamental_div_mod(a as int, b as int);
        vstd::arithmetic::div_mod::lemma_mod_division_less_than_divisor(a as int, b as int);
        assert(a * s == (q1 as int * s) * b + r1 * s) by (nonlinear_arith)
            requires
                a == b as int * (q1 as int) + r1,
                s == SCALE as int,
        ;
        vstd::arithmetic::div_mod::lemma_hoist_over_denominator(
            r1 as int * s,
            q1 as int * s,
            b as nat,
        );
        assert(a * s / b as int == q1 * s + (r1 * s) / b as int);
        vstd::arithmetic::mul::lemma_mul_nonnegative(q1 as int, s);
        vstd::arithmetic::mul::lemma_mul_nonnegative(r1 as int, s);
        vstd::arithmetic::div_mod::lemma_div_pos_is_pos(r1 as int * s, b as int);
    }
    let part: u128 = rem_scale_div(r1, b);
    let q1s: u128 = match q1.checked_mul(SCALE) {
        Some(v) => v,
        None => {
            return None;
        },
    };
    match q1s.checked_add(part) {
        Some(v) => Some(v),
        None => None,
    }
}

/// A signed fixed-point decimal: `inner` counts units of `1 / SCALE`.
#[derive(Clone, Copy, Debug, PartialEq, Eq, Structural)]
pub struct Decimal {
    pub inner: i128,
}

/// An unsigned fixed-point decimal: `inner` counts units of `1 / SCALE`.
#[derive(Clone, Copy, Debug, PartialEq, Eq, Structural)]
pub struct UDecimal {
    pub inner: u128,
}

impl Decimal {
    /// Membership in the symmetric range, preserved by every operation.
    pub open spec fn valid(self) -> bool {
        self.inner > i128::MIN
    }

    pub fn zero() -> (r: Decimal)
        ensures
            r.inner == 0,
            r.valid(),
    {
        Decimal { inner: 0 }
    }

    pub fn from_inner(inner: i128) -> (r: Decimal)
        requires
            inner != i128::MIN,
        ensures
            r.inner == inner,
            r.valid(),
    {
        Decimal { inner }
    }

    pub fn into_inner(self) -> (r: i128)
        ensures
            r == self.inner,
    {
        self.inner
    }

    /// The decimal representing `units` whole units.
    pub fn from_units(units: u64) -> (r: Decimal)
        ensures
            r.inner == units * SCALE,
            r.valid(),
    {
        proof {
            vstd::arithmetic::mul::lemma_mul_inequality(
                units as int,
                u64::MAX as int,
                SCALE as int,
            );
        }
        Decimal { inner: (units as i128) * (SCALE as i128) }
    }

    /// Reinterprets a raw balance as a decimal with the same inner count.
    pub fn try_from_balance(balance: u128) -> (r: Result<Decimal, Error>)
        ensures
            match r {
                Ok(d) => balance <= i128::MAX && d.inner == balance && d.valid(),
                Err(e) => e == Error::ArithmeticOverflow && balance > i128::MAX,
            },
    {
        if balance > i128::MAX as u128 {
            Err(Error::ArithmeticOverflow)
        } else {
            Ok(Decimal { inner: balance as i128 })
        }
    }

    /// The ratio `n / d`, truncated toward zero.
    pub fn try_from_rational(n: u128, d: u128) -> (r: Result<Decimal, Error>)
        ensures
            match r {
                Ok(v) => d != 0 && n * SCALE / d as int <= i128::MAX && v.inner == n * SCALE
                    / d as int && v.valid(),
                Err(Error::DivisionByZero) => d == 0,
                Err(Error::ArithmeticOverflow) => d != 0 && n * SCALE / d as int > i128::MAX,
                Err(_) => false,
            },
    {
        if d == 0 {
            return Err(Error::DivisionByZero);
        }
        match scale_div(n, d) {
            None => Err(Error::ArithmeticOverflow),
            Some(q) => {
                if q > i128::MAX as u128 {
                    Err(Error::ArithmeticOverflow)
                } else {
                    Ok(Decimal { inner: q as i128 })
                }
            },
        }
    }

    pub fn neg(self) -> (r: Decimal)
        requires
            self.valid(),
        ensures
            r.inner == -self.inner,
            r.valid(),
    {
        Decimal { inner: -self.inner }
    }

    pub fn magnitude(self) -> (r: u128)
        requires
            self.valid(),
        ensures
            r == mag(self.inner as int),
    {
        if self.inner >= 0 {
            self.inner as u128
        } else {
            (-self.inner) as u128
        }
    }

    pub fn is_positive(self) -> (r: bool)
        ensures
            r == (self.inner > 0),
    {
        self.inner > 0
    }

    pub fn is_negative(self) -> (r: bool)
        ensures
            r == (self.inner < 0),
    {
        self.inner < 0
    }

    pub fn is_zero(self) -> (r: bool)
        ensures
            r == (self.inner == 0),
    {
        self.inner == 0
    }

    pub fn try_add(self, other: Decimal) -> (r: Result<Decimal, Error>)
        ensures
            match r {
                Ok(d) => d.inner == self.inner + other.inner && d.valid(),
                Err(e) => e == Error::ArithmeticOverflow && !representable(
                    self.inner + other.inner,
                ),
            },
    {
        match self.inner.checked_add(other.inner) {
            Some(v) => {
                if v == i128::MIN {
                    Err(Error::ArithmeticOverflow)
                } else {
                    Ok(Decimal { inner: v })
                }
            },
            None => Err(Error::ArithmeticOverflow),
        }
    }

    pub fn try_sub(self, other: Decimal) -> (r: Result<Decimal, Error>)
        ensures
            match r {
                Ok(d) => d.inner == self.inner - other.inner && d.valid(),
                Err(e) => e == Error::ArithmeticOverflow && !representable(
                    self.inner - other.inner,
                ),
            },
    {
        match self.inner.checked_sub(other.inner) {
            Some(v) => {
                if v == i128::MIN {
                    Err(Error::ArithmeticOverflow)
                } else {
                    Ok(Decimal { inner: v })
                }
            },
            None => Err(Error::ArithmeticOverflow),
        }
    }

    /// Fixed-point product, truncated toward zero; fails exactly when
    /// the true result leaves the representable range.
    pub fn try_mul(self, other: Decimal) -> (r: Result<Decimal, Error>)
        requires
            self.valid(),
            other.valid(),
        ensures
            match r {
                Ok(d) => {
                    &&& mag(self.inner as int) * mag(other.inner as int) / (SCALE as int)
                        <= i128::MAX
                    &&& d.inner == scaled_mul(self.inner as int, other.inner as int)
                    &&& d.valid()
                },
                Err(e) => e == Error::ArithmeticOverflow && mag(self.inner as int) * mag(
                    other.inner as int,
                ) / (SCALE as int) > i128::MAX,
            },
    {
        let am: u128 = self.magnitude();
        let bm: u128 = other.magnitude();
        match mul_div_by_scale(am, bm) {
            None => Err(Error::ArithmeticOverflow),
            Some(q) => {
                if q > i128::MAX as u128 {
                    Err(Error::ArithmeticOverflow)
                } else {
                    let neg: bool = (self.inner < 0) != (other.inner < 0);
                    if neg {
                        Ok(Decimal { inner: -(q as i128) })
                    } else {
                        Ok(Decimal { inner: q as i128 })
                    }
                }
            },
        }
    }

    /// Fixed-point quotient, truncated toward zero; fails exactly when
    /// the true result leaves the representable range.
    pub fn try_div(self, other: Decimal) -> (r: Result<Decimal, Error>)
        requires
            self.valid(),
            other.valid(),
        ensures
            match r {
                Ok(d) => {
                    &&& other.inner != 0
                    &&& mag(self.inner as int) * (SCALE as int) / mag(other.inner as int)
                        <= i128::MAX
                    &&& d.inner == scaled_div(self.inner as int, other.inner as int)
                    &&& d.valid()
                },
                Err(Error::DivisionByZero) => other.inner == 0,
                Err(Error::ArithmeticOverflow) => other.inner != 0 && mag(self.inner as int) * (
                SCALE as int) / mag(other.inner as int) > i128::MAX,
                Err(_) => false,
            },
    {
        if other.inner == 0 {
            return Err(Error::DivisionByZero);
        }
        let am: u128 = self.magnitude();
        let bm: u128 = other.magnitude();
        match scale_div(am, bm) {
            None => Err(Error::ArithmeticOverflow),
            Some(q) => {
                if q > i128::MAX as u128 {
                    Err(Error::ArithmeticOverflow)
                } else {
                    let neg: bool = (self.inner < 0) != (other.inner < 0);
                    if neg {
                        Ok(Decimal { inner: -(q as i128) })
                    } else {
                        Ok(Decimal { inner: q as i128 })
                    }
                }
            },
        }
    }
}

impl UDecimal {
    /// The ratio `n / d`, truncated toward zero, saturating at the
    /// largest representable value.
    pub fn from_rational_saturating(n: u128, d: u128) -> (r: UDecimal)
        requires
            d > 0,
        ensures
            r.inner == if n * SCALE / d as int > u128::MAX {
                u128::MAX as int
            } else {
                n * SCALE / d as int
            },
    {
        match scale_div(n, d) {
            Some(v) => UDecimal { inner: v },
            None => UDecimal { inner: u128::MAX },
        }
    }
}

} // verus!
