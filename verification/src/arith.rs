//! Fixed-point arithmetic helpers: all scaling in this crate is done by a
//! multiplication followed by a division that rounds toward negative
//! infinity, computed here without overflow.

use vstd::prelude::*;
use vstd::arithmetic::div_mod::lemma_fundamental_div_mod;
use vstd::arithmetic::div_mod::lemma_fundamental_div_mod_converse_div;

verus! {

/// True when a mathematical integer is representable as an `i64`.
pub open spec fn fits_i64(x: int) -> bool {
    i64::MIN <= x <= i64::MAX
}

/// `a * b / d` rounded toward negative infinity, which for a positive
/// divisor is the Euclidean quotient.
pub fn mul_div_floor(a: i64, b: i64, d: i64) -> (r: i64)
    requires
        d > 0,
        fits_i64(a * b / (d as int)),
    ensures
        r == a * b / (d as int),
{
    proof {
        assert(i128::MIN < (a as int) * (b as int) < i128::MAX) by (nonlinear_arith)
            requires
                i64::MIN <= a <= i64::MAX,
                i64::MIN <= b <= i64::MAX,
        ;
    }
    let p: i128 = (a as i128) * (b as i128);
    let du: u128 = d as u128;
    if p >= 0 {
        let q: u128 = (p as u128) / du;
        proof {
            assert(q == p as int / d as int);
            assert(fits_i64(q as int));
        }
        q as i64
    } else {
        let pa: u128 = (-p) as u128;
        let q: u128 = pa / du;
        let rem: u128 = pa % du;
        let qi: i128 = if rem == 0 {
            -(q as i128)
        } else {
            -(q as i128) - 1
        };
        proof {
            lemma_fundamental_div_mod(pa as int, du as int);
            assert(pa == du * (pa as int / du as int) + pa as int % du as int);
            if rem == 0 {
                assert(p == (d as int) * qi + 0) by (nonlinear_arith)
                    requires
                        p == -(pa as int),
                        d == du,
                        pa == du * (q as int),
                        qi == -(q as int),
                ;
                lemma_fundamental_div_mod_converse_div(p as int, d as int, qi as int, 0);
            } else {
                assert(p == (d as int) * qi + (du - rem)) by (nonlinear_arith)
                    requires
                        p == -(pa as int),
                        d == du,
                        pa == du * (q as int) + rem,
                        qi == -(q as int) - 1,
                ;
                lemma_fundamental_div_mod_converse_div(p as int, d as int, qi as int, du as int - rem as int);
            }
            assert(qi == p as int / d as int);
        }
        qi as i64
    }
}

/// `a * b / d` rounded toward negative infinity for accumulator-sized
/// values: the factors are bounded so that the product stays within
/// `i128`, and the quotient always does.
pub fn mul_i128_div_floor(a: i128, b: i128, d: i128) -> (r: i128)
    requires
        d > 0,
        -100_000_000_000_000_000_000_000_000_000_000 <= a
            <= 100_000_000_000_000_000_000_000_000_000_000,
        0 <= b <= 1_000_000,
    ensures
        r == a * b / (d as int),
{
    proof {
        assert(i128::MIN < a * b < i128::MAX) by (nonlinear_arith)
            requires
                -100_000_000_000_000_000_000_000_000_000_000 <= a
                    <= 100_000_000_000_000_000_000_000_000_000_000,
                0 <= b <= 1_000_000,
        ;
    }
    let p: i128 = a * b;
    let du: u128 = d as u128;
    if p >= 0 {
        let q: u128 = (p as u128) / du;
        proof {
            assert(q == p as int / d as int);
            assert(q <= p as u128);
        }
        q as i128
    } else {
        let pa: u128 = (-p) as u128;
        let q: u128 = pa / du;
        let rem: u128 = pa % du;
        let qi: i128 = if rem == 0 {
            -(q as i128)
        } else {
            -(q as i128) - 1
        };
        proof {
            lemma_fundamental_div_mod(pa as int, du as int);
            vstd::arithmetic::div_mod::lemma_mod_division_less_than_divisor(pa as int, du as int);
            assert(pa == du * (pa as int / du as int) + pa as int % du as int);
            assert((d as int) * (qi as int) == (qi as int) * (d as int)) by (nonlinear_arith);
            if rem == 0 {
                assert(p == (d as int) * qi + 0) by (nonlinear_arith)
                    requires
                        p == -(pa as int),
                        d == du,
                        pa == du * (q as int),
                        qi == -(q as int),
                ;
                lemma_fundamental_div_mod_converse_div(p as int, d as int, qi as int, 0);
            } else {
                assert(p == (d as int) * qi + (du - rem)) by (nonlinear_arith)
                    requires
                        p == -(pa as int),
                        d == du,
                        pa == du * (q as int) + rem,
                        qi == -(q as int) - 1,
                ;
                lemma_fundamental_div_mod_converse_div(
                    p as int,
                    d as int,
                    qi as int,
                    du as int - rem as int,
                );
            }
            assert(qi == p as int / d as int);
        }
        qi
    }
}

/// The smaller of two values.
pub open spec fn min_spec(a: int, b: int) -> int {
    if a <= b {
        a
    } else {
        b
    }
}

/// The larger of two values.
pub open spec fn max_spec(a: int, b: int) -> int {
    if a >= b {
        a
    } else {
        b
    }
}

/// The smaller of two `i64` values.
pub fn min_i64(a: i64, b: i64) -> (r: i64)
    ensures
        r == min_spec(a as int, b as int),
{
    if a <= b {
        a
    } else {
        b
    }
}

/// The larger of two `i64` values.
pub fn max_i64(a: i64, b: i64) -> (r: i64)
    ensures
        r == max_spec(a as int, b as int),
{
    if a >= b {
        a
    } else {
        b
    }
}

/// A value forced into `[lo, hi]`.
pub open spec fn clamp_spec(x: int, lo: int, hi: int) -> int {
    if x < lo {
        lo
    } else if x > hi {
        hi
    } else {
        x
    }
}

/// An `i64` value forced into `[lo, hi]`.
pub fn clamp_i64(x: i64, lo: i64, hi: i64) -> (r: i64)
    requires
        lo <= hi,
    ensures
        r == clamp_spec(x as int, lo as int, hi as int),
{
    if x < lo {
        lo
    } else if x > hi {
        hi
    } else {
        x
    }
}

/// The absolute value.
pub open spec fn abs_spec(x: int) -> int {
    if x >= 0 {
        x
    } else {
        -x
    }
}

/// The absolute value of an `i64` that is not `i64::MIN`.
pub fn abs_i64(x: i64) -> (r: i64)
    requires
        x > i64::MIN,
    ensures
        r == abs_spec(x as int),
{
    if x >= 0 {
        x
    } else {
        -x
    }
}

} // verus!
