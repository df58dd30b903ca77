//! Checked fixed-point arithmetic primitives.
//!
//! Every primitive operates on unsigned fixed-width integers and returns a
//! result or a specific failure instead of wrapping or truncating silently.
//! These are the foundation of the curve computations: determinism and
//! exactness are required for the custody-safety guarantee.

use vstd::prelude::*;

use crate::error::AmmError;

verus! {

/// Adds two amounts, failing with `Overflow` when the mathematical sum does
/// not fit in the integer width.
pub fn checked_add(a: u64, b: u64) -> (r: Result<u64, AmmError>)
    ensures
        a + b <= u64::MAX ==> r == Ok::<u64, AmmError>((a + b) as u64),
        a + b > u64::MAX ==> r == Err::<u64, AmmError>(AmmError::Overflow),
{
    if b <= u64::MAX - a {
        Ok(a + b)
    } else {
        Err(AmmError::Overflow)
    }
}

/// Subtracts `b` from `a`, failing with `Underflow` when the subtrahend
/// exceeds the minuend.
pub fn checked_sub(a: u64, b: u64) -> (r: Result<u64, AmmError>)
    ensures
        b <= a ==> r == Ok::<u64, AmmError>((a - b) as u64),
        b > a ==> r == Err::<u64, AmmError>(AmmError::Underflow),
{
    if b <= a {
        Ok(a - b)
    } else {
        Err(AmmError::Underflow)
    }
}

/// Multiplies two amounts, failing with `Overflow` when the mathematical
/// product does not fit in the integer width.
pub fn checked_mul(a: u64, b: u64) -> (r: Result<u64, AmmError>)
    ensures
        a * b <= u64::MAX ==> r == Ok::<u64, AmmError>((a * b) as u64),
        a * b > u64::MAX ==> r == Err::<u64, AmmError>(AmmError::Overflow),
{
    proof {
        assert((a as int) * (b as int) <= (u64::MAX as int) * (u64::MAX as int))
            by (nonlinear_arith)
            requires a <= u64::MAX && b <= u64::MAX;
    }
    let p: u128 = (a as u128) * (b as u128);
    if p <= u64::MAX as u128 {
        Ok(p as u64)
    } else {
        Err(AmmError::Overflow)
    }
}

/// Divides `a` by `b`, rounding toward zero, failing with `Overflow` when
/// the divisor is zero (division by zero is surfaced as `Overflow` in the
/// error taxonomy).
pub fn checked_div(a: u64, b: u64) -> (r: Result<u64, AmmError>)
    ensures
        b > 0 ==> r == Ok::<u64, AmmError>((a as int / b as int) as u64),
        b == 0 ==> r == Err::<u64, AmmError>(AmmError::Overflow),
{
    if b == 0 {
        Err(AmmError::Overflow)
    } else {
        Ok(a / b)
    }
}

/// Computes `floor(a * b / d)` with a double-width intermediate product, so
/// the quotient is exact whenever it fits the integer width. Fails with
/// `Overflow` when the divisor is zero or the quotient does not fit.
pub fn mul_div_floor(a: u64, b: u64, d: u64) -> (r: Result<u64, AmmError>)
    ensures
        d == 0 ==> r == Err::<u64, AmmError>(AmmError::Overflow),
        d > 0 && a * b / (d as int) > u64::MAX ==> r == Err::<u64, AmmError>(AmmError::Overflow),
        d > 0 && a * b / (d as int) <= u64::MAX ==> r == Ok::<u64, AmmError>((a * b / (d as int)) as u64),
{
    if d == 0 {
        return Err(AmmError::Overflow);
    }
    proof {
        assert((a as int) * (b as int) <= (u64::MAX as int) * (u64::MAX as int))
            by (nonlinear_arith)
            requires a <= u64::MAX && b <= u64::MAX;
    }
    let p: u128 = (a as u128) * (b as u128);
    let q: u128 = p / (d as u128);
    if q <= u64::MAX as u128 {
        Ok(q as u64)
    } else {
        Err(AmmError::Overflow)
    }
}

/// Computes `floor(sqrt(n))`: the result is deterministic, with no rounding
/// beyond the floor.
pub fn integer_sqrt(n: u64) -> (r: u64)
    ensures
        r * r <= n,
        (r + 1) * (r + 1) > n,
{
    let mut lo: u64 = 0;
    let mut hi: u64 = 0x1_0000_0000;
    proof {
        assert((hi as int) * (hi as int) > u64::MAX as int) by (nonlinear_arith)
            requires hi == 0x1_0000_0000u64;
    }
    while lo + 1 < hi
        invariant
            lo < hi,
            hi <= 0x1_0000_0000,
            (lo as int) * (lo as int) <= n as int,
            (hi as int) * (hi as int) > n as int,
        decreases hi - lo,
    {
        let mid: u64 = lo + (hi - lo) / 2;
        proof {
            assert((mid as int) * (mid as int) <= (u64::MAX as int)) by (nonlinear_arith)
                requires mid < 0x1_0000_0000u64;
        }
        if (mid as u128) * (mid as u128) <= n as u128 {
            lo = mid;
        } else {
            hi = mid;
        }
    }
    lo
}

} // verus!
