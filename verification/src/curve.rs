//! Pure constant-product curve computations.
//!
//! Each function computes, from a snapshot of the reserves and the share
//! supply, the exact amounts of an operation, without touching any state.
//! Proportional amounts are floor-rounded; the reserve kept by a swap is
//! ceiling-rounded, so rounding never favors the trader.

use vstd::prelude::*;

use vstd::arithmetic::div_mod::{
    lemma_div_by_multiple, lemma_div_is_ordered, lemma_div_pos_is_pos, lemma_fundamental_div_mod,
    lemma_mod_bound, lemma_multiply_divide_le, lemma_multiply_divide_lt,
};
use vstd::arithmetic::mul::{
    lemma_mul_inequality, lemma_mul_is_commutative, lemma_mul_is_distributive_add,
    lemma_mul_nonnegative, lemma_mul_strict_inequality,
};

use crate::error::AmmError;
use crate::math::mul_div_floor;

verus! {

/// Fee denominator: 10000 basis points make 100%.
pub const FEE_DENOMINATOR: u64 = 10000;

/// The amount of one asset that corresponds, at the pool's current ratio,
/// to `shares` liquidity shares: `floor(shares * reserve / supply)`.
pub open spec fn spec_prop_amount(shares: int, reserve: int, supply: int) -> int {
    shares * reserve / supply
}

/// The part of a swap input that reaches the curve after the fee:
/// `floor(amount_in * (10000 - fee_bps) / 10000)`.
pub open spec fn spec_amount_after_fee(amount_in: int, fee_bps: int) -> int {
    amount_in * (10000 - fee_bps) / 10000
}

/// The reserve the pool keeps on the buy side after a swap:
/// `ceil(reserve_in * reserve_out / (reserve_in + in_after_fee))`, the
/// constant-product reserve rounded up in the pool's favor.
pub open spec fn spec_swap_new_reserve_out(reserve_in: int, reserve_out: int, in_after_fee: int) -> int {
    (reserve_in * reserve_out + (reserve_in + in_after_fee) - 1) / (reserve_in + in_after_fee)
}

/// The amount the trader receives from a swap.
pub open spec fn spec_swap_amount_out(reserve_in: int, reserve_out: int, in_after_fee: int) -> int {
    reserve_out - spec_swap_new_reserve_out(reserve_in, reserve_out, in_after_fee)
}

/// A proportional amount is never negative.
pub proof fn lemma_prop_amount_nonneg(shares: int, reserve: int, supply: int)
    requires
        0 <= shares,
        0 <= reserve,
        0 < supply,
    ensures
        0 <= spec_prop_amount(shares, reserve, supply),
{
    lemma_mul_nonnegative(shares, reserve);
    lemma_div_pos_is_pos(shares * reserve, supply);
}

/// A proportional amount is never negative, never exceeds the reserve when
/// no more shares are redeemed than exist.
pub proof fn lemma_prop_amount_bounds(shares: int, reserve: int, supply: int)
    requires
        0 <= shares <= supply,
        0 <= reserve,
        0 < supply,
    ensures
        0 <= spec_prop_amount(shares, reserve, supply) <= reserve,
{
    lemma_mul_nonnegative(shares, reserve);
    lemma_div_pos_is_pos(shares * reserve, supply);
    lemma_mul_inequality(shares, supply, reserve);
    lemma_mul_is_commutative(supply, reserve);
    lemma_multiply_divide_le(shares * reserve, supply, reserve);
}

/// Redeeming strictly fewer shares than exist never drains a positive
/// reserve: the proportional amount stays strictly below the reserve.
pub proof fn lemma_prop_amount_partial(shares: int, reserve: int, supply: int)
    requires
        0 <= shares < supply,
        0 < reserve,
    ensures
        spec_prop_amount(shares, reserve, supply) < reserve,
{
    lemma_mul_strict_inequality(shares, supply, reserve);
    lemma_mul_is_commutative(supply, reserve);
    lemma_multiply_divide_lt(shares * reserve, supply, reserve);
}

/// Redeeming every outstanding share returns the whole reserve exactly.
pub proof fn lemma_prop_amount_full(reserve: int, supply: int)
    requires
        0 <= reserve,
        0 < supply,
    ensures
        spec_prop_amount(supply, reserve, supply) == reserve,
{
    lemma_mul_is_commutative(supply, reserve);
    lemma_div_by_multiple(reserve, supply);
    lemma_mul_is_commutative(reserve, supply);
}

/// The fee deduction never makes the input negative or larger.
pub proof fn lemma_after_fee_bounds(amount_in: int, fee_bps: int)
    requires
        0 <= amount_in,
        0 <= fee_bps < 10000,
    ensures
        0 <= spec_amount_after_fee(amount_in, fee_bps) <= amount_in,
{
    let keep = 10000 - fee_bps;
    lemma_mul_nonnegative(amount_in, keep);
    lemma_div_pos_is_pos(amount_in * keep, 10000);
    lemma_mul_inequality(keep, 10000, amount_in);
    lemma_mul_is_commutative(keep, amount_in);
    lemma_mul_is_commutative(10000, amount_in);
    lemma_div_is_ordered(amount_in * keep, amount_in * 10000, 10000);
    lemma_div_by_multiple(amount_in, 10000);
}

/// The reserve kept by a swap lies between zero and the old buy-side
/// reserve, so the amount out does too.
pub proof fn lemma_swap_out_bounds(reserve_in: int, reserve_out: int, in_after_fee: int)
    requires
        0 <= reserve_in,
        0 <= reserve_out,
        0 <= in_after_fee,
        0 < reserve_in + in_after_fee,
    ensures
        0 <= spec_swap_new_reserve_out(reserve_in, reserve_out, in_after_fee) <= reserve_out,
        0 <= spec_swap_amount_out(reserve_in, reserve_out, in_after_fee) <= reserve_out,
{
    let d = reserve_in + in_after_fee;
    let n = reserve_in * reserve_out + d - 1;
    lemma_mul_nonnegative(reserve_in, reserve_out);
    lemma_div_pos_is_pos(n, d);
    lemma_mul_inequality(reserve_in, d, reserve_out);
    lemma_mul_is_commutative(d, reserve_out);
    assert(d * (reserve_out + 1) == d * reserve_out + d) by {
        lemma_mul_is_distributive_add(d, reserve_out, 1);
    }
    lemma_mul_is_commutative(d, reserve_out + 1);
    lemma_multiply_divide_lt(n, d, reserve_out + 1);
}

/// Law: a swap never decreases the pool's invariant `k`. With the whole
/// input credited to the sell-side reserve and the buy-side reserve kept
/// at its ceiling-rounded constant-product value, the product of the
/// reserves after the swap is at least the product before it; fees make
/// it strictly larger in exact arithmetic, and rounding never gives the
/// gap back to the trader.
pub proof fn lemma_swap_invariant_monotone(
    reserve_in: int,
    reserve_out: int,
    in_after_fee: int,
    amount_in: int,
)
    requires
        0 <= reserve_in,
        0 <= reserve_out,
        0 <= in_after_fee <= amount_in,
        0 < reserve_in + in_after_fee,
    ensures
        (reserve_in + amount_in) * (reserve_out - spec_swap_amount_out(
            reserve_in,
            reserve_out,
            in_after_fee,
        )) >= reserve_in * reserve_out,
{
    let d = reserve_in + in_after_fee;
    let n = reserve_in * reserve_out + d - 1;
    let q = n / d;
    lemma_fundamental_div_mod(n, d);
    lemma_mod_bound(n, d);
    assert(d * q >= reserve_in * reserve_out);
    lemma_swap_out_bounds(reserve_in, reserve_out, in_after_fee);
    lemma_mul_inequality(d, reserve_in + amount_in, q);
    lemma_mul_is_commutative(d, q);
    lemma_mul_is_commutative(reserve_in + amount_in, q);
    assert(reserve_out - spec_swap_amount_out(reserve_in, reserve_out, in_after_fee) == q);
}

/// Law: rounding never creates value. Depositing `shares` against a
/// positive supply and then redeeming the same `shares` from the grown
/// pool returns at most what was deposited.
pub proof fn lemma_round_trip_no_gain(shares: int, reserve: int, supply: int)
    requires
        0 < shares,
        0 <= reserve,
        0 < supply,
    ensures
        spec_prop_amount(
            shares,
            reserve + spec_prop_amount(shares, reserve, supply),
            supply + shares,
        ) <= spec_prop_amount(shares, reserve, supply),
{
    let x = spec_prop_amount(shares, reserve, supply);
    let rem = (shares * reserve) % supply;
    lemma_fundamental_div_mod(shares * reserve, supply);
    lemma_mod_bound(shares * reserve, supply);
    lemma_mul_nonnegative(shares, reserve);
    lemma_div_pos_is_pos(shares * reserve, supply);
    assert(shares * (reserve + x) == shares * reserve + shares * x) by {
        lemma_mul_is_distributive_add(shares, reserve, x);
    }
    assert(shares * reserve == supply * x + rem);
    assert(x * (supply + shares) == x * supply + x * shares) by {
        lemma_mul_is_distributive_add(x, supply, shares);
    }
    lemma_mul_is_commutative(supply, x);
    lemma_mul_is_commutative(shares, x);
    assert(shares * (reserve + x) == x * (supply + shares) + rem);
    assert((x + 1) * (supply + shares) == x * (supply + shares) + (supply + shares)) by {
        lemma_mul_is_distributive_add(supply + shares, x, 1);
        lemma_mul_is_commutative(supply + shares, x);
        lemma_mul_is_commutative(supply + shares, x + 1);
    }
    assert(shares * (reserve + x) < (x + 1) * (supply + shares));
    lemma_mul_is_commutative(x + 1, supply + shares);
    lemma_multiply_divide_lt(shares * (reserve + x), supply + shares, x + 1);
}

/// The amounts a deposit moves into the pool when the supply is positive:
/// `floor(desired_shares * reserve / share_supply)` for each side, both
/// floor-rounded in the pool's favor.
pub fn deposit_amounts(
    reserve_x: u64,
    reserve_y: u64,
    share_supply: u64,
    desired_shares: u64,
    max_x: u64,
    max_y: u64,
) -> (r: Result<(u64, u64), AmmError>)
    ensures
        ({
            let x = spec_prop_amount(desired_shares as int, reserve_x as int, share_supply as int);
            let y = spec_prop_amount(desired_shares as int, reserve_y as int, share_supply as int);
            &&& (desired_shares == 0 ==> r == Err::<(u64, u64), AmmError>(AmmError::InvalidAmount))
            &&& (desired_shares > 0 && share_supply == 0 ==> r == Err::<(u64, u64), AmmError>(
                AmmError::InvalidPrecision,
            ))
            &&& (desired_shares > 0 && share_supply > 0 && (x > u64::MAX || y > u64::MAX) ==> r
                == Err::<(u64, u64), AmmError>(AmmError::Overflow))
            &&& (desired_shares > 0 && share_supply > 0 && x <= u64::MAX && y <= u64::MAX && (x
                > max_x || y > max_y) ==> r == Err::<(u64, u64), AmmError>(
                AmmError::SlippageExceeded,
            ))
            &&& (desired_shares > 0 && share_supply > 0 && x <= u64::MAX && y <= u64::MAX && x
                <= max_x && y <= max_y ==> r == Ok::<(u64, u64), AmmError>(
                (x as u64, y as u64),
            ))
        }),
{
    if desired_shares == 0 {
        return Err(AmmError::InvalidAmount);
    }
    if share_supply == 0 {
        return Err(AmmError::InvalidPrecision);
    }
    let x = match mul_div_floor(desired_shares, reserve_x, share_supply) {
        Ok(v) => v,
        Err(e) => {
            return Err(e);
        },
    };
    let y = match mul_div_floor(desired_shares, reserve_y, share_supply) {
        Ok(v) => v,
        Err(e) => {
            return Err(e);
        },
    };
    if x > max_x || y > max_y {
        return Err(AmmError::SlippageExceeded);
    }
    Ok((x, y))
}

/// The amounts a withdrawal moves out of the pool:
/// `floor(shares_to_burn * reserve / share_supply)` for each side, both
/// floor-rounded in the pool's favor. A withdrawal that would strand one
/// reserve at zero while the other stays positive is rejected; burning the
/// whole supply is the only path that empties both sides.
pub fn withdraw_amounts(
    reserve_x: u64,
    reserve_y: u64,
    share_supply: u64,
    shares_to_burn: u64,
    min_x: u64,
    min_y: u64,
) -> (r: Result<(u64, u64), AmmError>)
    ensures
        ({
            let x = spec_prop_amount(shares_to_burn as int, reserve_x as int, share_supply as int);
            let y = spec_prop_amount(shares_to_burn as int, reserve_y as int, share_supply as int);
            let strands = (x == reserve_x && y < reserve_y) || (y == reserve_y && x < reserve_x);
            &&& (shares_to_burn == 0 || shares_to_burn > share_supply ==> r == Err::<
                (u64, u64),
                AmmError,
            >(AmmError::InvalidAmount))
            &&& (0 < shares_to_burn <= share_supply && strands ==> r == Err::<
                (u64, u64),
                AmmError,
            >(AmmError::ZeroBalance))
            &&& (0 < shares_to_burn <= share_supply && !strands && (x < min_x || y < min_y) ==> r
                == Err::<(u64, u64), AmmError>(AmmError::SlippageExceeded))
            &&& (0 < shares_to_burn <= share_supply && !strands && x >= min_x && y >= min_y ==> r
                == Ok::<(u64, u64), AmmError>((x as u64, y as u64)))
        }),
{
    if shares_to_burn == 0 || shares_to_burn > share_supply {
        return Err(AmmError::InvalidAmount);
    }
    proof {
        lemma_prop_amount_bounds(
            shares_to_burn as int,
            reserve_x as int,
            share_supply as int,
        );
        lemma_prop_amount_bounds(
            shares_to_burn as int,
            reserve_y as int,
            share_supply as int,
        );
    }
    let x = match mul_div_floor(shares_to_burn, reserve_x, share_supply) {
        Ok(v) => v,
        Err(e) => {
            return Err(e);
        },
    };
    let y = match mul_div_floor(shares_to_burn, reserve_y, share_supply) {
        Ok(v) => v,
        Err(e) => {
            return Err(e);
        },
    };
    if (x == reserve_x && y < reserve_y) || (y == reserve_y && x < reserve_x) {
        return Err(AmmError::ZeroBalance);
    }
    if x < min_x || y < min_y {
        return Err(AmmError::SlippageExceeded);
    }
    Ok((x, y))
}

/// The amount a swap pays out. The fee is deducted from the input before
/// the curve calculation; the buy-side reserve is kept at its
/// ceiling-rounded constant-product value, so the post-trade invariant is
/// at least the pre-trade one.
pub fn swap_amounts(
    reserve_in: u64,
    reserve_out: u64,
    fee_bps: u16,
    amount_in: u64,
    min_out: u64,
) -> (r: Result<u64, AmmError>)
    requires
        fee_bps < 10000,
    ensures
        ({
            let af = spec_amount_after_fee(amount_in as int, fee_bps as int);
            let out = spec_swap_amount_out(reserve_in as int, reserve_out as int, af);
            &&& (amount_in == 0 ==> r == Err::<u64, AmmError>(AmmError::InvalidAmount))
            &&& (amount_in > 0 && reserve_in + af == 0 ==> r == Err::<u64, AmmError>(
                AmmError::InvalidPrecision,
            ))
            &&& (amount_in > 0 && reserve_in + af > 0 && out >= reserve_out ==> r == Err::<
                u64,
                AmmError,
            >(AmmError::InsufficientBalance))
            &&& (amount_in > 0 && reserve_in + af > 0 && out < reserve_out && out < min_out ==> r
                == Err::<u64, AmmError>(AmmError::SlippageExceeded))
            &&& (amount_in > 0 && reserve_in + af > 0 && out < reserve_out && out >= min_out ==> r
                == Ok::<u64, AmmError>(out as u64))
        }),
{
    if amount_in == 0 {
        return Err(AmmError::InvalidAmount);
    }
    let keep_bps: u64 = FEE_DENOMINATOR - (fee_bps as u64);
    proof {
        lemma_after_fee_bounds(amount_in as int, fee_bps as int);
    }
    let after_fee = match mul_div_floor(amount_in, keep_bps, FEE_DENOMINATOR) {
        Ok(v) => v,
        Err(e) => {
            return Err(e);
        },
    };
    let denom: u128 = reserve_in as u128 + after_fee as u128;
    if denom == 0 {
        return Err(AmmError::InvalidPrecision);
    }
    proof {
        assert((reserve_in as int) * (reserve_out as int) <= (u64::MAX as int) * (u64::MAX as int))
            by (nonlinear_arith)
            requires reserve_in <= u64::MAX && reserve_out <= u64::MAX;
        lemma_swap_out_bounds(reserve_in as int, reserve_out as int, after_fee as int);
    }
    let prod: u128 = (reserve_in as u128) * (reserve_out as u128);
    let new_reserve_out: u128 = (prod + (denom - 1)) / denom;
    let kept: u64 = new_reserve_out as u64;
    let out: u64 = reserve_out - kept;
    if kept == 0 {
        return Err(AmmError::InsufficientBalance);
    }
    if out < min_out {
        return Err(AmmError::SlippageExceeded);
    }
    Ok(out)
}

} // verus!
