//! The pool entity: reserves, share supply, fee, and lock flag, with the
//! transition operations that validate a request, delegate to the curve,
//! and apply the resulting deltas.
//!
//! Every operation either fully validates, computes, and applies, or fails
//! with no state mutation at all. Each transition is specified by a pure
//! model function, so the exact outcome — the new pool and the result — is
//! pinned for every input.

use vstd::prelude::*;

use vstd::arithmetic::mul::lemma_mul_is_commutative;

use crate::curve;
use crate::curve::{
    lemma_after_fee_bounds, lemma_prop_amount_bounds, lemma_prop_amount_full, lemma_prop_amount_nonneg,
    lemma_prop_amount_partial, lemma_round_trip_no_gain, lemma_swap_invariant_monotone,
    spec_amount_after_fee, spec_prop_amount, spec_swap_amount_out,
};
use crate::error::AmmError;
use crate::math;

verus! {

/// Decimal scale used for share-minting math. Only the initial deposit
/// assumes this scale; subsequent operations are scale-free ratios.
pub const PRECISION: u8 = 6;

/// A constant-product pool over two assets.
///
/// The configuration fields (`seed`, the asset identifiers, `fee_bps`,
/// `authority`, `precision`) are immutable after creation; the reserves,
/// the share supply, and the lock flag change only through the operations
/// below.
pub struct Pool {
    /// Disambiguator for pools over the same asset pair.
    pub seed: u64,
    /// Identifier of asset X; differs from `asset_y_id`.
    pub asset_x_id: u64,
    /// Identifier of asset Y; differs from `asset_x_id`.
    pub asset_y_id: u64,
    /// Swap fee in basis points, below 10000.
    pub fee_bps: u16,
    /// Principal permitted to lock and unlock; `None` leaves the pool
    /// lockable by anyone.
    pub authority: Option<u64>,
    /// Decimal scale for the bootstrap share-minting math.
    pub precision: u8,
    /// Custody balance of asset X.
    pub reserve_x: u64,
    /// Custody balance of asset Y.
    pub reserve_y: u64,
    /// Total outstanding liquidity shares.
    pub share_supply: u64,
    /// While true, deposit, withdraw, and swap are rejected.
    pub locked: bool,
}

impl Pool {
    /// Well-formedness: the fee is a proper fraction, the assets differ,
    /// and the pool is empty exactly when no shares exist — a non-empty
    /// pool keeps both reserves positive.
    pub open spec fn wf(self) -> bool {
        &&& self.fee_bps < 10000
        &&& self.asset_x_id != self.asset_y_id
        &&& (self.share_supply == 0 ==> self.reserve_x == 0 && self.reserve_y == 0)
        &&& (self.share_supply > 0 ==> self.reserve_x > 0 && self.reserve_y > 0)
    }

    /// The outcome of `deposit`: the pool after the call and the amounts
    /// moved in, or the error that rejects the request.
    pub open spec fn spec_deposit(p: Pool, amount: u64, max_x: u64, max_y: u64) -> (Pool, Result<
        (u64, u64),
        AmmError,
    >) {
        if p.locked {
            (p, Err(AmmError::PoolLocked))
        } else if amount == 0 {
            (p, Err(AmmError::InvalidAmount))
        } else if p.share_supply == 0 {
            if max_x == 0 || max_y == 0 {
                (p, Err(AmmError::InvalidAmount))
            } else {
                (
                    Pool { reserve_x: max_x, reserve_y: max_y, share_supply: amount, ..p },
                    Ok((max_x, max_y)),
                )
            }
        } else {
            let x = spec_prop_amount(amount as int, p.reserve_x as int, p.share_supply as int);
            let y = spec_prop_amount(amount as int, p.reserve_y as int, p.share_supply as int);
            if x > u64::MAX || y > u64::MAX {
                (p, Err(AmmError::Overflow))
            } else if x > max_x || y > max_y {
                (p, Err(AmmError::SlippageExceeded))
            } else if p.share_supply + amount > u64::MAX || p.reserve_x + x > u64::MAX
                || p.reserve_y + y > u64::MAX {
                (p, Err(AmmError::Overflow))
            } else {
                (
                    Pool {
                        reserve_x: (p.reserve_x + x) as u64,
                        reserve_y: (p.reserve_y + y) as u64,
                        share_supply: (p.share_supply + amount) as u64,
                        ..p
                    },
                    Ok((x as u64, y as u64)),
                )
            }
        }
    }

    /// The outcome of `withdraw`: the pool after the call and the amounts
    /// moved out, or the error that rejects the request.
    pub open spec fn spec_withdraw(p: Pool, amount: u64, min_x: u64, min_y: u64) -> (Pool, Result<
        (u64, u64),
        AmmError,
    >) {
        if p.locked {
            (p, Err(AmmError::PoolLocked))
        } else if amount == 0 || amount > p.share_supply {
            (p, Err(AmmError::InvalidAmount))
        } else {
            let x = spec_prop_amount(amount as int, p.reserve_x as int, p.share_supply as int);
            let y = spec_prop_amount(amount as int, p.reserve_y as int, p.share_supply as int);
            let strands = (x == p.reserve_x && y < p.reserve_y) || (y == p.reserve_y && x
                < p.reserve_x);
            if strands {
                (p, Err(AmmError::ZeroBalance))
            } else if x < min_x || y < min_y {
                (p, Err(AmmError::SlippageExceeded))
            } else {
                (
                    Pool {
                        reserve_x: (p.reserve_x - x) as u64,
                        reserve_y: (p.reserve_y - y) as u64,
                        share_supply: (p.share_supply - amount) as u64,
                        ..p
                    },
                    Ok((x as u64, y as u64)),
                )
            }
        }
    }

    /// The outcome of `swap`: the pool after the call and the amount paid
    /// out, or the error that rejects the request. The whole input is
    /// credited to the sell-side reserve; the fee only reduces the amount
    /// that reaches the curve.
    pub open spec fn spec_swap(p: Pool, is_x: bool, amount_in: u64, min_out: u64) -> (Pool, Result<
        u64,
        AmmError,
    >) {
        let reserve_in = if is_x { p.reserve_x } else { p.reserve_y };
        let reserve_out = if is_x { p.reserve_y } else { p.reserve_x };
        if p.locked {
            (p, Err(AmmError::PoolLocked))
        } else if amount_in == 0 {
            (p, Err(AmmError::InvalidAmount))
        } else {
            let af = spec_amount_after_fee(amount_in as int, p.fee_bps as int);
            if reserve_in + af == 0 {
                (p, Err(AmmError::InvalidPrecision))
            } else {
                let out = spec_swap_amount_out(reserve_in as int, reserve_out as int, af);
                if out >= reserve_out {
                    (p, Err(AmmError::InsufficientBalance))
                } else if out < min_out {
                    (p, Err(AmmError::SlippageExceeded))
                } else if reserve_in + amount_in > u64::MAX {
                    (p, Err(AmmError::Overflow))
                } else {
                    let new_in = (reserve_in + amount_in) as u64;
                    let new_out = (reserve_out - out) as u64;
                    if is_x {
                        (Pool { reserve_x: new_in, reserve_y: new_out, ..p }, Ok(out as u64))
                    } else {
                        (Pool { reserve_x: new_out, reserve_y: new_in, ..p }, Ok(out as u64))
                    }
                }
            }
        }
    }

    /// Creates an empty, unlocked pool. The caller supplies a fee below
    /// 10000 basis points and two distinct asset identifiers; the external
    /// environment is expected to validate both before reaching the core.
    pub fn initialize(
        seed: u64,
        fee_bps: u16,
        asset_x_id: u64,
        asset_y_id: u64,
        authority: Option<u64>,
    ) -> (p: Pool)
        requires
            fee_bps < 10000,
            asset_x_id != asset_y_id,
        ensures
            p == (Pool {
                seed,
                asset_x_id,
                asset_y_id,
                fee_bps,
                authority,
                precision: PRECISION,
                reserve_x: 0,
                reserve_y: 0,
                share_supply: 0,
                locked: false,
            }),
            p.wf(),
    {
        Pool {
            seed,
            asset_x_id,
            asset_y_id,
            fee_bps,
            authority,
            precision: PRECISION,
            reserve_x: 0,
            reserve_y: 0,
            share_supply: 0,
            locked: false,
        }
    }

    /// Adds liquidity. Into an empty pool the first depositor moves
    /// exactly `(max_x, max_y)` and mints `amount` shares, setting the
    /// initial price; afterwards the amounts are derived proportionally,
    /// floor-rounded in the pool's favor, and rejected if they exceed the
    /// caller's bounds. On success the returned pair is what the custodian
    /// must transfer in, with `amount` shares to mint; on failure the pool
    /// is unchanged.
    pub fn deposit(&mut self, amount: u64, max_x: u64, max_y: u64) -> (r: Result<
        (u64, u64),
        AmmError,
    >)
        requires
            old(self).wf(),
        ensures
            final(self).wf(),
            *final(self) == Pool::spec_deposit(*old(self), amount, max_x, max_y).0,
            r == Pool::spec_deposit(*old(self), amount, max_x, max_y).1,
            r is Err ==> *final(self) == *old(self),
    {
        if self.locked {
            return Err(AmmError::PoolLocked);
        }
        if amount == 0 {
            return Err(AmmError::InvalidAmount);
        }
        if self.share_supply == 0 {
            if max_x == 0 || max_y == 0 {
                return Err(AmmError::InvalidAmount);
            }
            self.reserve_x = max_x;
            self.reserve_y = max_y;
            self.share_supply = amount;
            return Ok((max_x, max_y));
        }
        let (x, y) = match curve::deposit_amounts(
            self.reserve_x,
            self.reserve_y,
            self.share_supply,
            amount,
            max_x,
            max_y,
        ) {
            Ok(v) => v,
            Err(e) => {
                return Err(e);
            },
        };
        let new_supply = match math::checked_add(self.share_supply, amount) {
            Ok(v) => v,
            Err(e) => {
                return Err(e);
            },
        };
        let new_x = match math::checked_add(self.reserve_x, x) {
            Ok(v) => v,
            Err(e) => {
                return Err(e);
            },
        };
        let new_y = match math::checked_add(self.reserve_y, y) {
            Ok(v) => v,
            Err(e) => {
                return Err(e);
            },
        };
        self.reserve_x = new_x;
        self.reserve_y = new_y;
        self.share_supply = new_supply;
        Ok((x, y))
    }

    /// Removes liquidity by burning `amount` shares. Both sides are paid
    /// out proportionally, floor-rounded in the pool's favor, and rejected
    /// if they fall short of the caller's minimums. Burning the whole
    /// supply is the only path that empties the pool. On success the
    /// returned pair is what the custodian must transfer out, with
    /// `amount` shares to burn; on failure the pool is unchanged.
    pub fn withdraw(&mut self, amount: u64, min_x: u64, min_y: u64) -> (r: Result<
        (u64, u64),
        AmmError,
    >)
        requires
            old(self).wf(),
        ensures
            final(self).wf(),
            *final(self) == Pool::spec_withdraw(*old(self), amount, min_x, min_y).0,
            r == Pool::spec_withdraw(*old(self), amount, min_x, min_y).1,
            r is Err ==> *final(self) == *old(self),
    {
        if self.locked {
            return Err(AmmError::PoolLocked);
        }
        let (x, y) = match curve::withdraw_amounts(
            self.reserve_x,
            self.reserve_y,
            self.share_supply,
            amount,
            min_x,
            min_y,
        ) {
            Ok(v) => v,
            Err(e) => {
                return Err(e);
            },
        };
        proof {
            lemma_prop_amount_bounds(
                amount as int,
                self.reserve_x as int,
                self.share_supply as int,
            );
            lemma_prop_amount_bounds(
                amount as int,
                self.reserve_y as int,
                self.share_supply as int,
            );
            if amount < self.share_supply {
                lemma_prop_amount_partial(
                    amount as int,
                    self.reserve_x as int,
                    self.share_supply as int,
                );
                lemma_prop_amount_partial(
                    amount as int,
                    self.reserve_y as int,
                    self.share_supply as int,
                );
            } else {
                lemma_prop_amount_full(self.reserve_x as int, self.share_supply as int);
                lemma_prop_amount_full(self.reserve_y as int, self.share_supply as int);
            }
        }
        let new_x = match math::checked_sub(self.reserve_x, x) {
            Ok(v) => v,
            Err(e) => {
                return Err(e);
            },
        };
        let new_y = match math::checked_sub(self.reserve_y, y) {
            Ok(v) => v,
            Err(e) => {
                return Err(e);
            },
        };
        let new_supply = match math::checked_sub(self.share_supply, amount) {
            Ok(v) => v,
            Err(e) => {
                return Err(e);
            },
        };
        self.reserve_x = new_x;
        self.reserve_y = new_y;
        self.share_supply = new_supply;
        Ok((x, y))
    }

    /// Swaps `amount_in` of the sell-side asset (asset X when `is_x`) for
    /// the buy-side asset. The fee is deducted from the input before the
    /// curve calculation and stays in the pool, so a successful swap never
    /// decreases the invariant `reserve_x * reserve_y`. On success the
    /// returned amount is what the custodian must transfer out against the
    /// full `amount_in` transferred in; on failure the pool is unchanged.
    pub fn swap(&mut self, is_x: bool, amount_in: u64, min_out: u64) -> (r: Result<u64, AmmError>)
        requires
            old(self).wf(),
        ensures
            final(self).wf(),
            *final(self) == Pool::spec_swap(*old(self), is_x, amount_in, min_out).0,
            r == Pool::spec_swap(*old(self), is_x, amount_in, min_out).1,
            r is Err ==> *final(self) == *old(self),
            r is Ok ==> (final(self).reserve_x as int) * (final(self).reserve_y as int) >= (old(
                self,
            ).reserve_x as int) * (old(self).reserve_y as int),
    {
        if self.locked {
            return Err(AmmError::PoolLocked);
        }
        let reserve_in = if is_x {
            self.reserve_x
        } else {
            self.reserve_y
        };
        let reserve_out = if is_x {
            self.reserve_y
        } else {
            self.reserve_x
        };
        let out = match curve::swap_amounts(reserve_in, reserve_out, self.fee_bps, amount_in, min_out) {
            Ok(v) => v,
            Err(e) => {
                return Err(e);
            },
        };
        let new_in = match math::checked_add(reserve_in, amount_in) {
            Ok(v) => v,
            Err(e) => {
                return Err(e);
            },
        };
        let new_out = reserve_out - out;
        proof {
            let af = spec_amount_after_fee(amount_in as int, self.fee_bps as int);
            lemma_after_fee_bounds(amount_in as int, self.fee_bps as int);
            lemma_swap_invariant_monotone(
                reserve_in as int,
                reserve_out as int,
                af,
                amount_in as int,
            );
            assert((new_in as int) * (new_out as int) >= (reserve_in as int) * (reserve_out
                as int));
            lemma_mul_is_commutative(new_out as int, new_in as int);
            lemma_mul_is_commutative(reserve_out as int, reserve_in as int);
        }
        if is_x {
            self.reserve_x = new_in;
            self.reserve_y = new_out;
        } else {
            self.reserve_x = new_out;
            self.reserve_y = new_in;
        }
        Ok(out)
    }

    /// Locks the pool, gating deposit, withdraw, and swap; a no-op when
    /// already locked. The capability check against the configured
    /// authority is performed by the external environment and handed in as
    /// `authorized`.
    pub fn lock(&mut self, authorized: bool) -> (r: Result<(), AmmError>)
        ensures
            authorized ==> r == Ok::<(), AmmError>(()) && *final(self) == (Pool {
                locked: true,
                ..*old(self)
            }),
            !authorized ==> r == Err::<(), AmmError>(AmmError::InvalidAuthority) && *final(self)
                == *old(self),
            old(self).wf() ==> final(self).wf(),
    {
        if !authorized {
            return Err(AmmError::InvalidAuthority);
        }
        self.locked = true;
        Ok(())
    }

    /// Unlocks the pool, restoring normal operation; a no-op when already
    /// unlocked. The capability check against the configured authority is
    /// performed by the external environment and handed in as `authorized`.
    pub fn unlock(&mut self, authorized: bool) -> (r: Result<(), AmmError>)
        ensures
            authorized ==> r == Ok::<(), AmmError>(()) && *final(self) == (Pool {
                locked: false,
                ..*old(self)
            }),
            !authorized ==> r == Err::<(), AmmError>(AmmError::InvalidAuthority) && *final(self)
                == *old(self),
            old(self).wf() ==> final(self).wf(),
    {
        if !authorized {
            return Err(AmmError::InvalidAuthority);
        }
        self.locked = false;
        Ok(())
    }
}

/// Law: while the pool is locked, every value-moving operation fails with
/// `PoolLocked` and leaves the pool unchanged, whatever its inputs.
pub proof fn lemma_lock_gates(p: Pool, is_x: bool, amount: u64, bound_x: u64, bound_y: u64)
    requires
        p.locked,
    ensures
        Pool::spec_deposit(p, amount, bound_x, bound_y) == (
            p,
            Err::<(u64, u64), AmmError>(AmmError::PoolLocked),
        ),
        Pool::spec_withdraw(p, amount, bound_x, bound_y) == (
            p,
            Err::<(u64, u64), AmmError>(AmmError::PoolLocked),
        ),
        Pool::spec_swap(p, is_x, amount, bound_y) == (
            p,
            Err::<u64, AmmError>(AmmError::PoolLocked),
        ),
{
}

/// Law: no value creation. A deposit followed by a withdrawal of the same
/// share amount, with no operation in between, returns at most what was
/// deposited on each side: rounding never favors the caller.
pub proof fn lemma_deposit_withdraw_round_trip(
    p: Pool,
    amount: u64,
    max_x: u64,
    max_y: u64,
    min_x: u64,
    min_y: u64,
)
    requires
        p.wf(),
        Pool::spec_deposit(p, amount, max_x, max_y).1 is Ok,
        Pool::spec_withdraw(
            Pool::spec_deposit(p, amount, max_x, max_y).0,
            amount,
            min_x,
            min_y,
        ).1 is Ok,
    ensures
        ({
            let deposited = Pool::spec_deposit(p, amount, max_x, max_y).1->Ok_0;
            let returned = Pool::spec_withdraw(
                Pool::spec_deposit(p, amount, max_x, max_y).0,
                amount,
                min_x,
                min_y,
            ).1->Ok_0;
            returned.0 <= deposited.0 && returned.1 <= deposited.1
        }),
{
    if p.share_supply == 0 {
        lemma_prop_amount_full(max_x as int, amount as int);
        lemma_prop_amount_full(max_y as int, amount as int);
    } else {
        let x = spec_prop_amount(amount as int, p.reserve_x as int, p.share_supply as int);
        let y = spec_prop_amount(amount as int, p.reserve_y as int, p.share_supply as int);
        lemma_round_trip_no_gain(amount as int, p.reserve_x as int, p.share_supply as int);
        lemma_round_trip_no_gain(amount as int, p.reserve_y as int, p.share_supply as int);
        lemma_prop_amount_nonneg(amount as int, p.reserve_x as int, p.share_supply as int);
        lemma_prop_amount_nonneg(amount as int, p.reserve_y as int, p.share_supply as int);
        lemma_prop_amount_nonneg(
            amount as int,
            p.reserve_x + x,
            p.share_supply + amount,
        );
        lemma_prop_amount_nonneg(
            amount as int,
            p.reserve_y + y,
            p.share_supply + amount,
        );
    }
}

/// Law: burning the entire share supply succeeds whenever the minimums
/// allow it, pays out both reserves exactly, and drains the pool to the
/// empty state — the sole path on which both reserves reach zero.
pub proof fn lemma_full_withdrawal(p: Pool, min_x: u64, min_y: u64)
    requires
        p.wf(),
        !p.locked,
        p.share_supply > 0,
        min_x <= p.reserve_x,
        min_y <= p.reserve_y,
    ensures
        Pool::spec_withdraw(p, p.share_supply, min_x, min_y).1 == Ok::<(u64, u64), AmmError>(
            (p.reserve_x, p.reserve_y),
        ),
        Pool::spec_withdraw(p, p.share_supply, min_x, min_y).0.reserve_x == 0,
        Pool::spec_withdraw(p, p.share_supply, min_x, min_y).0.reserve_y == 0,
        Pool::spec_withdraw(p, p.share_supply, min_x, min_y).0.share_supply == 0,
{
    lemma_prop_amount_full(p.reserve_x as int, p.share_supply as int);
    lemma_prop_amount_full(p.reserve_y as int, p.share_supply as int);
}

} // verus!
