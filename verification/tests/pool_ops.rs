use amm_core::error::AmmError;
use amm_core::pool::Pool;

fn fresh_pool(fee_bps: u16) -> Pool {
    Pool::initialize(1, fee_bps, 10, 20, Some(7))
}

#[test]
fn initialize_empty_unlocked() {
    let p = fresh_pool(30);
    assert_eq!(p.seed, 1);
    assert_eq!(p.asset_x_id, 10);
    assert_eq!(p.asset_y_id, 20);
    assert_eq!(p.fee_bps, 30);
    assert_eq!(p.authority, Some(7));
    assert_eq!(p.reserve_x, 0);
    assert_eq!(p.reserve_y, 0);
    assert_eq!(p.share_supply, 0);
    assert!(!p.locked);
}

#[test]
fn bootstrap_deposit() {
    // The first depositor sets the initial price: the bounds are taken as
    // the exact amounts and the desired shares are minted as given.
    let mut p = fresh_pool(30);
    assert_eq!(p.deposit(500, 1000, 2000), Ok((1000, 2000)));
    assert_eq!(p.reserve_x, 1000);
    assert_eq!(p.reserve_y, 2000);
    assert_eq!(p.share_supply, 500);
}

#[test]
fn bootstrap_deposit_rejects_empty_side() {
    let mut p = fresh_pool(30);
    assert_eq!(p.deposit(500, 0, 2000), Err(AmmError::InvalidAmount));
    assert_eq!(p.deposit(500, 1000, 0), Err(AmmError::InvalidAmount));
    assert_eq!(p.share_supply, 0);
}

#[test]
fn proportional_deposit() {
    let mut p = fresh_pool(30);
    assert_eq!(p.deposit(500, 1000, 2000), Ok((1000, 2000)));
    assert_eq!(p.deposit(50, 100, 200), Ok((100, 200)));
    assert_eq!(p.reserve_x, 1100);
    assert_eq!(p.reserve_y, 2200);
    assert_eq!(p.share_supply, 550);
}

#[test]
fn proportional_deposit_slippage() {
    let mut p = fresh_pool(30);
    assert_eq!(p.deposit(500, 1000, 2000), Ok((1000, 2000)));
    assert_eq!(p.deposit(50, 99, 200), Err(AmmError::SlippageExceeded));
    assert_eq!(p.reserve_x, 1000);
    assert_eq!(p.reserve_y, 2000);
    assert_eq!(p.share_supply, 500);
}

#[test]
fn deposit_zero_shares() {
    let mut p = fresh_pool(30);
    assert_eq!(p.deposit(0, 1000, 2000), Err(AmmError::InvalidAmount));
}

#[test]
fn deposit_overflow_on_reserve() {
    let mut p = fresh_pool(30);
    assert_eq!(p.deposit(1, u64::MAX, u64::MAX), Ok((u64::MAX, u64::MAX)));
    // Matching one more share would double a reserve that is already at
    // the integer limit.
    assert_eq!(p.deposit(1, u64::MAX, u64::MAX), Err(AmmError::Overflow));
    assert_eq!(p.reserve_x, u64::MAX);
    assert_eq!(p.share_supply, 1);
}

#[test]
fn swap_with_fee() {
    // 30 bps on 100 leaves 99 for the curve; the pool keeps
    // ceil(1000 * 1000 / 1099) = 910 and pays out 90.
    let mut p = fresh_pool(30);
    assert_eq!(p.deposit(1000, 1000, 1000), Ok((1000, 1000)));
    assert_eq!(p.swap(true, 100, 0), Ok(90));
    assert_eq!(p.reserve_x, 1100);
    assert_eq!(p.reserve_y, 910);
    assert_eq!(p.share_supply, 1000);
}

#[test]
fn swap_slippage() {
    let mut p = fresh_pool(30);
    assert_eq!(p.deposit(1000, 1000, 1000), Ok((1000, 1000)));
    assert_eq!(p.swap(true, 100, 91), Err(AmmError::SlippageExceeded));
    assert_eq!(p.reserve_x, 1000);
    assert_eq!(p.reserve_y, 1000);
}

#[test]
fn swap_never_decreases_invariant() {
    let mut p = fresh_pool(0);
    assert_eq!(p.deposit(1000, 1000, 1000), Ok((1000, 1000)));
    let k_before = (p.reserve_x as u128) * (p.reserve_y as u128);
    assert_eq!(p.swap(true, 100, 0), Ok(90));
    let k_after = (p.reserve_x as u128) * (p.reserve_y as u128);
    assert!(k_after >= k_before);
}

#[test]
fn swap_both_directions() {
    let mut p = fresh_pool(0);
    assert_eq!(p.deposit(1000, 1000, 4000), Ok((1000, 4000)));
    // Selling Y moves the Y reserve up and the X reserve down.
    let out = p.swap(false, 400, 0).unwrap();
    assert_eq!(out, 1000 - (1000 * 4000 + 4399) / 4400);
    assert_eq!(p.reserve_y, 4400);
    assert_eq!(p.reserve_x, 1000 - out);
}

#[test]
fn swap_overflow_on_reserve() {
    // The computed output is fine, but crediting the full input would push
    // the sell-side reserve past the integer limit.
    let mut p = fresh_pool(0);
    assert_eq!(p.deposit(1, u64::MAX, u64::MAX), Ok((u64::MAX, u64::MAX)));
    assert_eq!(p.swap(true, u64::MAX, 0), Err(AmmError::Overflow));
    assert_eq!(p.reserve_x, u64::MAX);
    assert_eq!(p.reserve_y, u64::MAX);
}

#[test]
fn swap_zero_amount() {
    let mut p = fresh_pool(30);
    assert_eq!(p.deposit(1000, 1000, 1000), Ok((1000, 1000)));
    assert_eq!(p.swap(true, 0, 0), Err(AmmError::InvalidAmount));
}

#[test]
fn lock_gates_all_operations() {
    let mut p = fresh_pool(30);
    assert_eq!(p.deposit(500, 1000, 2000), Ok((1000, 2000)));
    assert_eq!(p.lock(true), Ok(()));
    assert!(p.locked);
    assert_eq!(p.deposit(50, 100, 200), Err(AmmError::PoolLocked));
    assert_eq!(p.withdraw(50, 0, 0), Err(AmmError::PoolLocked));
    assert_eq!(p.swap(true, 100, 0), Err(AmmError::PoolLocked));
    assert_eq!(p.reserve_x, 1000);
    assert_eq!(p.reserve_y, 2000);
    assert_eq!(p.share_supply, 500);
    assert_eq!(p.unlock(true), Ok(()));
    assert!(!p.locked);
    assert_eq!(p.deposit(50, 100, 200), Ok((100, 200)));
}

#[test]
fn lock_requires_authority() {
    let mut p = fresh_pool(30);
    assert_eq!(p.lock(false), Err(AmmError::InvalidAuthority));
    assert!(!p.locked);
    assert_eq!(p.lock(true), Ok(()));
    assert_eq!(p.unlock(false), Err(AmmError::InvalidAuthority));
    assert!(p.locked);
}

#[test]
fn lock_and_unlock_are_idempotent() {
    let mut p = fresh_pool(30);
    assert_eq!(p.unlock(true), Ok(()));
    assert!(!p.locked);
    assert_eq!(p.lock(true), Ok(()));
    assert_eq!(p.lock(true), Ok(()));
    assert!(p.locked);
}

#[test]
fn full_withdrawal_drains_pool() {
    // Burning the whole supply is the only path that empties both sides.
    let mut p = fresh_pool(30);
    assert_eq!(p.deposit(500, 1000, 2000), Ok((1000, 2000)));
    assert_eq!(p.withdraw(500, 1000, 2000), Ok((1000, 2000)));
    assert_eq!(p.reserve_x, 0);
    assert_eq!(p.reserve_y, 0);
    assert_eq!(p.share_supply, 0);
}

#[test]
fn partial_withdrawal() {
    let mut p = fresh_pool(30);
    assert_eq!(p.deposit(500, 1000, 2000), Ok((1000, 2000)));
    assert_eq!(p.withdraw(50, 100, 200), Ok((100, 200)));
    assert_eq!(p.reserve_x, 900);
    assert_eq!(p.reserve_y, 1800);
    assert_eq!(p.share_supply, 450);
}

#[test]
fn withdraw_slippage() {
    let mut p = fresh_pool(30);
    assert_eq!(p.deposit(500, 1000, 2000), Ok((1000, 2000)));
    assert_eq!(p.withdraw(50, 101, 200), Err(AmmError::SlippageExceeded));
    assert_eq!(p.share_supply, 500);
}

#[test]
fn withdraw_invalid_share_counts() {
    let mut p = fresh_pool(30);
    assert_eq!(p.deposit(500, 1000, 2000), Ok((1000, 2000)));
    assert_eq!(p.withdraw(0, 0, 0), Err(AmmError::InvalidAmount));
    assert_eq!(p.withdraw(501, 0, 0), Err(AmmError::InvalidAmount));
}

#[test]
fn round_trip_never_creates_value() {
    // Deposit and then withdraw the same share amount: floor rounding on
    // both legs keeps the difference inside the pool.
    let mut p = fresh_pool(30);
    assert_eq!(p.deposit(100, 1000, 333), Ok((1000, 333)));
    let (dep_x, dep_y) = p.deposit(7, 1000, 333).unwrap();
    assert_eq!((dep_x, dep_y), (70, 23));
    let (ret_x, ret_y) = p.withdraw(7, 0, 0).unwrap();
    assert!(ret_x <= dep_x);
    assert!(ret_y <= dep_y);
    assert_eq!((ret_x, ret_y), (70, 23));
}
