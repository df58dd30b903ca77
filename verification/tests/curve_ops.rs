use amm_core::curve::{deposit_amounts, swap_amounts, withdraw_amounts};
use amm_core::error::AmmError;

#[test]
fn deposit_amounts_proportional() {
    assert_eq!(deposit_amounts(1000, 2000, 500, 50, 100, 200), Ok((100, 200)));
}

#[test]
fn deposit_amounts_zero_shares() {
    assert_eq!(deposit_amounts(1000, 2000, 500, 0, 100, 200), Err(AmmError::InvalidAmount));
}

#[test]
fn deposit_amounts_zero_supply_is_invalid_precision() {
    // A zero supply outside the designated bootstrap path is a logic
    // error, not user input.
    assert_eq!(deposit_amounts(0, 0, 0, 50, 100, 200), Err(AmmError::InvalidPrecision));
}

#[test]
fn deposit_amounts_slippage() {
    assert_eq!(deposit_amounts(1000, 2000, 500, 50, 99, 200), Err(AmmError::SlippageExceeded));
    assert_eq!(deposit_amounts(1000, 2000, 500, 50, 100, 199), Err(AmmError::SlippageExceeded));
}

#[test]
fn deposit_amounts_overflow() {
    assert_eq!(
        deposit_amounts(u64::MAX, u64::MAX, 1, 2, u64::MAX, u64::MAX),
        Err(AmmError::Overflow)
    );
}

#[test]
fn withdraw_amounts_proportional() {
    assert_eq!(withdraw_amounts(1000, 2000, 500, 50, 0, 0), Ok((100, 200)));
}

#[test]
fn withdraw_amounts_full_supply() {
    assert_eq!(withdraw_amounts(1000, 2000, 500, 500, 1000, 2000), Ok((1000, 2000)));
}

#[test]
fn withdraw_amounts_invalid() {
    assert_eq!(withdraw_amounts(1000, 2000, 500, 0, 0, 0), Err(AmmError::InvalidAmount));
    assert_eq!(withdraw_amounts(1000, 2000, 500, 501, 0, 0), Err(AmmError::InvalidAmount));
}

#[test]
fn withdraw_amounts_strands_one_reserve() {
    // Draining the empty side while the other stays positive is rejected.
    assert_eq!(withdraw_amounts(0, 100, 10, 5, 0, 0), Err(AmmError::ZeroBalance));
}

#[test]
fn withdraw_amounts_slippage() {
    assert_eq!(withdraw_amounts(1000, 2000, 500, 50, 101, 0), Err(AmmError::SlippageExceeded));
}

#[test]
fn swap_amounts_with_fee() {
    // 30 bps on 100 leaves 99 for the curve: the pool keeps
    // ceil(1000 * 1000 / 1099) = 910 and pays out 90.
    assert_eq!(swap_amounts(1000, 1000, 30, 100, 0), Ok(90));
}

#[test]
fn swap_amounts_zero_fee() {
    assert_eq!(swap_amounts(1000, 1000, 0, 100, 0), Ok(90));
}

#[test]
fn swap_amounts_zero_amount() {
    assert_eq!(swap_amounts(1000, 1000, 30, 0, 0), Err(AmmError::InvalidAmount));
}

#[test]
fn swap_amounts_slippage() {
    assert_eq!(swap_amounts(1000, 1000, 30, 100, 91), Err(AmmError::SlippageExceeded));
}

#[test]
fn swap_amounts_insufficient_balance() {
    // With nothing on the sell side, the curve would pay out the whole
    // buy-side reserve.
    assert_eq!(swap_amounts(0, 5, 0, 10, 0), Err(AmmError::InsufficientBalance));
}

#[test]
fn swap_amounts_zero_denominator_is_invalid_precision() {
    // A 99.99% fee floors a one-unit input to nothing, and with an empty
    // sell-side reserve the curve has no denominator.
    assert_eq!(swap_amounts(0, 5, 9999, 1, 0), Err(AmmError::InvalidPrecision));
}
