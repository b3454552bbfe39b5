use amm_core::errors::AmmError;
use amm_core::ops::{SwapOutcome, WithdrawOutcome};
use amm_core::pool::PoolState;

fn pool(
    reserve_x: u64,
    reserve_y: u64,
    share_supply: u64,
    fee_rate_bps: u16,
    locked: bool,
) -> PoolState {
    PoolState::new(reserve_x, reserve_y, share_supply, fee_rate_bps, locked).unwrap()
}

#[test]
fn new_accepts_well_formed_states() {
    assert!(PoolState::new(1000, 1000, 1000, 30, false).is_some());
    assert!(PoolState::new(0, 0, 0, 0, true).is_some());
    assert!(PoolState::new(1, 0, 5, 10000, false).is_some());
}

#[test]
fn new_rejects_fee_above_whole() {
    assert!(PoolState::new(1000, 1000, 1000, 10001, false).is_none());
}

#[test]
fn new_rejects_supply_reserve_mismatch() {
    // Shares outstanding with nothing behind them, or reserves with no shares.
    assert!(PoolState::new(0, 0, 1000, 30, false).is_none());
    assert!(PoolState::new(1000, 1000, 0, 30, false).is_none());
}

#[test]
fn is_well_formed_matches_new() {
    assert!(pool(1000, 2000, 1000, 30, false).is_well_formed());
    let bad = PoolState { reserve_x: 0, reserve_y: 0, share_supply: 7, fee_rate_bps: 30, locked: false };
    assert!(!bad.is_well_formed());
}

#[test]
fn swap_pays_quote_and_updates_reserves() {
    let mut p = pool(1000, 1000, 1000, 30, false);
    let o = p.swap(true, 100, 90).unwrap();
    assert_eq!(
        o,
        SwapOutcome { in_is_x: true, amount_in: 100, amount_out: 91, fee_charged: 0 },
    );
    assert_eq!(p.reserve_x, 1100);
    assert_eq!(p.reserve_y, 909);
    assert_eq!(p.share_supply, 1000);
    assert!(p.is_well_formed());
}

#[test]
fn swap_other_direction_is_symmetric() {
    let mut p = pool(1000, 1000, 1000, 30, false);
    let o = p.swap(false, 100, 0).unwrap();
    assert_eq!(o.amount_out, 91);
    assert_eq!(p.reserve_x, 909);
    assert_eq!(p.reserve_y, 1100);
}

#[test]
fn swap_slippage_bound_rejected() {
    // The same exchange as the basic scenario pays 91; demanding 92 fails
    // and leaves the pool untouched.
    let mut p = pool(1000, 1000, 1000, 30, false);
    assert_eq!(p.swap(true, 100, 92), Err(AmmError::SlippageExceeded));
    assert_eq!(p, pool(1000, 1000, 1000, 30, false));
}

#[test]
fn swap_locked_pool_rejected() {
    let mut p = pool(1000, 1000, 1000, 30, true);
    assert_eq!(p.swap(true, 100, 0), Err(AmmError::PoolLocked));
    assert_eq!(p.swap(false, 0, 0), Err(AmmError::PoolLocked));
    assert_eq!(p, pool(1000, 1000, 1000, 30, true));
}

#[test]
fn withdraw_locked_pool_rejected() {
    let mut p = pool(1000, 2000, 1000, 30, true);
    assert_eq!(p.withdraw(500, 500, 1000), Err(AmmError::PoolLocked));
    assert_eq!(p, pool(1000, 2000, 1000, 30, true));
}

#[test]
fn swap_empty_pool_rejected() {
    let mut p = pool(0, 0, 0, 30, false);
    assert_eq!(p.swap(true, 100, 0), Err(AmmError::NoLiquidityInPool));
    assert_eq!(p.swap(false, 100, 0), Err(AmmError::NoLiquidityInPool));
    assert_eq!(p, pool(0, 0, 0, 30, false));
}

#[test]
fn swap_zero_amount_rejected() {
    let mut p = pool(1000, 1000, 1000, 30, false);
    assert_eq!(p.swap(true, 0, 0), Err(AmmError::InvalidAmount));
    assert_eq!(p, pool(1000, 1000, 1000, 30, false));
}

#[test]
fn swap_overflowing_reserve_rejected() {
    // The new in-reserve would not fit 64 bits.
    let mut p = pool(u64::MAX - 10, 1000, 5, 0, false);
    assert_eq!(p.swap(true, 100, 0), Err(AmmError::Overflow));
    assert_eq!(p, pool(u64::MAX - 10, 1000, 5, 0, false));
}

#[test]
fn swap_overflowing_vault_rejected() {
    // With the whole input taken as fee the invariant computation fits,
    // but the vault balance after the deposit would not.
    let mut p = pool(u64::MAX - 100, 1000, 5, 10000, false);
    assert_eq!(p.swap(true, 150, 0), Err(AmmError::Overflow));
    assert_eq!(p, pool(u64::MAX - 100, 1000, 5, 10000, false));
}

#[test]
fn withdraw_redeems_proportional_slice() {
    let mut p = pool(1000, 2000, 1000, 30, false);
    let o = p.withdraw(500, 500, 1000).unwrap();
    assert_eq!(
        o,
        WithdrawOutcome { amount_x: 500, amount_y: 1000, shares_burned: 500 },
    );
    assert_eq!(p.reserve_x, 500);
    assert_eq!(p.reserve_y, 1000);
    assert_eq!(p.share_supply, 500);
    assert!(p.is_well_formed());
}

#[test]
fn withdraw_whole_supply_empties_pool() {
    let mut p = pool(1000, 2000, 1000, 30, false);
    let o = p.withdraw(1000, 1000, 2000).unwrap();
    assert_eq!(o.amount_x, 1000);
    assert_eq!(o.amount_y, 2000);
    assert_eq!(p, pool(0, 0, 0, 30, false));
}

#[test]
fn withdraw_bound_rejected() {
    // The computed amounts must each stay at or below the caller's
    // declared bounds; 500 exceeds 499.
    let mut p = pool(1000, 2000, 1000, 30, false);
    assert_eq!(p.withdraw(500, 499, 1000), Err(AmmError::SlippageExceeded));
    assert_eq!(p.withdraw(500, 500, 999), Err(AmmError::SlippageExceeded));
    assert_eq!(p, pool(1000, 2000, 1000, 30, false));
}

#[test]
fn withdraw_zero_shares_rejected() {
    let mut p = pool(1000, 2000, 1000, 30, false);
    assert_eq!(p.withdraw(0, 500, 1000), Err(AmmError::InvalidAmount));
    assert_eq!(p, pool(1000, 2000, 1000, 30, false));
}

#[test]
fn withdraw_more_than_supply_rejected() {
    let mut p = pool(1000, 2000, 1000, 30, false);
    assert_eq!(p.withdraw(1500, u64::MAX, u64::MAX), Err(AmmError::InsufficientShares));
    assert_eq!(p, pool(1000, 2000, 1000, 30, false));
}

#[test]
fn withdraw_empty_pool_rejected() {
    let mut p = pool(0, 0, 0, 30, false);
    assert_eq!(p.withdraw(5, u64::MAX, u64::MAX), Err(AmmError::NoLiquidityInPool));
    assert_eq!(p, pool(0, 0, 0, 30, false));
}

#[test]
fn failed_operations_change_nothing_in_sequence() {
    // A mix of failing calls between two successful ones: only the
    // successful ones move the pool.
    let mut p = pool(1000, 1000, 1000, 30, false);
    assert!(p.swap(true, 0, 0).is_err());
    assert!(p.withdraw(2000, u64::MAX, u64::MAX).is_err());
    let o = p.swap(true, 100, 0).unwrap();
    assert_eq!(o.amount_out, 91);
    assert!(p.swap(true, 100, u64::MAX).is_err());
    let w = p.withdraw(1000, u64::MAX, u64::MAX).unwrap();
    assert_eq!(w.amount_x, 1100);
    assert_eq!(w.amount_y, 909);
    assert_eq!(p, pool(0, 0, 0, 30, false));
}
