use fully_backed_amm::error::AMMError;
use fully_backed_amm::pool::PoolReserves;

fn empty() -> PoolReserves {
    PoolReserves { reserve_a: 0, reserve_b: 0, lp_supply: 0 }
}

#[test]
fn deposit_updates_pool() {
    let mut pool = empty();
    assert_eq!(pool.deposite(1000, 1000), Ok(1000));
    assert_eq!(pool, PoolReserves { reserve_a: 1000, reserve_b: 1000, lp_supply: 1000 });
    assert_eq!(pool.deposite(100, 100), Ok(100));
    assert_eq!(pool, PoolReserves { reserve_a: 1100, reserve_b: 1100, lp_supply: 1100 });
}

#[test]
fn failed_deposit_changes_nothing() {
    let mut pool = PoolReserves { reserve_a: 1000, reserve_b: 2000, lp_supply: 1000 };
    assert_eq!(pool.deposite(10, 19), Err(AMMError::NotValidAsset));
    assert_eq!(pool, PoolReserves { reserve_a: 1000, reserve_b: 2000, lp_supply: 1000 });
}

#[test]
fn swap_moves_both_reserves() {
    let mut pool = PoolReserves { reserve_a: 1000, reserve_b: 1000, lp_supply: 1000 };
    assert_eq!(pool.swap(true, 100, 0), Ok(91));
    assert_eq!(pool, PoolReserves { reserve_a: 1100, reserve_b: 909, lp_supply: 1000 });
}

#[test]
fn swap_keeps_constant_product_within_rounding() {
    let mut pool = PoolReserves { reserve_a: 1000, reserve_b: 1000, lp_supply: 1000 };
    assert_eq!(pool.swap(true, 100, 0), Ok(91));
    // Old product 1000 * 1000, new product 1100 * 909: the difference stays
    // below half of the new in-side reserve.
    let old_product: i128 = 1000 * 1000;
    let new_product: i128 = 1100 * 909;
    assert!(2 * old_product - 1100 <= 2 * new_product);
    assert!(2 * new_product <= 2 * old_product + 1100 - 1);
}

#[test]
fn swap_slippage_rejected() {
    // The quote of 91 is below a guaranteed minimum of 92.
    let mut pool = PoolReserves { reserve_a: 1000, reserve_b: 1000, lp_supply: 1000 };
    assert_eq!(pool.swap(true, 100, 92), Err(AMMError::SlippageLimitExceeded));
    assert_eq!(pool, PoolReserves { reserve_a: 1000, reserve_b: 1000, lp_supply: 1000 });
    // A minimum equal to the quote is met.
    assert_eq!(pool.swap(true, 100, 91), Ok(91));
}

#[test]
fn swap_other_direction() {
    let mut pool = PoolReserves { reserve_a: 1000, reserve_b: 2000, lp_supply: 1000 };
    // in = B: 1000 * 100 / (2000 + 100) = 47.61.. -> 48
    assert_eq!(pool.swap(false, 100, 0), Ok(48));
    assert_eq!(pool, PoolReserves { reserve_a: 952, reserve_b: 2100, lp_supply: 1000 });
}

#[test]
fn withdraw_updates_pool() {
    let mut pool = PoolReserves { reserve_a: 1100, reserve_b: 909, lp_supply: 1000 };
    // 1100 * 500 / 1000 = 550; 909 * 500 / 1000 = 454.5 -> 454.
    assert_eq!(pool.withdraw(500), Ok((550, 454)));
    assert_eq!(pool, PoolReserves { reserve_a: 550, reserve_b: 455, lp_supply: 500 });
}

#[test]
fn withdraw_round_trip_exact_on_full_redemption() {
    // Deposit into an empty pool, then redeem every minted share: the exact
    // deposited amounts come back and the pool is empty again.
    for (x, y) in [(1000u64, 1000u64), (1000, 500), (3, 5), (1, 1), (123_456, 789)] {
        let mut pool = empty();
        let minted = pool.deposite(x, y).unwrap();
        assert!(minted >= 1);
        assert_eq!(pool.withdraw(minted), Ok((x, y)));
        assert_eq!(pool, empty());
    }
}

#[test]
fn withdraw_zero_rejected() {
    let mut pool = PoolReserves { reserve_a: 1000, reserve_b: 1000, lp_supply: 1000 };
    assert_eq!(pool.withdraw(0), Err(AMMError::AmountZero));
    let mut drained = empty();
    assert_eq!(drained.withdraw(5), Err(AMMError::AmountZero));
}

#[test]
fn withdraw_beyond_supply_rejected() {
    let mut pool = PoolReserves { reserve_a: 1000, reserve_b: 1000, lp_supply: 1000 };
    assert_eq!(pool.withdraw(2000), Err(AMMError::Overflow));
    assert_eq!(pool, PoolReserves { reserve_a: 1000, reserve_b: 1000, lp_supply: 1000 });
}

#[test]
fn deposit_keeps_ratio_after_swap() {
    // After a swap skews the reserves, only a ratio-matching pair deposits.
    let mut pool = PoolReserves { reserve_a: 1000, reserve_b: 1000, lp_supply: 1000 };
    assert_eq!(pool.swap(true, 100, 0), Ok(91));
    // Reserves are now (1100, 909).
    assert_eq!(pool.deposite(1100, 909), Ok(1000));
    assert_eq!(pool, PoolReserves { reserve_a: 2200, reserve_b: 1818, lp_supply: 2000 });
    assert_eq!(pool.deposite(10, 9), Err(AMMError::NotValidAsset));
}
