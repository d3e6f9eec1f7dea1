use fully_backed_amm::error::AMMError;
use fully_backed_amm::helper::{LiquidityPool, SwapToken, WithdrawAsset};

fn deposit(a: u64, b: u64, supply: u64, da: u64, db: u64) -> Result<u64, AMMError> {
    LiquidityPool::calculate_liquidity(LiquidityPool {
        total_amount_a: a,
        total_amount_b: b,
        deposit_amount_a: da,
        deposit_amount_b: db,
        mint_supply: supply,
    })
}

fn swap(is_a: bool, amount: u64, a: u64, b: u64) -> Result<u64, AMMError> {
    SwapToken::swap_token(SwapToken {
        is_a,
        deposit_amount: amount,
        total_amount_a: a,
        total_amount_b: b,
    })
}

fn withdraw(supply: u64, share: u64, vault: u64) -> Result<u64, AMMError> {
    WithdrawAsset::calculate_token(WithdrawAsset {
        mint_supply: supply,
        lp_share_amount: share,
        total_amount_vault: vault,
    })
}

#[test]
fn bootstrap_exact_square() {
    // sqrt(1000 * 1000) = 1000 exactly.
    assert_eq!(deposit(0, 0, 0, 1000, 1000), Ok(1000));
}

#[test]
fn bootstrap_rounds_to_nearest() {
    assert_eq!(deposit(0, 0, 0, 2, 2), Ok(2)); // sqrt(4) = 2
    assert_eq!(deposit(0, 0, 0, 1, 1), Ok(1)); // sqrt(1) = 1
    assert_eq!(deposit(0, 0, 0, 1, 2), Ok(1)); // sqrt(2) = 1.414.. -> 1
    assert_eq!(deposit(0, 0, 0, 1, 3), Ok(2)); // sqrt(3) = 1.732.. -> 2
    assert_eq!(deposit(0, 0, 0, 1000, 500), Ok(707)); // sqrt(500000) = 707.10.. -> 707
}

#[test]
fn bootstrap_zero_amount_rejected() {
    assert_eq!(deposit(0, 0, 0, 0, 1000), Err(AMMError::AmountZero));
    assert_eq!(deposit(0, 0, 0, 1000, 0), Err(AMMError::AmountZero));
    assert_eq!(deposit(0, 0, 0, 0, 0), Err(AMMError::AmountZero));
}

#[test]
fn bootstrap_product_overflow_rejected() {
    // 2^32 * 2^32 = 2^64 does not fit in 64 bits.
    let big: u64 = 1 << 32;
    assert_eq!(deposit(0, 0, 0, big, big), Err(AMMError::Overflow));
    // (2^32 - 1) * (2^32 + 1) = 2^64 - 1 just fits: sqrt rounds to 2^32.
    assert_eq!(deposit(0, 0, 0, big - 1, big + 1), Ok(big));
}

#[test]
fn ratio_mismatch_rejected() {
    // Reserves (1000, 2000): a deposit of (10, 19) breaks the 1:2 ratio.
    assert_eq!(deposit(1000, 2000, 1000, 10, 19), Err(AMMError::NotValidAsset));
    // A deposit of (10, 20) keeps it and mints 1% of the supply.
    assert_eq!(deposit(1000, 2000, 1000, 10, 20), Ok(10));
}

#[test]
fn proportional_minting() {
    // Depositing 10% of each reserve mints 10% of the supply.
    assert_eq!(deposit(1000, 1000, 1000, 100, 100), Ok(100));
}

#[test]
fn matching_deposit_priced_equally_on_uneven_pool() {
    // With reserves 1:3, a matching (100, 300) deposit is priced the same by
    // either side: 900 * 100 / 1000 == 900 * 300 / 3000 == 90.
    assert_eq!(deposit(1000, 3000, 900, 100, 300), Ok(90));
}

#[test]
fn deposit_zero_state_rejected() {
    // Outside the bootstrap case a zero reserve or supply is rejected.
    assert_eq!(deposit(0, 1000, 1000, 10, 10), Err(AMMError::AmountZero));
    assert_eq!(deposit(1000, 0, 1000, 10, 10), Err(AMMError::AmountZero));
    assert_eq!(deposit(1000, 1000, 0, 10, 10), Err(AMMError::AmountZero));
}

#[test]
fn deposit_zero_amount_rejected() {
    // A zero pair keeps the ratio but mints nothing and is rejected.
    assert_eq!(deposit(1000, 2000, 1000, 0, 0), Err(AMMError::AmountZero));
}

#[test]
fn deposit_reserve_overflow_rejected() {
    assert_eq!(deposit(u64::MAX, 1000, 1000, 1, 0), Err(AMMError::Overflow));
    assert_eq!(deposit(1000, u64::MAX, 1000, 0, 1), Err(AMMError::Overflow));
}

#[test]
fn swap_quote_example() {
    // 1000 * 100 / (1000 + 100) = 90.909.. rounds to 91.
    assert_eq!(swap(true, 100, 1000, 1000), Ok(91));
}

#[test]
fn swap_direction_agnostic() {
    // With asymmetric reserves the two directions price differently.
    // in = A: 2000 * 100 / (1000 + 100) = 181.81.. -> 182
    assert_eq!(swap(true, 100, 1000, 2000), Ok(182));
    // in = B: 1000 * 100 / (2000 + 100) = 47.61.. -> 48
    assert_eq!(swap(false, 100, 1000, 2000), Ok(48));
}

#[test]
fn swap_rounds_halves_up() {
    // 1 * 1 / (1 + 1) = 0.5 rounds up to 1, draining the out reserve.
    assert_eq!(swap(true, 1, 1, 1), Ok(1));
}

#[test]
fn swap_output_monotone_and_bounded() {
    let mut last = 0;
    for amount in [1u64, 10, 100, 1000, 10_000, 100_000] {
        let out = swap(true, amount, 1000, 1000).unwrap();
        assert!(out >= last);
        assert!(out <= 1000);
        last = out;
    }
}

#[test]
fn swap_zero_divisor_rejected() {
    // Only an empty in-side reserve together with a zero amount divides by zero.
    assert_eq!(swap(true, 0, 0, 1000), Err(AMMError::AmountZero));
    assert_eq!(swap(false, 0, 1000, 0), Err(AMMError::AmountZero));
    // A zero amount against a live reserve quotes zero.
    assert_eq!(swap(true, 0, 1000, 1000), Ok(0));
}

#[test]
fn swap_numerator_overflow_rejected() {
    // 2^62 * 2 = 2^63 leaves the 64.64 fixed-point integer range.
    assert_eq!(swap(true, 2, 1000, 1 << 62), Err(AMMError::Overflow));
    assert_eq!(swap(false, 2, 1 << 62, 1000), Err(AMMError::Overflow));
}

#[test]
fn swap_denominator_overflow_rejected() {
    // (2^63 - 1) + 1 = 2^63 leaves the 64.64 fixed-point integer range.
    assert_eq!(swap(true, 1, (1 << 63) - 1, 1000), Err(AMMError::Overflow));
}

#[test]
fn withdrawal_truncates() {
    // 1000 * 1 / 3 = 333.33.. truncates to 333.
    assert_eq!(withdraw(3, 1, 1000), Ok(333));
}

#[test]
fn withdrawal_proportional() {
    // Half the supply redeems half of each reserve.
    assert_eq!(withdraw(1000, 500, 800), Ok(400));
}

#[test]
fn withdrawal_zero_rejected() {
    assert_eq!(withdraw(1000, 0, 800), Err(AMMError::AmountZero));
    assert_eq!(withdraw(0, 10, 800), Err(AMMError::AmountZero));
}

#[test]
fn withdrawal_overflow_rejected() {
    // u64::MAX * 3 / 1 does not fit in 64 bits.
    assert_eq!(withdraw(1, 3, u64::MAX), Err(AMMError::Overflow));
}
