use crate::error::AMMError;
use crate::math::{
    div_round_half_up, div_round_nearest, lemma_div_round_half_up_ordered,
    lemma_equal_ratios_equal_quotients, lemma_u64_mul_fits_u128, rounded_sqrt, spec_min,
    sqrt_rounded,
};
use vstd::arithmetic::div_mod::{
    lemma_div_pos_is_pos, lemma_fundamental_div_mod, lemma_mod_division_less_than_divisor,
    lemma_multiply_divide_lt,
};
use vstd::prelude::*;

verus! {

// The three pricing engines: liquidity-share minting for a deposit, the
// constant-product swap quote, and the proportional withdrawal amount.  Each
// is a pure function of the values passed in; applying the resulting asset
// movements belongs to the caller.

/// Integer parts of the signed 64.64 fixed-point representation used for the
/// swap intermediates must stay below `2^63`; a numerator or a denominator at
/// or beyond this limit is reported as `Overflow`.
pub const FIXED_INT_LIMIT: u64 = 0x8000_0000_0000_0000;

/// A deposit request: the pool's reserves and minted liquidity-share supply
/// at the moment of the request, and the amounts the provider offers.
#[derive(Clone, Copy)]
pub struct LiquidityPool {
    pub total_amount_a: u64,
    pub total_amount_b: u64,
    pub deposit_amount_a: u64,
    pub deposit_amount_b: u64,
    pub mint_supply: u64,
}

/// Liquidity shares minted for the first deposit into an empty pool:
/// `sqrt(amount_x * amount_y)` rounded to the nearest integer.  A zero amount
/// is rejected with `AmountZero`; a product beyond 64 bits with `Overflow`.
pub open spec fn spec_first_liquidity(amount_x: u64, amount_y: u64) -> Result<u64, AMMError> {
    if amount_x == 0 || amount_y == 0 {
        Err(AMMError::AmountZero)
    } else if amount_x * amount_y > u64::MAX {
        Err(AMMError::Overflow)
    } else {
        Ok(rounded_sqrt(amount_x * amount_y) as u64)
    }
}

/// Liquidity shares minted for a deposit into a non-empty pool:
/// `mint_supply * min(deposit_a / reserve_a, deposit_b / reserve_b)`, each
/// ratio taken exactly and the result truncated to an integer share amount.
/// A zero reserve, deposit amount or supply is rejected with `AmountZero`; a
/// result beyond 64 bits with `Overflow`.
pub open spec fn spec_lp_token(lp_deposite: LiquidityPool) -> Result<u64, AMMError> {
    let a = lp_deposite.total_amount_a as int;
    let b = lp_deposite.total_amount_b as int;
    let da = lp_deposite.deposit_amount_a as int;
    let db = lp_deposite.deposit_amount_b as int;
    let s = lp_deposite.mint_supply as int;
    if a == 0 || b == 0 || da == 0 || s == 0 {
        Err(AMMError::AmountZero)
    } else {
        let minted = spec_min(s * da / a, s * db / b);
        if minted > u64::MAX {
            Err(AMMError::Overflow)
        } else {
            Ok(minted as u64)
        }
    }
}

/// The full deposit rule.  An empty pool (no reserves, no supply) takes the
/// bootstrap branch; otherwise the reserves and the supply must be non-zero,
/// the post-deposit reserves must fit in 64 bits, and the deposit must keep
/// the reserve ratio exactly (`reserve_a * deposit_b == reserve_b *
/// deposit_a`, the cross-multiplied form of ratio equality), else
/// `NotValidAsset`.
pub open spec fn spec_calculate_liquidity(lp_request: LiquidityPool) -> Result<u64, AMMError> {
    let a = lp_request.total_amount_a as int;
    let b = lp_request.total_amount_b as int;
    let da = lp_request.deposit_amount_a as int;
    let db = lp_request.deposit_amount_b as int;
    let s = lp_request.mint_supply as int;
    if s == 0 && a == 0 && b == 0 {
        spec_first_liquidity(lp_request.deposit_amount_a, lp_request.deposit_amount_b)
    } else if a == 0 || b == 0 || s == 0 {
        Err(AMMError::AmountZero)
    } else if a + da > u64::MAX || b + db > u64::MAX {
        Err(AMMError::Overflow)
    } else if a * db != b * da {
        Err(AMMError::NotValidAsset)
    } else {
        spec_lp_token(lp_request)
    }
}

impl LiquidityPool {
    /// Computes the liquidity-share amount to mint for a deposit request.
    pub fn calculate_liquidity(lp_request: LiquidityPool) -> (r: Result<u64, AMMError>)
        ensures
            r == spec_calculate_liquidity(lp_request),
    {
        if lp_request.mint_supply == 0 && lp_request.total_amount_a == 0
            && lp_request.total_amount_b == 0 {
            LiquidityPool::calculate_first_liquidity(
                lp_request.deposit_amount_a,
                lp_request.deposit_amount_b,
            )
        } else {
            let a = lp_request.total_amount_a;
            let b = lp_request.total_amount_b;
            let da = lp_request.deposit_amount_a;
            let db = lp_request.deposit_amount_b;
            if a == 0 || b == 0 || lp_request.mint_supply == 0 {
                return Err(AMMError::AmountZero);
            }
            if (a as u128) + (da as u128) > u64::MAX as u128
                || (b as u128) + (db as u128) > u64::MAX as u128 {
                return Err(AMMError::Overflow);
            }
            proof {
                lemma_u64_mul_fits_u128(a, db);
                lemma_u64_mul_fits_u128(b, da);
            }
            if (a as u128) * (db as u128) != (b as u128) * (da as u128) {
                return Err(AMMError::NotValidAsset);
            }
            LiquidityPool::calculate_lp_token(lp_request)
        }
    }

    /// The bootstrap branch: shares for the first deposit into an empty pool.
    fn calculate_first_liquidity(amount_x: u64, amount_y: u64) -> (r: Result<u64, AMMError>)
        ensures
            r == spec_first_liquidity(amount_x, amount_y),
    {
        if amount_x == 0 || amount_y == 0 {
            return Err(AMMError::AmountZero);
        }
        proof {
            lemma_u64_mul_fits_u128(amount_x, amount_y);
        }
        let product: u128 = (amount_x as u128) * (amount_y as u128);
        if product > u64::MAX as u128 {
            return Err(AMMError::Overflow);
        }
        Ok(sqrt_rounded(product as u64))
    }

    /// The steady-state branch: shares proportional to the scarcer side of
    /// the deposit relative to its reserve.
    fn calculate_lp_token(lp_deposite: LiquidityPool) -> (r: Result<u64, AMMError>)
        ensures
            r == spec_lp_token(lp_deposite),
    {
        let a = lp_deposite.total_amount_a;
        let b = lp_deposite.total_amount_b;
        let da = lp_deposite.deposit_amount_a;
        let db = lp_deposite.deposit_amount_b;
        let s = lp_deposite.mint_supply;
        if a == 0 || b == 0 || da == 0 || s == 0 {
            return Err(AMMError::AmountZero);
        }
        proof {
            lemma_u64_mul_fits_u128(s, da);
            lemma_u64_mul_fits_u128(s, db);
        }
        let value_a: u128 = (s as u128) * (da as u128) / (a as u128);
        let value_b: u128 = (s as u128) * (db as u128) / (b as u128);
        let minted: u128 = if value_a <= value_b {
            value_a
        } else {
            value_b
        };
        if minted > u64::MAX as u128 {
            return Err(AMMError::Overflow);
        }
        Ok(minted as u64)
    }
}

/// A swap request: which asset the trader pays in (`is_a` means asset A goes
/// in and asset B comes out), the amount paid in, and the pool's reserves.
#[derive(Clone, Copy)]
pub struct SwapToken {
    pub is_a: bool,
    pub deposit_amount: u64,
    pub total_amount_a: u64,
    pub total_amount_b: u64,
}

/// The constant-product swap formula on exact integers:
/// `reserve_out * amount_in / (reserve_in + amount_in)`, rounded to the
/// nearest integer token unit.
pub open spec fn spec_swap_amount(out_res: int, in_res: int, amt: int) -> int {
    div_round_half_up(out_res * amt, in_res + amt)
}

/// One direction of the swap over plain reserves.  A zero divisor (both the
/// in-side reserve and the amount zero) is rejected with `AmountZero`; an
/// operand, the numerator product or the denominator sum that leaves the
/// fixed-point integer range with `Overflow`.
pub open spec fn spec_swap_parts(out_res: u64, in_res: u64, amt: u64) -> Result<u64, AMMError> {
    if in_res + amt == 0 {
        Err(AMMError::AmountZero)
    } else if out_res >= FIXED_INT_LIMIT || out_res * amt >= FIXED_INT_LIMIT {
        Err(AMMError::Overflow)
    } else if in_res + amt >= FIXED_INT_LIMIT {
        Err(AMMError::Overflow)
    } else {
        Ok(spec_swap_amount(out_res as int, in_res as int, amt as int) as u64)
    }
}

/// The swap engine: `is_a` trades A in for B out, otherwise B in for A out.
pub open spec fn spec_swap_token(swap_arg: SwapToken) -> Result<u64, AMMError> {
    if swap_arg.is_a {
        spec_swap_parts(swap_arg.total_amount_b, swap_arg.total_amount_a, swap_arg.deposit_amount)
    } else {
        spec_swap_parts(swap_arg.total_amount_a, swap_arg.total_amount_b, swap_arg.deposit_amount)
    }
}

impl SwapToken {
    /// Computes the output amount for a swap request.
    pub fn swap_token(swap_arg: SwapToken) -> (r: Result<u64, AMMError>)
        ensures
            r == spec_swap_token(swap_arg),
    {
        match swap_arg.is_a {
            true => SwapToken::swap_b_for_a(swap_arg),
            false => SwapToken::swap_a_for_b(swap_arg),
        }
    }

    /// Pays reserve B out for a deposit of asset A.
    fn swap_b_for_a(swap_arg: SwapToken) -> (r: Result<u64, AMMError>)
        ensures
            r == spec_swap_parts(
                swap_arg.total_amount_b,
                swap_arg.total_amount_a,
                swap_arg.deposit_amount,
            ),
    {
        swap_quote(swap_arg.total_amount_b, swap_arg.total_amount_a, swap_arg.deposit_amount)
    }

    /// Pays reserve A out for a deposit of asset B.
    fn swap_a_for_b(swap_arg: SwapToken) -> (r: Result<u64, AMMError>)
        ensures
            r == spec_swap_parts(
                swap_arg.total_amount_a,
                swap_arg.total_amount_b,
                swap_arg.deposit_amount,
            ),
    {
        swap_quote(swap_arg.total_amount_a, swap_arg.total_amount_b, swap_arg.deposit_amount)
    }
}

/// The shared quote computation for either direction of a swap.
fn swap_quote(out_res: u64, in_res: u64, amt: u64) -> (r: Result<u64, AMMError>)
    ensures
        r == spec_swap_parts(out_res, in_res, amt),
{
    if in_res == 0 && amt == 0 {
        return Err(AMMError::AmountZero);
    }
    if out_res >= FIXED_INT_LIMIT {
        return Err(AMMError::Overflow);
    }
    proof {
        lemma_u64_mul_fits_u128(out_res, amt);
    }
    let numerator: u128 = (out_res as u128) * (amt as u128);
    if numerator >= FIXED_INT_LIMIT as u128 {
        return Err(AMMError::Overflow);
    }
    let denominator: u128 = (in_res as u128) + (amt as u128);
    if denominator >= FIXED_INT_LIMIT as u128 {
        return Err(AMMError::Overflow);
    }
    let q = div_round_nearest(numerator, denominator);
    Ok(q as u64)
}

/// For fixed reserves, the swap output never decreases as the input amount
/// grows: the quote curve is monotone.
pub proof fn lemma_swap_amount_monotonic(out_res: int, in_res: int, amt1: int, amt2: int)
    requires
        0 <= out_res,
        0 <= in_res,
        0 <= amt1 <= amt2,
        0 < in_res + amt1,
    ensures
        spec_swap_amount(out_res, in_res, amt1) <= spec_swap_amount(out_res, in_res, amt2),
{
    assert(0 <= out_res * amt1 && 0 <= out_res * amt2 && (out_res * amt1) * (in_res + amt2)
        <= (out_res * amt2) * (in_res + amt1)) by (nonlinear_arith)
        requires
            0 <= out_res,
            0 <= in_res,
            0 <= amt1 <= amt2,
    ;
    lemma_div_round_half_up_ordered(
        out_res * amt1,
        in_res + amt1,
        out_res * amt2,
        in_res + amt2,
    );
}

/// The swap never pays out more than the out-side reserve, and pays strictly
/// less whenever the post-swap in-side reserve stays below twice the product
/// of the two reserves (rounding to the nearest integer can reach the full
/// reserve beyond that).
pub proof fn lemma_swap_amount_bounded(out_res: int, in_res: int, amt: int)
    requires
        0 <= out_res,
        0 <= in_res,
        0 <= amt,
        0 < in_res + amt,
    ensures
        0 <= spec_swap_amount(out_res, in_res, amt) <= out_res,
        in_res + amt < 2 * out_res * in_res ==> spec_swap_amount(out_res, in_res, amt) < out_res,
{
    let n = out_res * amt;
    let d = in_res + amt;
    assert(0 <= n && 2 * n + d < (2 * d) * (out_res + 1)) by (nonlinear_arith)
        requires
            0 <= out_res,
            0 <= in_res,
            0 <= amt,
            0 < in_res + amt,
            n == out_res * amt,
            d == in_res + amt,
    ;
    lemma_multiply_divide_lt(2 * n + d, 2 * d, out_res + 1);
    lemma_div_pos_is_pos(2 * n + d, 2 * d);
    if in_res + amt < 2 * out_res * in_res {
        assert(2 * n + d < (2 * d) * out_res) by (nonlinear_arith)
            requires
                0 <= out_res,
                0 <= in_res,
                0 <= amt,
                in_res + amt < 2 * out_res * in_res,
                n == out_res * amt,
                d == in_res + amt,
        ;
        lemma_multiply_divide_lt(2 * n + d, 2 * d, out_res);
    }
}

/// Across a swap the constant product is preserved up to the rounding of one
/// quote: with `q` the quoted output and `D = in_res + amt` the post-swap
/// in-side reserve, the post-swap product `D * (out_res - q)` differs from
/// the pre-swap product `in_res * out_res` by less than half of `D` in
/// either direction.
pub proof fn lemma_swap_constant_product(out_res: int, in_res: int, amt: int)
    requires
        0 <= out_res,
        0 <= in_res,
        0 <= amt,
        0 < in_res + amt,
    ensures
        ({
            let q = spec_swap_amount(out_res, in_res, amt);
            let old_product = in_res * out_res;
            let new_product = (in_res + amt) * (out_res - q);
            2 * old_product - (in_res + amt) <= 2 * new_product <= 2 * old_product + (in_res
                + amt) - 1
        }),
{
    let n = out_res * amt;
    let d = in_res + amt;
    let q = (2 * n + d) / (2 * d);
    let r = (2 * n + d) % (2 * d);
    lemma_fundamental_div_mod(2 * n + d, 2 * d);
    lemma_mod_division_less_than_divisor(2 * n + d, 2 * d);
    assert(2 * (in_res * out_res) - d <= 2 * (d * (out_res - q)) <= 2 * (in_res * out_res) + d
        - 1) by (nonlinear_arith)
        requires
            2 * n + d == (2 * d) * q + r,
            0 <= r < 2 * d,
            n == out_res * amt,
            d == in_res + amt,
            0 < d,
    ;
}

/// A deposit that matches the reserve ratio exactly is priced identically by
/// either side: the two candidate quotients of the minting rule agree, so
/// the `min` tie-break never under-pays a matching deposit.
pub proof fn lemma_matching_deposit_priced_equally(lp_deposite: LiquidityPool)
    requires
        0 < lp_deposite.total_amount_a,
        0 < lp_deposite.total_amount_b,
        (lp_deposite.total_amount_a as int) * (lp_deposite.deposit_amount_b as int)
            == (lp_deposite.total_amount_b as int) * (lp_deposite.deposit_amount_a as int),
    ensures
        (lp_deposite.mint_supply as int) * (lp_deposite.deposit_amount_a as int) / (
        lp_deposite.total_amount_a as int) == (lp_deposite.mint_supply as int) * (
        lp_deposite.deposit_amount_b as int) / (lp_deposite.total_amount_b as int),
{
    let a = lp_deposite.total_amount_a as int;
    let b = lp_deposite.total_amount_b as int;
    let da = lp_deposite.deposit_amount_a as int;
    let db = lp_deposite.deposit_amount_b as int;
    let s = lp_deposite.mint_supply as int;
    assert(0 <= s * da && 0 <= s * db && (s * da) * b == (s * db) * a) by (nonlinear_arith)
        requires
            a * db == b * da,
            0 <= s,
            0 <= da,
            0 <= db,
    ;
    lemma_equal_ratios_equal_quotients(s * da, a, s * db, b);
}

/// A withdrawal request: the minted liquidity-share supply, the share amount
/// being redeemed, and the reserve of the asset being evaluated.  Each of the
/// two assets is evaluated with its own request.
#[derive(Clone, Copy)]
pub struct WithdrawAsset {
    pub mint_supply: u64,
    pub lp_share_amount: u64,
    pub total_amount_vault: u64,
}

/// The withdrawal engine: the proportional share of the reserve,
/// `reserve * lp_share_amount / mint_supply`, truncated to an integer token
/// amount.  A zero share amount or supply is rejected with `AmountZero`; a
/// result beyond 64 bits with `Overflow`.  No minimum-out protection exists
/// here, unlike the swap engine: a known limitation, kept as designed.
pub open spec fn spec_calculate_token(withdraw_arg: WithdrawAsset) -> Result<u64, AMMError> {
    let vault = withdraw_arg.total_amount_vault as int;
    let share = withdraw_arg.lp_share_amount as int;
    let s = withdraw_arg.mint_supply as int;
    if share == 0 || s == 0 {
        Err(AMMError::AmountZero)
    } else if vault * share / s > u64::MAX {
        Err(AMMError::Overflow)
    } else {
        Ok((vault * share / s) as u64)
    }
}

impl WithdrawAsset {
    /// Computes the token amount owed for one side of a withdrawal request.
    pub fn calculate_token(withdraw_arg: WithdrawAsset) -> (r: Result<u64, AMMError>)
        ensures
            r == spec_calculate_token(withdraw_arg),
    {
        let vault = withdraw_arg.total_amount_vault;
        let share = withdraw_arg.lp_share_amount;
        let s = withdraw_arg.mint_supply;
        if share == 0 || s == 0 {
            return Err(AMMError::AmountZero);
        }
        proof {
            lemma_u64_mul_fits_u128(vault, share);
        }
        let owed: u128 = (vault as u128) * (share as u128) / (s as u128);
        if owed > u64::MAX as u128 {
            return Err(AMMError::Overflow);
        }
        Ok(owed as u64)
    }
}

/// Zero guard of the deposit engine: outside the bootstrap case, a zero
/// reserve or supply is always rejected with `AmountZero` before any division.
pub proof fn lemma_liquidity_zero_guard(lp_request: LiquidityPool)
    requires
        !(lp_request.mint_supply == 0 && lp_request.total_amount_a == 0
            && lp_request.total_amount_b == 0),
        lp_request.total_amount_a == 0 || lp_request.total_amount_b == 0
            || lp_request.mint_supply == 0,
    ensures
        spec_calculate_liquidity(lp_request) == Err::<u64, AMMError>(AMMError::AmountZero),
{
}

/// Zero guard of the bootstrap branch: a zero deposit amount on either side
/// of the first deposit is rejected with `AmountZero`.
pub proof fn lemma_first_liquidity_zero_guard(amount_x: u64, amount_y: u64)
    requires
        amount_x == 0 || amount_y == 0,
    ensures
        spec_first_liquidity(amount_x, amount_y) == Err::<u64, AMMError>(AMMError::AmountZero),
{
}

/// Zero guard of the swap engine: a zero divisor (in-side reserve plus input
/// amount) is always rejected with `AmountZero` before any division.
pub proof fn lemma_swap_zero_guard(swap_arg: SwapToken)
    requires
        (if swap_arg.is_a {
            swap_arg.total_amount_a
        } else {
            swap_arg.total_amount_b
        }) + swap_arg.deposit_amount == 0,
    ensures
        spec_swap_token(swap_arg) == Err::<u64, AMMError>(AMMError::AmountZero),
{
}

/// Zero guard of the withdrawal engine: a zero share amount or supply is
/// always rejected with `AmountZero` before any division.
pub proof fn lemma_withdraw_zero_guard(withdraw_arg: WithdrawAsset)
    requires
        withdraw_arg.lp_share_amount == 0 || withdraw_arg.mint_supply == 0,
    ensures
        spec_calculate_token(withdraw_arg) == Err::<u64, AMMError>(AMMError::AmountZero),
{
}

} // verus!
