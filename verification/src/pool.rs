use crate::error::AMMError;
use crate::helper::{
    lemma_swap_amount_bounded, spec_calculate_liquidity, spec_calculate_token, spec_swap_token,
    LiquidityPool, SwapToken, WithdrawAsset,
};
use crate::math::{
    lemma_rounded_sqrt_bounds, lemma_rounded_sqrt_exists, lemma_u64_mul_fits_u128, rounded_sqrt,
};
use vstd::arithmetic::div_mod::{lemma_div_by_multiple, lemma_div_pos_is_pos, lemma_multiply_divide_le};
use vstd::prelude::*;

verus! {

// The pool-level transitions.  Each one runs an engine on a snapshot of the
// reserves and, on success, applies exactly the movements the engine priced:
// the reserves and the share supply change together or not at all, mirroring
// how a host applies transfers, mints and burns only after a successful
// quote.

/// A snapshot of the pool state: the two reserves and the minted
/// liquidity-share supply.
#[derive(Clone, Copy, Debug, PartialEq, Eq, Structural)]
pub struct PoolReserves {
    pub reserve_a: u64,
    pub reserve_b: u64,
    pub lp_supply: u64,
}

/// The deposit request an engine sees for a pool snapshot.
pub open spec fn spec_deposit_request(p: PoolReserves, amount_a: u64, amount_b: u64) -> LiquidityPool {
    LiquidityPool {
        total_amount_a: p.reserve_a,
        total_amount_b: p.reserve_b,
        deposit_amount_a: amount_a,
        deposit_amount_b: amount_b,
        mint_supply: p.lp_supply,
    }
}

/// The deposit transition: price the deposit, then move both amounts into
/// the reserves and mint the priced shares.  A share supply that would leave
/// 64 bits is rejected with `Overflow`, and a failed deposit changes nothing.
pub open spec fn spec_pool_deposite(p: PoolReserves, amount_a: u64, amount_b: u64) -> Result<
    (PoolReserves, u64),
    AMMError,
> {
    match spec_calculate_liquidity(spec_deposit_request(p, amount_a, amount_b)) {
        Ok(minted) => {
            if p.lp_supply + minted > u64::MAX {
                Err(AMMError::Overflow)
            } else {
                Ok(
                    (
                        PoolReserves {
                            reserve_a: (p.reserve_a + amount_a) as u64,
                            reserve_b: (p.reserve_b + amount_b) as u64,
                            lp_supply: (p.lp_supply + minted) as u64,
                        },
                        minted,
                    ),
                )
            }
        },
        Err(e) => Err(e),
    }
}

/// The swap request an engine sees for a pool snapshot.
pub open spec fn spec_swap_request(p: PoolReserves, is_a: bool, amount: u64) -> SwapToken {
    SwapToken {
        is_a: is_a,
        deposit_amount: amount,
        total_amount_a: p.reserve_a,
        total_amount_b: p.reserve_b,
    }
}

/// The swap transition: quote the output, reject a quote below the caller's
/// guaranteed minimum with `SlippageLimitExceeded`, otherwise move the input
/// amount into its reserve and the output amount out of the other.  The
/// share supply never changes, and a failed swap changes nothing.
pub open spec fn spec_pool_swap(p: PoolReserves, is_a: bool, amount: u64, min_slippage: u64) -> Result<
    (PoolReserves, u64),
    AMMError,
> {
    match spec_swap_token(spec_swap_request(p, is_a, amount)) {
        Ok(send_amount) => {
            if min_slippage > send_amount {
                Err(AMMError::SlippageLimitExceeded)
            } else if is_a {
                Ok(
                    (
                        PoolReserves {
                            reserve_a: (p.reserve_a + amount) as u64,
                            reserve_b: (p.reserve_b - send_amount) as u64,
                            lp_supply: p.lp_supply,
                        },
                        send_amount,
                    ),
                )
            } else {
                Ok(
                    (
                        PoolReserves {
                            reserve_a: (p.reserve_a - send_amount) as u64,
                            reserve_b: (p.reserve_b + amount) as u64,
                            lp_supply: p.lp_supply,
                        },
                        send_amount,
                    ),
                )
            }
        },
        Err(e) => Err(e),
    }
}

/// The withdrawal transition: price both sides, then pay both amounts out of
/// the reserves and burn the redeemed shares.  Redeeming more shares than
/// the supply holds would drive the burn below zero and is rejected with
/// `Overflow`; a failed withdrawal changes nothing.
pub open spec fn spec_pool_withdraw(p: PoolReserves, lp_amount: u64) -> Result<
    (PoolReserves, (u64, u64)),
    AMMError,
> {
    match spec_calculate_token(
        WithdrawAsset {
            mint_supply: p.lp_supply,
            lp_share_amount: lp_amount,
            total_amount_vault: p.reserve_a,
        },
    ) {
        Ok(amount_a) => match spec_calculate_token(
            WithdrawAsset {
                mint_supply: p.lp_supply,
                lp_share_amount: lp_amount,
                total_amount_vault: p.reserve_b,
            },
        ) {
            Ok(amount_b) => {
                if lp_amount > p.lp_supply {
                    Err(AMMError::Overflow)
                } else {
                    Ok(
                        (
                            PoolReserves {
                                reserve_a: (p.reserve_a - amount_a) as u64,
                                reserve_b: (p.reserve_b - amount_b) as u64,
                                lp_supply: (p.lp_supply - lp_amount) as u64,
                            },
                            (amount_a, amount_b),
                        ),
                    )
                }
            },
            Err(e) => Err(e),
        },
        Err(e) => Err(e),
    }
}

impl PoolReserves {
    /// Deposits both amounts, returning the minted share amount.  On any
    /// failure the snapshot is unchanged.
    pub fn deposite(&mut self, amount_a: u64, amount_b: u64) -> (r: Result<u64, AMMError>)
        ensures
            match r {
                Ok(minted) => spec_pool_deposite(*old(self), amount_a, amount_b) == Ok::<
                    (PoolReserves, u64),
                    AMMError,
                >((*final(self), minted)),
                Err(e) => spec_pool_deposite(*old(self), amount_a, amount_b) == Err::<
                    (PoolReserves, u64),
                    AMMError,
                >(e) && *final(self) == *old(self),
            },
    {
        let request = LiquidityPool {
            total_amount_a: self.reserve_a,
            total_amount_b: self.reserve_b,
            deposit_amount_a: amount_a,
            deposit_amount_b: amount_b,
            mint_supply: self.lp_supply,
        };
        let minted = match LiquidityPool::calculate_liquidity(request) {
            Ok(m) => m,
            Err(e) => {
                return Err(e);
            },
        };
        if (self.lp_supply as u128) + (minted as u128) > u64::MAX as u128 {
            return Err(AMMError::Overflow);
        }
        self.reserve_a = self.reserve_a + amount_a;
        self.reserve_b = self.reserve_b + amount_b;
        self.lp_supply = self.lp_supply + minted;
        Ok(minted)
    }

    /// Swaps `amount` of the in-side asset (`is_a` pays asset A in) against
    /// the pool, returning the amount paid out.  On any failure the snapshot
    /// is unchanged.
    pub fn swap(&mut self, is_a: bool, amount: u64, min_slippage: u64) -> (r: Result<u64, AMMError>)
        ensures
            match r {
                Ok(send_amount) => spec_pool_swap(*old(self), is_a, amount, min_slippage) == Ok::<
                    (PoolReserves, u64),
                    AMMError,
                >((*final(self), send_amount)),
                Err(e) => spec_pool_swap(*old(self), is_a, amount, min_slippage) == Err::<
                    (PoolReserves, u64),
                    AMMError,
                >(e) && *final(self) == *old(self),
            },
    {
        let request = SwapToken {
            is_a: is_a,
            deposit_amount: amount,
            total_amount_a: self.reserve_a,
            total_amount_b: self.reserve_b,
        };
        let send_amount = match SwapToken::swap_token(request) {
            Ok(v) => v,
            Err(e) => {
                return Err(e);
            },
        };
        if min_slippage > send_amount {
            return Err(AMMError::SlippageLimitExceeded);
        }
        proof {
            if is_a {
                lemma_swap_amount_bounded(
                    self.reserve_b as int,
                    self.reserve_a as int,
                    amount as int,
                );
            } else {
                lemma_swap_amount_bounded(
                    self.reserve_a as int,
                    self.reserve_b as int,
                    amount as int,
                );
            }
        }
        if is_a {
            self.reserve_a = self.reserve_a + amount;
            self.reserve_b = self.reserve_b - send_amount;
        } else {
            self.reserve_a = self.reserve_a - send_amount;
            self.reserve_b = self.reserve_b + amount;
        }
        Ok(send_amount)
    }

    /// Redeems `lp_amount` shares, returning the token amounts paid out for
    /// the two assets.  On any failure the snapshot is unchanged.
    pub fn withdraw(&mut self, lp_amount: u64) -> (r: Result<(u64, u64), AMMError>)
        ensures
            match r {
                Ok(amounts) => spec_pool_withdraw(*old(self), lp_amount) == Ok::<
                    (PoolReserves, (u64, u64)),
                    AMMError,
                >((*final(self), amounts)),
                Err(e) => spec_pool_withdraw(*old(self), lp_amount) == Err::<
                    (PoolReserves, (u64, u64)),
                    AMMError,
                >(e) && *final(self) == *old(self),
            },
    {
        let amount_a = match WithdrawAsset::calculate_token(
            WithdrawAsset {
                mint_supply: self.lp_supply,
                lp_share_amount: lp_amount,
                total_amount_vault: self.reserve_a,
            },
        ) {
            Ok(v) => v,
            Err(e) => {
                return Err(e);
            },
        };
        let amount_b = match WithdrawAsset::calculate_token(
            WithdrawAsset {
                mint_supply: self.lp_supply,
                lp_share_amount: lp_amount,
                total_amount_vault: self.reserve_b,
            },
        ) {
            Ok(v) => v,
            Err(e) => {
                return Err(e);
            },
        };
        if lp_amount > self.lp_supply {
            return Err(AMMError::Overflow);
        }
        proof {
            lemma_withdraw_amount_within_reserve(self.reserve_a, lp_amount, self.lp_supply);
            lemma_withdraw_amount_within_reserve(self.reserve_b, lp_amount, self.lp_supply);
        }
        self.reserve_a = self.reserve_a - amount_a;
        self.reserve_b = self.reserve_b - amount_b;
        self.lp_supply = self.lp_supply - lp_amount;
        Ok((amount_a, amount_b))
    }
}

/// A withdrawal of at most the whole supply never pays out more than the
/// reserve it draws from.
proof fn lemma_withdraw_amount_within_reserve(vault: u64, share: u64, s: u64)
    requires
        0 < s,
        share <= s,
    ensures
        0 <= (vault as int) * (share as int) / (s as int) <= vault as int,
{
    lemma_u64_mul_fits_u128(vault, share);
    lemma_div_pos_is_pos((vault as int) * (share as int), s as int);
    assert((vault as int) * (share as int) <= (s as int) * (vault as int)) by (nonlinear_arith)
        requires
            share <= s,
            0 <= vault,
    ;
    lemma_multiply_divide_le((vault as int) * (share as int), s as int, vault as int);
}

/// A successful deposit into a non-empty pool keeps the reserve ratio
/// exactly: the post-deposit reserves are in the same proportion as the
/// pre-deposit reserves, stated by cross-multiplication.
pub proof fn lemma_deposite_preserves_ratio(p: PoolReserves, amount_a: u64, amount_b: u64)
    requires
        !(p.lp_supply == 0 && p.reserve_a == 0 && p.reserve_b == 0),
        spec_pool_deposite(p, amount_a, amount_b) is Ok,
    ensures
        ({
            let q = spec_pool_deposite(p, amount_a, amount_b)->Ok_0.0;
            (q.reserve_a as int) * (p.reserve_b as int) == (p.reserve_a as int) * (q.reserve_b
                as int)
        }),
{
    let a = p.reserve_a as int;
    let b = p.reserve_b as int;
    let da = amount_a as int;
    let db = amount_b as int;
    assert((a + da) * b == a * (b + db)) by (nonlinear_arith)
        requires
            a * db == b * da,
    ;
}

/// Depositing into an empty pool and then redeeming every minted share
/// returns exactly the deposited amounts and leaves the pool empty again.
pub proof fn lemma_bootstrap_withdraw_round_trip(x: u64, y: u64)
    requires
        1 <= x,
        1 <= y,
        x * y <= u64::MAX,
    ensures
        ({
            let empty = (PoolReserves { reserve_a: 0, reserve_b: 0, lp_supply: 0 });
            &&& spec_pool_deposite(empty, x, y) is Ok
            &&& ({
                let (p1, minted) = spec_pool_deposite(empty, x, y)->Ok_0;
                spec_pool_withdraw(p1, minted) == Ok::<
                    (PoolReserves, (u64, u64)),
                    AMMError,
                >((empty, (x, y)))
            })
        }),
{
    let empty = (PoolReserves { reserve_a: 0, reserve_b: 0, lp_supply: 0 });
    lemma_u64_mul_fits_u128(x, y);
    assert(1 <= (x as int) * (y as int)) by (nonlinear_arith)
        requires
            1 <= x,
            1 <= y,
    ;
    lemma_rounded_sqrt_exists(x * y);
    lemma_rounded_sqrt_bounds(x * y);
    let m = rounded_sqrt(x * y);
    assert(spec_pool_deposite(empty, x, y) == Ok::<(PoolReserves, u64), AMMError>(
        ((PoolReserves { reserve_a: x, reserve_b: y, lp_supply: m as u64 }), m as u64),
    ));
    let p1 = (PoolReserves { reserve_a: x, reserve_b: y, lp_supply: m as u64 });
    lemma_div_by_multiple(x as int, m);
    lemma_div_by_multiple(y as int, m);
    assert((x as int) * m / m == x as int);
    assert((y as int) * m / m == y as int);
}

} // verus!
