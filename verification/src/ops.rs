//! The two operations over a pool: exchanging one asset for the other,
//! and redeeming ownership shares for a slice of both reserves.
//!
//! Each operation validates every precondition and the caller's declared
//! bound before touching the pool, then applies the whole effect at once;
//! a failed operation leaves the pool exactly as it was. The returned
//! outcome names the balance movements the custody layer must issue, each
//! of which it performs atomically.

use vstd::prelude::*;

use crate::curve::{
    lemma_fee_in_range, lemma_share_of_part_strict, lemma_share_of_whole, quote_swap,
    quote_withdraw, spec_amount_out, spec_fee, spec_share_of,
};
use crate::errors::AmmError;
use crate::pool::PoolState;

verus! {

/// The effect of a successful swap: deposit `amount_in` of the inbound
/// asset into the pool's inbound vault (the fee stays inside it), and pay
/// `amount_out` of the other asset from the outbound vault.
#[derive(Clone, Copy, Debug, PartialEq, Eq, Structural)]
pub struct SwapOutcome {
    /// True when the caller supplies asset X and receives asset Y.
    pub in_is_x: bool,
    /// What the caller deposits into the inbound vault, fee included.
    pub amount_in: u64,
    /// What the outbound vault pays the caller.
    pub amount_out: u64,
    /// The part of `amount_in` retained by the pool for the share holders.
    pub fee_charged: u64,
}

/// The effect of a successful withdrawal: burn `shares_burned` ownership
/// shares and pay the caller `amount_x` and `amount_y` from the vaults.
#[derive(Clone, Copy, Debug, PartialEq, Eq, Structural)]
pub struct WithdrawOutcome {
    pub amount_x: u64,
    pub amount_y: u64,
    pub shares_burned: u64,
}

impl PoolState {
    /// Exchange `amount_in` of one asset for the other, depositing the
    /// whole input (fee included) and paying out what the curve quotes,
    /// provided the quote reaches `min_amount_out`. Nothing moves and
    /// nothing changes unless every check passes.
    pub fn swap(&mut self, in_is_x: bool, amount_in: u64, min_amount_out: u64) -> (r: Result<
        SwapOutcome,
        AmmError,
    >)
        requires
            old(self).wf(),
        ensures
            final(self).wf(),
            match r {
                Ok(o) => {
                    let rin = old(self).spec_reserve_in(in_is_x);
                    let rout = old(self).spec_reserve_out(in_is_x);
                    let bps = old(self).fee_rate_bps as int;
                    &&& !old(self).locked
                    &&& amount_in > 0
                    &&& rin > 0
                    &&& rout > 0
                    &&& rin + amount_in <= u64::MAX
                    &&& o.in_is_x == in_is_x
                    &&& o.amount_in == amount_in
                    &&& o.fee_charged == spec_fee(amount_in as int, bps)
                    &&& o.amount_out == spec_amount_out(rin, rout, bps, amount_in as int)
                    &&& o.amount_out >= min_amount_out
                    &&& final(self).spec_reserve_in(in_is_x) == rin + amount_in
                    &&& final(self).spec_reserve_out(in_is_x) == rout - o.amount_out
                    &&& final(self).share_supply == old(self).share_supply
                    &&& final(self).fee_rate_bps == old(self).fee_rate_bps
                    &&& final(self).locked == old(self).locked
                },
                Err(e) => {
                    let rin = old(self).spec_reserve_in(in_is_x);
                    let rout = old(self).spec_reserve_out(in_is_x);
                    &&& *final(self) == *old(self)
                    &&& match e {
                        AmmError::PoolLocked => old(self).locked,
                        AmmError::InvalidAmount => !old(self).locked && amount_in == 0,
                        AmmError::NoLiquidityInPool => {
                            &&& !old(self).locked
                            &&& amount_in > 0
                            &&& (rin == 0 || rout == 0)
                        },
                        AmmError::Overflow => {
                            &&& !old(self).locked
                            &&& amount_in > 0
                            &&& rin > 0
                            &&& rout > 0
                            &&& rin + amount_in > u64::MAX
                        },
                        AmmError::SlippageExceeded => {
                            &&& !old(self).locked
                            &&& amount_in > 0
                            &&& rin > 0
                            &&& rout > 0
                            &&& rin + amount_in <= u64::MAX
                            &&& spec_amount_out(
                                rin,
                                rout,
                                old(self).fee_rate_bps as int,
                                amount_in as int,
                            ) < min_amount_out
                        },
                        AmmError::InsufficientShares => false,
                    }
                },
            },
    {
        if self.locked {
            return Err(AmmError::PoolLocked);
        }
        let reserve_in = if in_is_x {
            self.reserve_x
        } else {
            self.reserve_y
        };
        let reserve_out = if in_is_x {
            self.reserve_y
        } else {
            self.reserve_x
        };
        let quote = match quote_swap(reserve_in, reserve_out, self.fee_rate_bps, amount_in) {
            Ok(q) => q,
            Err(e) => {
                proof {
                    lemma_fee_in_range(amount_in as int, self.fee_rate_bps as int);
                }
                return Err(e);
            },
        };
        if amount_in > u64::MAX - reserve_in {
            return Err(AmmError::Overflow);
        }
        if quote.amount_out < min_amount_out {
            return Err(AmmError::SlippageExceeded);
        }
        if in_is_x {
            self.reserve_x = self.reserve_x + amount_in;
            self.reserve_y = self.reserve_y - quote.amount_out;
        } else {
            self.reserve_y = self.reserve_y + amount_in;
            self.reserve_x = self.reserve_x - quote.amount_out;
        }
        Ok(
            SwapOutcome {
                in_is_x,
                amount_in,
                amount_out: quote.amount_out,
                fee_charged: quote.fee_charged,
            },
        )
    }

    /// Redeem `shares_burned` ownership shares for the proportional slice
    /// of both reserves. The quoted amounts must each stay within the
    /// caller's declared bounds `min_x` and `min_y` (computed amount at
    /// most the bound), or the operation fails `SlippageExceeded`. Nothing
    /// moves and nothing changes unless every check passes.
    pub fn withdraw(&mut self, shares_burned: u64, min_x: u64, min_y: u64) -> (r: Result<
        WithdrawOutcome,
        AmmError,
    >)
        requires
            old(self).wf(),
        ensures
            final(self).wf(),
            match r {
                Ok(o) => {
                    let rx = old(self).reserve_x as int;
                    let ry = old(self).reserve_y as int;
                    let supply = old(self).share_supply as int;
                    &&& !old(self).locked
                    &&& 0 < shares_burned <= supply
                    &&& o.shares_burned == shares_burned
                    &&& o.amount_x == spec_share_of(rx, shares_burned as int, supply)
                    &&& o.amount_y == spec_share_of(ry, shares_burned as int, supply)
                    &&& o.amount_x <= min_x
                    &&& o.amount_y <= min_y
                    &&& final(self).reserve_x == rx - o.amount_x
                    &&& final(self).reserve_y == ry - o.amount_y
                    &&& final(self).share_supply == supply - shares_burned
                    &&& final(self).fee_rate_bps == old(self).fee_rate_bps
                    &&& final(self).locked == old(self).locked
                },
                Err(e) => {
                    let rx = old(self).reserve_x as int;
                    let ry = old(self).reserve_y as int;
                    let supply = old(self).share_supply as int;
                    &&& *final(self) == *old(self)
                    &&& match e {
                        AmmError::PoolLocked => old(self).locked,
                        AmmError::InvalidAmount => !old(self).locked && shares_burned == 0,
                        AmmError::NoLiquidityInPool => {
                            &&& !old(self).locked
                            &&& shares_burned > 0
                            &&& supply == 0
                        },
                        AmmError::InsufficientShares => {
                            &&& !old(self).locked
                            &&& 0 < supply < shares_burned
                        },
                        AmmError::SlippageExceeded => {
                            &&& !old(self).locked
                            &&& 0 < shares_burned <= supply
                            &&& !(spec_share_of(rx, shares_burned as int, supply) <= min_x
                                && spec_share_of(ry, shares_burned as int, supply) <= min_y)
                        },
                        AmmError::Overflow => false,
                    }
                },
            },
    {
        if self.locked {
            return Err(AmmError::PoolLocked);
        }
        if shares_burned == 0 {
            return Err(AmmError::InvalidAmount);
        }
        let quote = match quote_withdraw(
            self.reserve_x,
            self.reserve_y,
            self.share_supply,
            shares_burned,
        ) {
            Ok(q) => q,
            Err(e) => {
                return Err(e);
            },
        };
        if !(quote.amount_x <= min_x && quote.amount_y <= min_y) {
            return Err(AmmError::SlippageExceeded);
        }
        proof {
            let rx = self.reserve_x as int;
            let ry = self.reserve_y as int;
            let supply = self.share_supply as int;
            if shares_burned < self.share_supply {
                if self.reserve_x > 0 {
                    lemma_share_of_part_strict(rx, shares_burned as int, supply);
                }
                if self.reserve_y > 0 {
                    lemma_share_of_part_strict(ry, shares_burned as int, supply);
                }
            } else {
                lemma_share_of_whole(rx, supply);
                lemma_share_of_whole(ry, supply);
            }
        }
        self.reserve_x = self.reserve_x - quote.amount_x;
        self.reserve_y = self.reserve_y - quote.amount_y;
        self.share_supply = self.share_supply - shares_burned;
        Ok(WithdrawOutcome { amount_x: quote.amount_x, amount_y: quote.amount_y, shares_burned })
    }
}

} // verus!
