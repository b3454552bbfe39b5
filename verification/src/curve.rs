//! The curve engine: pure constant-product exchange math.
//!
//! Every multiply-before-divide sequence runs in a 128-bit domain so that
//! no intermediate product of two 64-bit operands can overflow, and floor
//! truncation is applied only on the final division.

use vstd::arithmetic::div_mod::{
    lemma_div_is_ordered, lemma_div_is_ordered_by_denominator, lemma_div_multiples_vanish,
    lemma_div_pos_is_pos,
};
use vstd::arithmetic::mul::{lemma_mul_inequality, lemma_mul_is_commutative};
use vstd::prelude::*;

use crate::errors::AmmError;

verus! {

/// The fee withheld from a swap input: `floor(amount_in * fee_rate_bps / 10000)`.
pub open spec fn spec_fee(amount_in: int, fee_rate_bps: int) -> int {
    amount_in * fee_rate_bps / 10000
}

/// The portion of the input that takes part in the invariant computation,
/// after the fee is deducted.
pub open spec fn spec_adjusted_in(amount_in: int, fee_rate_bps: int) -> int {
    amount_in - spec_fee(amount_in, fee_rate_bps)
}

/// The inbound reserve as the invariant computation sees it: the old
/// reserve plus the fee-adjusted input.
pub open spec fn spec_new_reserve_in(reserve_in: int, fee_rate_bps: int, amount_in: int) -> int {
    reserve_in + spec_adjusted_in(amount_in, fee_rate_bps)
}

/// The outbound reserve that keeps the product constant, floored:
/// `floor(reserve_in * reserve_out / new_reserve_in)`.
pub open spec fn spec_new_reserve_out(
    reserve_in: int,
    reserve_out: int,
    fee_rate_bps: int,
    amount_in: int,
) -> int {
    (reserve_in * reserve_out) / spec_new_reserve_in(reserve_in, fee_rate_bps, amount_in)
}

/// What a swap pays out: the drop of the outbound reserve.
pub open spec fn spec_amount_out(
    reserve_in: int,
    reserve_out: int,
    fee_rate_bps: int,
    amount_in: int,
) -> int {
    reserve_out - spec_new_reserve_out(reserve_in, reserve_out, fee_rate_bps, amount_in)
}

/// The proportional slice of one reserve that a burn of `shares_burned`
/// out of `share_supply` redeems: `floor(reserve * shares_burned / share_supply)`.
pub open spec fn spec_share_of(reserve: int, shares_burned: int, share_supply: int) -> int {
    reserve * shares_burned / share_supply
}

/// What a swap quote returns: the payout and the fee retained by the pool.
#[derive(Clone, Copy, Debug, PartialEq, Eq, Structural)]
pub struct SwapQuote {
    pub amount_out: u64,
    pub fee_charged: u64,
}

/// What a withdrawal quote returns: the slice of each reserve redeemed.
#[derive(Clone, Copy, Debug, PartialEq, Eq, Structural)]
pub struct WithdrawQuote {
    pub amount_x: u64,
    pub amount_y: u64,
}

/// The product of two 64-bit values always fits the widened 128-bit domain.
proof fn lemma_wide_product_fits(x: int, y: int)
    requires
        0 <= x <= u64::MAX,
        0 <= y <= u64::MAX,
    ensures
        0 <= x * y <= u128::MAX,
{
    vstd::arithmetic::mul::lemma_mul_upper_bound(x, u64::MAX as int, y, u64::MAX as int);
    vstd::arithmetic::mul::lemma_mul_nonnegative(x, y);
    assert(u64::MAX as int * u64::MAX as int <= u128::MAX as int) by (nonlinear_arith);
}

/// The fee never exceeds the amount it is charged on, and is never negative.
pub proof fn lemma_fee_in_range(amount_in: int, fee_rate_bps: int)
    requires
        0 <= amount_in,
        0 <= fee_rate_bps <= 10000,
    ensures
        0 <= spec_fee(amount_in, fee_rate_bps) <= amount_in,
{
    lemma_mul_inequality(fee_rate_bps, 10000, amount_in);
    lemma_mul_is_commutative(fee_rate_bps, amount_in);
    lemma_mul_is_commutative(10000, amount_in);
    assert(amount_in * fee_rate_bps <= amount_in * 10000);
    lemma_div_is_ordered(amount_in * fee_rate_bps, amount_in * 10000, 10000);
    lemma_div_multiples_vanish(amount_in, 10000);
    assert(amount_in * 10000 == 10000 * amount_in);
    assert(amount_in * 10000 / 10000 == amount_in);
    vstd::arithmetic::mul::lemma_mul_nonnegative(amount_in, fee_rate_bps);
    lemma_div_pos_is_pos(amount_in * fee_rate_bps, 10000);
}

/// The floored out-reserve stays between zero and the old out-reserve, so
/// the payout does too.
pub proof fn lemma_new_reserve_out_in_range(
    reserve_in: int,
    reserve_out: int,
    fee_rate_bps: int,
    amount_in: int,
)
    requires
        0 < reserve_in,
        0 <= reserve_out,
        0 <= fee_rate_bps <= 10000,
        0 < amount_in,
    ensures
        0 <= spec_new_reserve_out(reserve_in, reserve_out, fee_rate_bps, amount_in) <= reserve_out,
        0 <= spec_amount_out(reserve_in, reserve_out, fee_rate_bps, amount_in) <= reserve_out,
{
    lemma_fee_in_range(amount_in, fee_rate_bps);
    let n = spec_new_reserve_in(reserve_in, fee_rate_bps, amount_in);
    let k = reserve_in * reserve_out;
    vstd::arithmetic::mul::lemma_mul_nonnegative(reserve_in, reserve_out);
    lemma_div_is_ordered_by_denominator(k, reserve_in, n);
    lemma_div_multiples_vanish(reserve_out, reserve_in);
    lemma_div_pos_is_pos(k, n);
}

/// Quote a swap against the constant-product invariant. The fee is
/// deducted from the input before the invariant computation and stays in
/// the pool; the out-reserve that keeps the product constant is floored,
/// and the payout is what the outbound reserve drops by. Success exactly
/// when the input is positive, both reserves are positive, and the new
/// inbound reserve still fits 64 bits.
pub fn quote_swap(reserve_in: u64, reserve_out: u64, fee_rate_bps: u16, amount_in: u64) -> (r:
    Result<SwapQuote, AmmError>)
    requires
        fee_rate_bps <= 10000,
    ensures
        match r {
            Ok(q) => {
                &&& amount_in > 0
                &&& reserve_in > 0
                &&& reserve_out > 0
                &&& spec_new_reserve_in(reserve_in as int, fee_rate_bps as int, amount_in as int)
                    <= u64::MAX
                &&& q.fee_charged == spec_fee(amount_in as int, fee_rate_bps as int)
                &&& q.amount_out == spec_amount_out(
                    reserve_in as int,
                    reserve_out as int,
                    fee_rate_bps as int,
                    amount_in as int,
                )
                &&& q.fee_charged <= amount_in
                &&& q.amount_out <= reserve_out
            },
            Err(e) => match e {
                AmmError::InvalidAmount => amount_in == 0,
                AmmError::NoLiquidityInPool => amount_in > 0 && (reserve_in == 0 || reserve_out
                    == 0),
                AmmError::Overflow => {
                    &&& amount_in > 0
                    &&& reserve_in > 0
                    &&& reserve_out > 0
                    &&& spec_new_reserve_in(
                        reserve_in as int,
                        fee_rate_bps as int,
                        amount_in as int,
                    ) > u64::MAX
                },
                _ => false,
            },
        },
{
    if amount_in == 0 {
        return Err(AmmError::InvalidAmount);
    }
    if reserve_in == 0 || reserve_out == 0 {
        return Err(AmmError::NoLiquidityInPool);
    }
    proof {
        lemma_wide_product_fits(amount_in as int, fee_rate_bps as int);
        lemma_fee_in_range(amount_in as int, fee_rate_bps as int);
    }
    let fee_wide: u128 = (amount_in as u128) * (fee_rate_bps as u128) / 10000;
    let fee: u64 = fee_wide as u64;
    let adjusted_in: u64 = amount_in - fee;
    let new_reserve_in_wide: u128 = (reserve_in as u128) + (adjusted_in as u128);
    if new_reserve_in_wide > (u64::MAX as u128) {
        return Err(AmmError::Overflow);
    }
    proof {
        lemma_wide_product_fits(reserve_in as int, reserve_out as int);
        lemma_new_reserve_out_in_range(
            reserve_in as int,
            reserve_out as int,
            fee_rate_bps as int,
            amount_in as int,
        );
    }
    let k: u128 = (reserve_in as u128) * (reserve_out as u128);
    let new_reserve_out_wide: u128 = k / new_reserve_in_wide;
    let amount_out: u64 = ((reserve_out as u128) - new_reserve_out_wide) as u64;
    Ok(SwapQuote { amount_out, fee_charged: fee })
}

/// Quote a proportional withdrawal: burning `shares_burned` out of
/// `share_supply` redeems `floor(reserve * shares_burned / share_supply)`
/// of each reserve, each computed by multiplying before dividing in a
/// widened domain. Success exactly when the supply is positive and
/// `0 < shares_burned <= share_supply`.
pub fn quote_withdraw(
    reserve_x: u64,
    reserve_y: u64,
    share_supply: u64,
    shares_burned: u64,
) -> (r: Result<WithdrawQuote, AmmError>)
    ensures
        match r {
            Ok(q) => {
                &&& share_supply > 0
                &&& 0 < shares_burned <= share_supply
                &&& q.amount_x == spec_share_of(
                    reserve_x as int,
                    shares_burned as int,
                    share_supply as int,
                )
                &&& q.amount_y == spec_share_of(
                    reserve_y as int,
                    shares_burned as int,
                    share_supply as int,
                )
                &&& q.amount_x <= reserve_x
                &&& q.amount_y <= reserve_y
            },
            Err(e) => match e {
                AmmError::NoLiquidityInPool => share_supply == 0,
                AmmError::InvalidAmount => share_supply > 0 && shares_burned == 0,
                AmmError::InsufficientShares => 0 < share_supply < shares_burned,
                _ => false,
            },
        },
{
    if share_supply == 0 {
        return Err(AmmError::NoLiquidityInPool);
    }
    if shares_burned == 0 {
        return Err(AmmError::InvalidAmount);
    }
    if shares_burned > share_supply {
        return Err(AmmError::InsufficientShares);
    }
    proof {
        lemma_wide_product_fits(reserve_x as int, shares_burned as int);
        lemma_wide_product_fits(reserve_y as int, shares_burned as int);
        lemma_share_le_reserve(reserve_x as int, shares_burned as int, share_supply as int);
        lemma_share_le_reserve(reserve_y as int, shares_burned as int, share_supply as int);
    }
    let amount_x_wide: u128 = (reserve_x as u128) * (shares_burned as u128) / (share_supply as u128);
    let amount_y_wide: u128 = (reserve_y as u128) * (shares_burned as u128) / (share_supply as u128);
    Ok(WithdrawQuote { amount_x: amount_x_wide as u64, amount_y: amount_y_wide as u64 })
}

/// A burn of at most the whole supply redeems at most the whole reserve,
/// and never a negative amount.
pub proof fn lemma_share_le_reserve(reserve: int, shares_burned: int, share_supply: int)
    requires
        0 <= reserve,
        0 <= shares_burned <= share_supply,
        0 < share_supply,
    ensures
        0 <= spec_share_of(reserve, shares_burned, share_supply) <= reserve,
{
    lemma_mul_inequality(shares_burned, share_supply, reserve);
    lemma_mul_is_commutative(shares_burned, reserve);
    lemma_mul_is_commutative(share_supply, reserve);
    assert(reserve * shares_burned <= reserve * share_supply);
    lemma_div_is_ordered(reserve * shares_burned, reserve * share_supply, share_supply);
    lemma_div_multiples_vanish(reserve, share_supply);
    assert(reserve * share_supply == share_supply * reserve);
    assert(reserve * share_supply / share_supply == reserve);
    vstd::arithmetic::mul::lemma_mul_nonnegative(reserve, shares_burned);
    lemma_div_pos_is_pos(reserve * shares_burned, share_supply);
}

/// Burning the whole supply redeems the whole reserve, exactly.
pub proof fn lemma_share_of_whole(reserve: int, share_supply: int)
    requires
        0 <= reserve,
        0 < share_supply,
    ensures
        spec_share_of(reserve, share_supply, share_supply) == reserve,
{
    vstd::arithmetic::div_mod::lemma_div_by_multiple(reserve, share_supply);
}

/// Burning strictly less than the whole supply leaves part of a positive
/// reserve behind: floor rounding favors the remaining pool.
pub proof fn lemma_share_of_part_strict(reserve: int, shares_burned: int, share_supply: int)
    requires
        0 < reserve,
        0 <= shares_burned < share_supply,
    ensures
        spec_share_of(reserve, shares_burned, share_supply) < reserve,
{
    vstd::arithmetic::mul::lemma_mul_strict_inequality(shares_burned, share_supply, reserve);
    lemma_mul_is_commutative(shares_burned, reserve);
    lemma_mul_is_commutative(share_supply, reserve);
    vstd::arithmetic::div_mod::lemma_multiply_divide_lt(
        reserve * shares_burned,
        share_supply,
        reserve,
    );
}

} // verus!
