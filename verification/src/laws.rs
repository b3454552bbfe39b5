//! Laws of the curve engine: facts that relate whole swaps to each other
//! rather than to their own definitions.

use vstd::arithmetic::div_mod::{
    lemma_div_by_multiple, lemma_div_is_ordered, lemma_div_is_ordered_by_denominator,
    lemma_div_pos_is_pos, lemma_fundamental_div_mod, lemma_hoist_over_denominator,
    lemma_mod_division_less_than_divisor,
};
use vstd::arithmetic::mul::{
    lemma_mul_inequality, lemma_mul_is_commutative, lemma_mul_nonnegative,
};
use vstd::prelude::*;

use crate::curve::{
    lemma_fee_in_range, spec_amount_out, spec_fee, spec_new_reserve_in, spec_new_reserve_out,
};

verus! {

/// A swap whose widened division is exact destroys no pool value: the
/// computed reserves keep the reserve product exactly, and the vault
/// balances the pool actually ends up with — which also retain the fee —
/// keep at least it. (When the division is not exact, flooring the new
/// out-reserve rounds the payout up, and the product can drop below the
/// old one.)
pub proof fn lemma_swap_preserves_product(
    reserve_in: int,
    reserve_out: int,
    fee_rate_bps: int,
    amount_in: int,
)
    requires
        0 < reserve_in,
        0 <= reserve_out,
        0 <= fee_rate_bps <= 10000,
        0 < amount_in,
        (reserve_in * reserve_out) % spec_new_reserve_in(reserve_in, fee_rate_bps, amount_in)
            == 0,
    ensures
        spec_new_reserve_in(reserve_in, fee_rate_bps, amount_in) * spec_new_reserve_out(
            reserve_in,
            reserve_out,
            fee_rate_bps,
            amount_in,
        ) == reserve_in * reserve_out,
        (reserve_in + amount_in) * (reserve_out - spec_amount_out(
            reserve_in,
            reserve_out,
            fee_rate_bps,
            amount_in,
        )) >= reserve_in * reserve_out,
{
    lemma_fee_in_range(amount_in, fee_rate_bps);
    let n = spec_new_reserve_in(reserve_in, fee_rate_bps, amount_in);
    let k = reserve_in * reserve_out;
    let q = spec_new_reserve_out(reserve_in, reserve_out, fee_rate_bps, amount_in);
    lemma_mul_nonnegative(reserve_in, reserve_out);
    lemma_fundamental_div_mod(k, n);
    assert(n * q == k);
    lemma_div_pos_is_pos(k, n);
    lemma_mul_inequality(n, reserve_in + amount_in, q);
    lemma_mul_is_commutative(n, q);
    lemma_mul_is_commutative(reserve_in + amount_in, q);
}

/// For every valid swap, rounding costs the pool less than one unit of
/// the out-reserve: one more unit on the out side would already push the
/// vault product strictly above the old reserve product.
pub proof fn lemma_swap_product_within_rounding(
    reserve_in: int,
    reserve_out: int,
    fee_rate_bps: int,
    amount_in: int,
)
    requires
        0 < reserve_in,
        0 <= reserve_out,
        0 <= fee_rate_bps <= 10000,
        0 < amount_in,
    ensures
        (reserve_in + amount_in) * (reserve_out - spec_amount_out(
            reserve_in,
            reserve_out,
            fee_rate_bps,
            amount_in,
        ) + 1) > reserve_in * reserve_out,
{
    lemma_fee_in_range(amount_in, fee_rate_bps);
    let n = spec_new_reserve_in(reserve_in, fee_rate_bps, amount_in);
    let k = reserve_in * reserve_out;
    let q = spec_new_reserve_out(reserve_in, reserve_out, fee_rate_bps, amount_in);
    lemma_mul_nonnegative(reserve_in, reserve_out);
    lemma_fundamental_div_mod(k, n);
    lemma_mod_division_less_than_divisor(k, n);
    assert(k < n * (q + 1)) by (nonlinear_arith)
        requires
            k == n * q + k % n,
            k % n < n,
    ;
    lemma_div_pos_is_pos(k, n);
    lemma_mul_inequality(n, reserve_in + amount_in, q + 1);
    lemma_mul_is_commutative(n, q + 1);
    lemma_mul_is_commutative(reserve_in + amount_in, q + 1);
}

/// The payout of a swap is non-decreasing in the amount supplied, for
/// fixed reserves and fee rate.
pub proof fn lemma_amount_out_monotone(
    reserve_in: int,
    reserve_out: int,
    fee_rate_bps: int,
    amount_in_small: int,
    amount_in_large: int,
)
    requires
        0 < reserve_in,
        0 <= reserve_out,
        0 <= fee_rate_bps <= 10000,
        0 < amount_in_small <= amount_in_large,
    ensures
        spec_amount_out(reserve_in, reserve_out, fee_rate_bps, amount_in_small)
            <= spec_amount_out(reserve_in, reserve_out, fee_rate_bps, amount_in_large),
{
    let a1 = amount_in_small;
    let a2 = amount_in_large;
    lemma_fee_in_range(a1, fee_rate_bps);
    lemma_fee_in_range(a2, fee_rate_bps);
    let n1 = spec_new_reserve_in(reserve_in, fee_rate_bps, a1);
    let n2 = spec_new_reserve_in(reserve_in, fee_rate_bps, a2);
    let k = reserve_in * reserve_out;
    // The fee grows by at most the growth of the amount itself, so the
    // fee-adjusted input, and with it the new in-reserve, is monotone.
    assert(a2 * fee_rate_bps <= a1 * fee_rate_bps + (a2 - a1) * 10000) by (nonlinear_arith)
        requires
            0 <= fee_rate_bps <= 10000,
            a1 <= a2,
    ;
    lemma_div_is_ordered(a2 * fee_rate_bps, a1 * fee_rate_bps + (a2 - a1) * 10000, 10000);
    lemma_hoist_over_denominator(a1 * fee_rate_bps, a2 - a1, 10000nat);
    assert(spec_fee(a2, fee_rate_bps) <= spec_fee(a1, fee_rate_bps) + (a2 - a1));
    assert(n1 <= n2);
    lemma_mul_nonnegative(reserve_in, reserve_out);
    lemma_div_is_ordered_by_denominator(k, n1, n2);
}

/// Swapping `amount_in` of one asset for the other and immediately
/// swapping the whole payout back never returns more than `amount_in`,
/// provided the first swap's widened division is exact. (When it is not,
/// the rounded-up payouts of the two legs can outweigh the fee: with
/// reserves 1000 and 1000, a fee rate of 30 and an input of 100, the
/// round trip returns 101.)
pub proof fn lemma_round_trip_no_gain(
    reserve_in: int,
    reserve_out: int,
    fee_rate_bps: int,
    amount_in: int,
)
    requires
        0 < reserve_in,
        0 < reserve_out,
        0 <= fee_rate_bps <= 10000,
        0 < amount_in,
        (reserve_in * reserve_out) % spec_new_reserve_in(reserve_in, fee_rate_bps, amount_in)
            == 0,
        // the first swap leaves liquidity on the out side and pays out something
        spec_new_reserve_out(reserve_in, reserve_out, fee_rate_bps, amount_in) > 0,
        spec_amount_out(reserve_in, reserve_out, fee_rate_bps, amount_in) > 0,
    ensures
        spec_amount_out(
            reserve_out - spec_amount_out(reserve_in, reserve_out, fee_rate_bps, amount_in),
            reserve_in + amount_in,
            fee_rate_bps,
            spec_amount_out(reserve_in, reserve_out, fee_rate_bps, amount_in),
        ) <= amount_in,
{
    let rin = reserve_in;
    let rout = reserve_out;
    let a = amount_in;
    lemma_fee_in_range(a, fee_rate_bps);
    let f1 = spec_fee(a, fee_rate_bps);
    let n1 = spec_new_reserve_in(rin, fee_rate_bps, a);
    let k = rin * rout;
    let q1 = spec_new_reserve_out(rin, rout, fee_rate_bps, a);
    let out1 = spec_amount_out(rin, rout, fee_rate_bps, a);
    lemma_fundamental_div_mod(k, n1);
    assert(n1 * q1 == k);
    // After the first swap the out-side vault holds exactly the floored
    // out-reserve, and the in-side vault holds the whole input.
    assert(rout - out1 == q1);
    lemma_fee_in_range(out1, fee_rate_bps);
    let f2 = spec_fee(out1, fee_rate_bps);
    let adj2 = out1 - f2;
    let n2 = spec_new_reserve_in(q1, fee_rate_bps, out1);
    assert(n2 == q1 + adj2);
    let k2 = q1 * (rin + a);
    let q2 = spec_new_reserve_out(q1, rin + a, fee_rate_bps, out1);
    assert(q2 == k2 / n2);
    // The return payout stays within the original input exactly when the
    // floored return out-reserve reaches the original in-reserve.
    assert(k2 - rin * n2 == q1 * a - rin * adj2) by (nonlinear_arith)
        requires
            k2 == q1 * (rin + a),
            n2 == q1 + adj2,
    ;
    assert(rin * adj2 <= rin * (rout - q1)) by (nonlinear_arith)
        requires
            adj2 <= rout - q1,
            0 <= rin,
    ;
    assert(q1 * a - rin * (rout - q1) == q1 * (a + rin) - k) by (nonlinear_arith)
        requires
            k == rin * rout,
    ;
    assert(q1 * (a + rin) >= q1 * n1) by (nonlinear_arith)
        requires
            0 <= q1,
            n1 <= a + rin,
    ;
    assert(q1 * n1 == k) by (nonlinear_arith)
        requires
            n1 * q1 == k,
    ;
    assert(k2 >= rin * n2);
    lemma_div_is_ordered(rin * n2, k2, n2);
    lemma_div_by_multiple(rin, n2);
    lemma_mul_is_commutative(rin, n2);
    assert(q2 >= rin);
}

} // verus!
