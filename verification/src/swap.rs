//! Swapping one asset of the pool for the other at the constant-product price.
//!
//! The fee is computed once, on the amount paid in. Its floored half is paid
//! out of the pool to the fee sink, in the asset paid in; the rest stays in the
//! input reserve. The price is taken on the amount net of the whole fee.

use crate::asset::AssetId;
use crate::math::{lemma_mul_div_bounds, lemma_mul_div_le, mul_div, mul_div_floor};
use crate::pool::{Pool, Side};
use vstd::prelude::*;

verus! {

/// A fee rate of `BPS_DENOMINATOR` basis points is the whole amount.
pub const BPS_DENOMINATOR: u64 = 10_000;

/// Why a swap was rejected.
#[derive(Clone, Copy, Debug, PartialEq, Eq, Structural)]
pub enum SwapError {
    /// The asset paid in is neither of the pool's two.
    InvalidAsset,
    /// The fee exceeds the amount paid in.
    Underflow,
    /// The input reserve and the net amount paid in are both zero: no price exists.
    EmptyPool,
    /// The amount paid out is below the caller's minimum.
    SlippageExceeded,
    /// The input reserve would exceed the 64-bit range.
    Overflow,
}

/// The outcome of a swap: the pool that follows and the transfers to make.
#[derive(Clone, Copy, Debug, PartialEq, Eq)]
pub struct SwapResult {
    /// The pool after the swap.
    pub pool: Pool,
    /// Identifier of the asset paid out.
    pub asset_out: AssetId,
    /// Amount of the input asset to move from the caller to the pool.
    pub amount_in: u64,
    /// Amount of the output asset to move from the pool to the caller.
    pub amount_out: u64,
    /// The whole fee, in the input asset; it is part of `amount_in`.
    pub fee: u64,
    /// Amount of the input asset to move from the pool to the fee sink.
    pub fee_to_sink: u64,
}

/// The fee on `amount_in` at `fee_bps` basis points, floored.
pub open spec fn spec_fee(amount_in: u64, fee_bps: u16) -> int {
    mul_div(amount_in as int, fee_bps as int, BPS_DENOMINATOR as int)
}

/// The part of `fee` that leaves the pool for the fee sink: its floored half.
pub open spec fn spec_fee_to_sink(fee: int) -> int {
    fee / 2
}

/// The constant-product price: what `net_in` buys from `reserve_out` when
/// `reserve_in` is held on the input side, floored. Against reserves of 1000
/// and 4000, for one, `spec_amount_out(1000, 4000, 100)` is 363.
pub open spec fn spec_amount_out(reserve_in: int, reserve_out: int, net_in: int) -> int {
    mul_div(reserve_out, net_in, reserve_in + net_in)
}

/// The outcome of a swap, over the mathematical integers.
///
/// The rejections are tested in this order: unknown asset, fee above the
/// amount, no price, slippage, overflow of the input reserve.
pub open spec fn swap_spec(
    pool: Pool,
    amount_in: u64,
    min_amount_out: u64,
    asset_in: AssetId,
    fee_bps: u16,
) -> Result<SwapResult, SwapError> {
    match pool.spec_side_of(asset_in) {
        None => Err(SwapError::InvalidAsset),
        Some(side) => {
            let reserve_in = pool.spec_reserve(side) as int;
            let reserve_out = pool.spec_reserve(side.spec_other()) as int;
            let fee = spec_fee(amount_in, fee_bps);
            let net_in = amount_in - fee;
            let amount_out = spec_amount_out(reserve_in, reserve_out, net_in);
            let fee_to_sink = spec_fee_to_sink(fee);
            let new_reserve_in = reserve_in + amount_in - fee_to_sink;
            let new_reserve_out = reserve_out - amount_out;
            if fee > amount_in {
                Err(SwapError::Underflow)
            } else if reserve_in + net_in == 0 {
                Err(SwapError::EmptyPool)
            } else if amount_out < min_amount_out {
                Err(SwapError::SlippageExceeded)
            } else if new_reserve_in > u64::MAX {
                Err(SwapError::Overflow)
            } else {
                Ok(
                    SwapResult {
                        pool: pool.spec_with_reserves(
                            side,
                            new_reserve_in as u64,
                            new_reserve_out as u64,
                        ),
                        asset_out: pool.spec_asset(side.spec_other()),
                        amount_in,
                        amount_out: amount_out as u64,
                        fee: fee as u64,
                        fee_to_sink: fee_to_sink as u64,
                    },
                )
            }
        },
    }
}

/// The fee on `amount_in` at `fee_bps` basis points, floored. A rate above
/// `BPS_DENOMINATOR` gives a fee above the amount, which may pass 64 bits.
pub fn fee_on(amount_in: u64, fee_bps: u16) -> (fee: u128)
    ensures
        fee == spec_fee(amount_in, fee_bps),
{
    assert(amount_in * fee_bps <= u64::MAX * u16::MAX) by (nonlinear_arith)
        requires
            0 <= amount_in <= u64::MAX,
            0 <= fee_bps <= u16::MAX,
    ;
    (amount_in as u128) * (fee_bps as u128) / (BPS_DENOMINATOR as u128)
}

/// Swaps `amount_in` of `asset_in` for the pool's other asset.
///
/// The pool is not changed: the state that follows is in the result, and a
/// rejected swap leaves nothing to apply.
pub fn swap(
    pool: &Pool,
    amount_in: u64,
    min_amount_out: u64,
    asset_in: AssetId,
    fee_bps: u16,
) -> (result: Result<SwapResult, SwapError>)
    ensures
        result == swap_spec(*pool, amount_in, min_amount_out, asset_in, fee_bps),
        result matches Ok(s) ==> {
            let side = pool.spec_side_of(asset_in)->Some_0;
            &&& s.fee <= amount_in
            &&& s.amount_out >= min_amount_out
            &&& s.pool.spec_reserve(side) == pool.spec_reserve(side) + amount_in - s.fee_to_sink
            &&& s.pool.spec_reserve(side.spec_other()) == pool.spec_reserve(side.spec_other())
                - s.amount_out
            &&& s.pool.pool_share_supply == pool.pool_share_supply
            &&& s.pool.product() >= pool.product()
            &&& pool.wf() ==> s.pool.wf()
        },
{
    proof {
        lemma_swap_accounts(*pool, amount_in, min_amount_out, asset_in, fee_bps);
        lemma_swap_grows_product(*pool, amount_in, min_amount_out, asset_in, fee_bps);
        if pool.wf() {
            lemma_swap_preserves_wf(*pool, amount_in, min_amount_out, asset_in, fee_bps);
        }
    }
    let side = match pool.side_of(asset_in) {
        Some(side) => side,
        None => {
            return Err(SwapError::InvalidAsset);
        },
    };
    let reserve_in: u64 = pool.reserve(side);
    let reserve_out: u64 = pool.reserve(side.other());

    let fee_wide: u128 = fee_on(amount_in, fee_bps);
    if fee_wide > amount_in as u128 {
        return Err(SwapError::Underflow);
    }
    let fee: u64 = fee_wide as u64;
    let net_in: u64 = amount_in - fee;

    let out_wide: u128 = match mul_div_floor(reserve_out, net_in, reserve_in as u128 + net_in as u128) {
        Some(out) => out,
        None => {
            return Err(SwapError::EmptyPool);
        },
    };
    proof {
        lemma_mul_div_bounds(reserve_out as int, net_in as int, reserve_in + net_in);
        lemma_mul_div_le(reserve_out as int, net_in as int, reserve_in + net_in);
    }
    let amount_out: u64 = out_wide as u64;
    if amount_out < min_amount_out {
        return Err(SwapError::SlippageExceeded);
    }
    let fee_to_sink: u64 = fee / 2;
    let new_reserve_in: u64 = match reserve_in.checked_add(amount_in - fee_to_sink) {
        Some(sum) => sum,
        None => {
            return Err(SwapError::Overflow);
        },
    };
    let new_reserve_out: u64 = reserve_out - amount_out;
    let new_pool = match side {
        Side::A => Pool {
            asset_a: pool.asset_a,
            asset_b: pool.asset_b,
            reserve_a: new_reserve_in,
            reserve_b: new_reserve_out,
            pool_share_supply: pool.pool_share_supply,
        },
        Side::B => Pool {
            asset_a: pool.asset_a,
            asset_b: pool.asset_b,
            reserve_a: new_reserve_out,
            reserve_b: new_reserve_in,
            pool_share_supply: pool.pool_share_supply,
        },
    };
    Ok(
        SwapResult {
            pool: new_pool,
            asset_out: pool.asset(side.other()),
            amount_in,
            amount_out,
            fee,
            fee_to_sink,
        },
    )
}

/// What flooring the price leaves undivided:
/// `reserve_out * net_in - amount_out * (reserve_in + net_in)`.
pub open spec fn spec_price_remainder(reserve_in: int, reserve_out: int, net_in: int) -> int {
    (reserve_out * net_in) % (reserve_in + net_in)
}

/// The amounts of an accepted swap are the mathematical ones, none of them
/// cut to fit 64 bits, and no balance goes below zero: the fee is at most
/// the amount paid in, the amount paid out is at least the caller's minimum
/// and at most the output reserve, the input reserve gains the amount paid in
/// less the sink's part of the fee, the output reserve loses the amount paid
/// out, and the share supply and the asset identifiers stay as they were.
pub proof fn lemma_swap_accounts(
    pool: Pool,
    amount_in: u64,
    min_amount_out: u64,
    asset_in: AssetId,
    fee_bps: u16,
)
    ensures
        swap_spec(pool, amount_in, min_amount_out, asset_in, fee_bps) matches Ok(s) ==> {
            let side = pool.spec_side_of(asset_in)->Some_0;
            let reserve_in = pool.spec_reserve(side) as int;
            let reserve_out = pool.spec_reserve(side.spec_other()) as int;
            &&& pool.spec_side_of(asset_in) is Some
            &&& s.amount_in == amount_in
            &&& s.fee == spec_fee(amount_in, fee_bps)
            &&& 0 <= s.fee <= amount_in
            &&& s.fee_to_sink == s.fee / 2
            &&& s.amount_out == spec_amount_out(reserve_in, reserve_out, amount_in - s.fee)
            &&& min_amount_out <= s.amount_out <= reserve_out
            &&& s.asset_out == pool.spec_asset(side.spec_other())
            &&& s.pool.spec_reserve(side) == reserve_in + amount_in - s.fee_to_sink
            &&& s.pool.spec_reserve(side.spec_other()) == reserve_out - s.amount_out
            &&& s.pool.pool_share_supply == pool.pool_share_supply
            &&& s.pool.asset_a == pool.asset_a
            &&& s.pool.asset_b == pool.asset_b
        },
{
    if let Ok(s) = swap_spec(pool, amount_in, min_amount_out, asset_in, fee_bps) {
        let side = pool.spec_side_of(asset_in)->Some_0;
        let reserve_in = pool.spec_reserve(side) as int;
        let reserve_out = pool.spec_reserve(side.spec_other()) as int;
        let fee = spec_fee(amount_in, fee_bps);
        let net_in = amount_in - fee;
        lemma_mul_div_bounds(amount_in as int, fee_bps as int, BPS_DENOMINATOR as int);
        lemma_mul_div_bounds(reserve_out, net_in, reserve_in + net_in);
        lemma_mul_div_le(reserve_out, net_in, reserve_in + net_in);
    }
}

/// A swap never lowers the product of the reserves.
///
/// The product grows by exactly what flooring the price leaves undivided,
/// plus the part of the fee that stays in the pool times the output reserve
/// after the swap. So it grows strictly whenever a fee of at least one unit
/// is charged and the output reserve is not emptied, and a swap on two
/// positive reserves never empties the output reserve.
pub proof fn lemma_swap_grows_product(
    pool: Pool,
    amount_in: u64,
    min_amount_out: u64,
    asset_in: AssetId,
    fee_bps: u16,
)
    ensures
        swap_spec(pool, amount_in, min_amount_out, asset_in, fee_bps) matches Ok(s) ==> {
            let side = pool.spec_side_of(asset_in)->Some_0;
            let reserve_in = pool.spec_reserve(side) as int;
            let reserve_out = pool.spec_reserve(side.spec_other()) as int;
            let retained = s.fee - s.fee_to_sink;
            let growth = spec_price_remainder(reserve_in, reserve_out, amount_in - s.fee)
                + retained * (reserve_out - s.amount_out);
            &&& s.pool.product() == pool.product() + growth
            &&& s.pool.product() >= pool.product()
            &&& s.fee >= 1 && s.amount_out < reserve_out ==> s.pool.product() > pool.product()
            &&& reserve_in > 0 && reserve_out > 0 ==> s.amount_out < reserve_out
        },
{
    if let Ok(s) = swap_spec(pool, amount_in, min_amount_out, asset_in, fee_bps) {
        lemma_swap_accounts(pool, amount_in, min_amount_out, asset_in, fee_bps);
        let side = pool.spec_side_of(asset_in)->Some_0;
        let reserve_in = pool.spec_reserve(side) as int;
        let reserve_out = pool.spec_reserve(side.spec_other()) as int;
        let net_in = amount_in - s.fee;
        let denominator = reserve_in + net_in;
        let amount_out = s.amount_out as int;
        let remainder = spec_price_remainder(reserve_in, reserve_out, net_in);
        let retained = s.fee - s.fee_to_sink;
        let new_in = s.pool.spec_reserve(side) as int;
        let new_out = s.pool.spec_reserve(side.spec_other()) as int;
        lemma_mul_div_bounds(reserve_out, net_in, denominator);
        assert(new_in * new_out == reserve_in * reserve_out + remainder + retained * new_out)
            by (nonlinear_arith)
            requires
                amount_out * denominator + remainder == reserve_out * net_in,
                denominator == reserve_in + net_in,
                new_in == denominator + retained,
                new_out == reserve_out - amount_out,
        ;
        assert(retained * new_out >= 0) by (nonlinear_arith)
            requires
                retained >= 0,
                new_out >= 0,
        ;
        assert(retained >= 1 && new_out >= 1 ==> retained * new_out >= 1) by (nonlinear_arith);
        assert(new_out * new_in == new_in * new_out) by (nonlinear_arith);
        assert(reserve_out * reserve_in == reserve_in * reserve_out) by (nonlinear_arith);
        if reserve_in > 0 && reserve_out > 0 {
            assert(amount_out < reserve_out) by (nonlinear_arith)
                requires
                    amount_out * denominator <= reserve_out * net_in,
                    denominator == reserve_in + net_in,
                    reserve_in > 0,
                    reserve_out > 0,
                    net_in >= 0,
                    amount_out >= 0,
            ;
        }
    }
}

/// A swap leaves the product of the reserves as it was only where the fee
/// rate is zero.
///
/// Left out are the swaps at a positive rate that leave the product as it
/// was all the same: their price divides evenly, and their fee either floors
/// to nothing or meets an output reserve that the swap empties.
pub proof fn lemma_swap_keeps_product_only_without_fee(
    pool: Pool,
    amount_in: u64,
    min_amount_out: u64,
    asset_in: AssetId,
    fee_bps: u16,
)
    requires
        swap_spec(pool, amount_in, min_amount_out, asset_in, fee_bps) matches Ok(s) ==> {
            let side = pool.spec_side_of(asset_in)->Some_0;
            let reserve_in = pool.spec_reserve(side) as int;
            let reserve_out = pool.spec_reserve(side.spec_other()) as int;
            fee_bps > 0 ==> {
                ||| spec_price_remainder(reserve_in, reserve_out, amount_in - s.fee) > 0
                ||| (s.fee >= 1 && s.amount_out < reserve_out)
            }
        },
    ensures
        swap_spec(pool, amount_in, min_amount_out, asset_in, fee_bps) matches Ok(s) ==> (
        s.pool.product() == pool.product() ==> fee_bps == 0),
{
    lemma_swap_accounts(pool, amount_in, min_amount_out, asset_in, fee_bps);
    lemma_swap_grows_product(pool, amount_in, min_amount_out, asset_in, fee_bps);
    if let Ok(s) = swap_spec(pool, amount_in, min_amount_out, asset_in, fee_bps) {
        let retained = s.fee - s.fee_to_sink;
        let side = pool.spec_side_of(asset_in)->Some_0;
        let new_out = pool.spec_reserve(side.spec_other()) - s.amount_out;
        assert(retained * new_out >= 0) by (nonlinear_arith)
            requires
                retained >= 0,
                new_out >= 0,
        ;
    }
}

/// A swap keeps a well-formed pool well formed.
pub proof fn lemma_swap_preserves_wf(
    pool: Pool,
    amount_in: u64,
    min_amount_out: u64,
    asset_in: AssetId,
    fee_bps: u16,
)
    requires
        pool.wf(),
    ensures
        swap_spec(pool, amount_in, min_amount_out, asset_in, fee_bps) matches Ok(s) ==> s.pool.wf(),
{
    lemma_swap_accounts(pool, amount_in, min_amount_out, asset_in, fee_bps);
    lemma_swap_grows_product(pool, amount_in, min_amount_out, asset_in, fee_bps);
}

} // verus!
