//! Redeeming pool shares for a part of both reserves.
//!
//! No fee is charged. Each asset is paid in the proportion that the shares
//! burned are of the share supply, floored.

use crate::math::{
    lemma_floored_parts_keep_ratio, lemma_mul_div_bounds, lemma_mul_div_le, lemma_mul_div_lt,
    mul_div, mul_div_floor,
};
use crate::pool::Pool;
use vstd::arithmetic::div_mod::lemma_div_by_multiple;
use vstd::prelude::*;

verus! {

/// Why a redemption was rejected.
#[derive(Clone, Copy, Debug, PartialEq, Eq, Structural)]
pub enum RemoveError {
    /// The caller holds fewer shares than are to be redeemed.
    InsufficientShares,
    /// No shares are outstanding: there is nothing to take a part of.
    EmptyPool,
    /// An amount paid out would be below the caller's minimum for it.
    SlippageExceeded,
    /// More shares are to be redeemed than are outstanding.
    Underflow,
}

/// The outcome of a redemption: the pool that follows, the shares to burn
/// from the caller, and the amounts to move from the pool to the caller.
#[derive(Clone, Copy, Debug, PartialEq, Eq)]
pub struct RemoveResult {
    /// The pool after the redemption.
    pub pool: Pool,
    /// Amount of asset A paid to the caller.
    pub amount_a: u64,
    /// Amount of asset B paid to the caller.
    pub amount_b: u64,
    /// Pool shares burned from the caller.
    pub burned: u64,
}

/// The amount of asset A that redeeming `pool_token_amount` shares pays: the
/// part of the reserve that the shares are of the supply, floored.
pub open spec fn spec_withdraw_a(pool: Pool, pool_token_amount: u64) -> int {
    mul_div(pool.reserve_a as int, pool_token_amount as int, pool.pool_share_supply as int)
}

/// The amount of asset B that redeeming `pool_token_amount` shares pays.
pub open spec fn spec_withdraw_b(pool: Pool, pool_token_amount: u64) -> int {
    mul_div(pool.reserve_b as int, pool_token_amount as int, pool.pool_share_supply as int)
}

/// The outcome of a redemption, over the mathematical integers.
///
/// The rejections are tested in this order: the caller's balance, no shares
/// outstanding, slippage, more shares than are outstanding.
pub open spec fn remove_liquidity_spec(
    pool: Pool,
    pool_token_amount: u64,
    min_token_a: u64,
    min_token_b: u64,
    caller_share_balance: u64,
) -> Result<RemoveResult, RemoveError> {
    let amount_a = spec_withdraw_a(pool, pool_token_amount);
    let amount_b = spec_withdraw_b(pool, pool_token_amount);
    if caller_share_balance < pool_token_amount {
        Err(RemoveError::InsufficientShares)
    } else if pool.pool_share_supply == 0 {
        Err(RemoveError::EmptyPool)
    } else if amount_a < min_token_a || amount_b < min_token_b {
        Err(RemoveError::SlippageExceeded)
    } else if pool_token_amount > pool.pool_share_supply {
        Err(RemoveError::Underflow)
    } else {
        Ok(
            RemoveResult {
                pool: Pool {
                    asset_a: pool.asset_a,
                    asset_b: pool.asset_b,
                    reserve_a: (pool.reserve_a - amount_a) as u64,
                    reserve_b: (pool.reserve_b - amount_b) as u64,
                    pool_share_supply: (pool.pool_share_supply - pool_token_amount) as u64,
                },
                amount_a: amount_a as u64,
                amount_b: amount_b as u64,
                burned: pool_token_amount,
            },
        )
    }
}

/// Redeems `pool_token_amount` shares of a caller who holds
/// `caller_share_balance` of them.
///
/// The pool is not changed: the state that follows is in the result, and a
/// rejected redemption leaves nothing to apply.
pub fn remove_liquidity(
    pool: &Pool,
    pool_token_amount: u64,
    min_token_a: u64,
    min_token_b: u64,
    caller_share_balance: u64,
) -> (result: Result<RemoveResult, RemoveError>)
    ensures
        result == remove_liquidity_spec(
            *pool,
            pool_token_amount,
            min_token_a,
            min_token_b,
            caller_share_balance,
        ),
        result matches Ok(w) ==> {
            &&& w.burned == pool_token_amount
            &&& w.burned <= caller_share_balance
            &&& min_token_a <= w.amount_a
            &&& min_token_b <= w.amount_b
            &&& w.pool.reserve_a == pool.reserve_a - w.amount_a
            &&& w.pool.reserve_b == pool.reserve_b - w.amount_b
            &&& w.pool.pool_share_supply == pool.pool_share_supply - w.burned
            &&& pool.wf() ==> w.pool.wf()
        },
{
    proof {
        lemma_remove_accounts(
            *pool,
            pool_token_amount,
            min_token_a,
            min_token_b,
            caller_share_balance,
        );
        if pool.wf() {
            lemma_remove_preserves_wf(
                *pool,
                pool_token_amount,
                min_token_a,
                min_token_b,
                caller_share_balance,
            );
        }
    }
    if caller_share_balance < pool_token_amount {
        return Err(RemoveError::InsufficientShares);
    }
    let supply: u128 = pool.pool_share_supply as u128;
    let a_wide: u128 = match mul_div_floor(pool.reserve_a, pool_token_amount, supply) {
        Some(amount) => amount,
        None => {
            return Err(RemoveError::EmptyPool);
        },
    };
    let b_wide: u128 = match mul_div_floor(pool.reserve_b, pool_token_amount, supply) {
        Some(amount) => amount,
        None => {
            return Err(RemoveError::EmptyPool);
        },
    };
    if a_wide < min_token_a as u128 || b_wide < min_token_b as u128 {
        return Err(RemoveError::SlippageExceeded);
    }
    if pool_token_amount > pool.pool_share_supply {
        return Err(RemoveError::Underflow);
    }
    proof {
        lemma_mul_div_bounds(pool.reserve_a as int, pool_token_amount as int, supply as int);
        lemma_mul_div_bounds(pool.reserve_b as int, pool_token_amount as int, supply as int);
        lemma_mul_div_le(pool.reserve_a as int, pool_token_amount as int, supply as int);
        lemma_mul_div_le(pool.reserve_b as int, pool_token_amount as int, supply as int);
    }
    let amount_a: u64 = a_wide as u64;
    let amount_b: u64 = b_wide as u64;
    Ok(
        RemoveResult {
            pool: Pool {
                asset_a: pool.asset_a,
                asset_b: pool.asset_b,
                reserve_a: pool.reserve_a - amount_a,
                reserve_b: pool.reserve_b - amount_b,
                pool_share_supply: pool.pool_share_supply - pool_token_amount,
            },
            amount_a,
            amount_b,
            burned: pool_token_amount,
        },
    )
}

/// The amounts of an accepted redemption are the mathematical ones, none of
/// them cut to fit 64 bits, and no balance goes below zero: the caller holds
/// the shares burned, each amount paid is at least the caller's minimum and
/// at most its reserve, each reserve loses what is paid of its asset, the
/// share supply loses the shares burned, which are at most the supply, and
/// the asset identifiers stay as they were.
pub proof fn lemma_remove_accounts(
    pool: Pool,
    pool_token_amount: u64,
    min_token_a: u64,
    min_token_b: u64,
    caller_share_balance: u64,
)
    ensures
        remove_liquidity_spec(
            pool,
            pool_token_amount,
            min_token_a,
            min_token_b,
            caller_share_balance,
        ) matches Ok(w) ==> {
            &&& w.burned == pool_token_amount
            &&& w.burned <= caller_share_balance
            &&& w.burned <= pool.pool_share_supply
            &&& w.amount_a == spec_withdraw_a(pool, pool_token_amount)
            &&& w.amount_b == spec_withdraw_b(pool, pool_token_amount)
            &&& min_token_a <= w.amount_a <= pool.reserve_a
            &&& min_token_b <= w.amount_b <= pool.reserve_b
            &&& w.pool.reserve_a == pool.reserve_a - w.amount_a
            &&& w.pool.reserve_b == pool.reserve_b - w.amount_b
            &&& w.pool.pool_share_supply == pool.pool_share_supply - w.burned
            &&& w.pool.asset_a == pool.asset_a
            &&& w.pool.asset_b == pool.asset_b
        },
{
    let supply = pool.pool_share_supply as int;
    if supply > 0 && pool_token_amount <= supply {
        lemma_mul_div_bounds(pool.reserve_a as int, pool_token_amount as int, supply);
        lemma_mul_div_bounds(pool.reserve_b as int, pool_token_amount as int, supply);
        lemma_mul_div_le(pool.reserve_a as int, pool_token_amount as int, supply);
        lemma_mul_div_le(pool.reserve_b as int, pool_token_amount as int, supply);
    }
}

/// An accepted redemption pays each asset in the proportion in which shares
/// are burned, floored: each amount is the largest whole number whose
/// multiple by the supply is at most the reserve times the shares burned.
/// Where both reserves are positive, the two amounts therefore are in the
/// ratio of the reserves as closely as whole units allow.
pub proof fn lemma_remove_is_proportional(
    pool: Pool,
    pool_token_amount: u64,
    min_token_a: u64,
    min_token_b: u64,
    caller_share_balance: u64,
)
    ensures
        remove_liquidity_spec(
            pool,
            pool_token_amount,
            min_token_a,
            min_token_b,
            caller_share_balance,
        ) matches Ok(w) ==> {
            &&& w.amount_a * pool.pool_share_supply <= pool.reserve_a * w.burned
            &&& pool.reserve_a * w.burned < (w.amount_a + 1) * pool.pool_share_supply
            &&& w.amount_b * pool.pool_share_supply <= pool.reserve_b * w.burned
            &&& pool.reserve_b * w.burned < (w.amount_b + 1) * pool.pool_share_supply
            &&& pool.reserve_a > 0 && pool.reserve_b > 0 ==> {
                &&& w.amount_a * pool.reserve_b < (w.amount_b + 1) * pool.reserve_a
                &&& w.amount_b * pool.reserve_a < (w.amount_a + 1) * pool.reserve_b
            }
        },
{
    if let Ok(w) = remove_liquidity_spec(
        pool,
        pool_token_amount,
        min_token_a,
        min_token_b,
        caller_share_balance,
    ) {
        lemma_remove_accounts(
            pool,
            pool_token_amount,
            min_token_a,
            min_token_b,
            caller_share_balance,
        );
        let supply = pool.pool_share_supply as int;
        let ra = pool.reserve_a as int;
        let rb = pool.reserve_b as int;
        let burned = pool_token_amount as int;
        let amount_a = w.amount_a as int;
        let amount_b = w.amount_b as int;
        lemma_mul_div_bounds(ra, burned, supply);
        lemma_mul_div_bounds(rb, burned, supply);
        if ra > 0 && rb > 0 {
            lemma_floored_parts_keep_ratio(amount_a, ra, amount_b, rb, burned, supply);
            lemma_floored_parts_keep_ratio(amount_b, rb, amount_a, ra, burned, supply);
        }
    }
}

/// Redeeming the whole share supply pays out both reserves in full and
/// leaves a pool without shares and without reserves.
pub proof fn lemma_remove_all_empties_pool(
    pool: Pool,
    min_token_a: u64,
    min_token_b: u64,
    caller_share_balance: u64,
)
    requires
        pool.pool_share_supply > 0,
    ensures
        remove_liquidity_spec(
            pool,
            pool.pool_share_supply,
            min_token_a,
            min_token_b,
            caller_share_balance,
        ) matches Ok(w) ==> {
            &&& w.amount_a == pool.reserve_a
            &&& w.amount_b == pool.reserve_b
            &&& w.pool.reserve_a == 0
            &&& w.pool.reserve_b == 0
            &&& w.pool.pool_share_supply == 0
        },
{
    let supply = pool.pool_share_supply as int;
    lemma_remove_accounts(
        pool,
        pool.pool_share_supply,
        min_token_a,
        min_token_b,
        caller_share_balance,
    );
    lemma_div_by_multiple(pool.reserve_a as int, supply);
    lemma_div_by_multiple(pool.reserve_b as int, supply);
}

/// A redemption keeps a well-formed pool well formed.
pub proof fn lemma_remove_preserves_wf(
    pool: Pool,
    pool_token_amount: u64,
    min_token_a: u64,
    min_token_b: u64,
    caller_share_balance: u64,
)
    requires
        pool.wf(),
    ensures
        remove_liquidity_spec(
            pool,
            pool_token_amount,
            min_token_a,
            min_token_b,
            caller_share_balance,
        ) matches Ok(w) ==> w.pool.wf(),
{
    if let Ok(w) = remove_liquidity_spec(
        pool,
        pool_token_amount,
        min_token_a,
        min_token_b,
        caller_share_balance,
    ) {
        lemma_remove_accounts(
            pool,
            pool_token_amount,
            min_token_a,
            min_token_b,
            caller_share_balance,
        );
        let supply = pool.pool_share_supply as int;
        let burned = pool_token_amount as int;
        if burned < supply {
            lemma_mul_div_lt(pool.reserve_a as int, burned, supply);
            lemma_mul_div_lt(pool.reserve_b as int, burned, supply);
        }
    }
}

} // verus!
