//! Depositing both assets for newly minted pool shares.
//!
//! No fee is charged. Into a pool without shares both amounts are taken as
//! offered. Into a pool with shares outstanding the deposit is taken at the
//! ratio of the reserves: the asset that is offered in the smaller proportion
//! is taken in full and the other is capped to match it. The shares are
//! minted on the amount taken of asset A.

use crate::math::{
    isqrt, lemma_floored_parts_keep_ratio, lemma_mul_div_bounds, lemma_sqrt_floor_exists, mul_div,
    mul_div_floor, sqrt_floor,
};
use crate::pool::Pool;
use vstd::math::min;
use vstd::prelude::*;

verus! {

/// Why a deposit was rejected.
#[derive(Clone, Copy, Debug, PartialEq, Eq, Structural)]
pub enum AddError {
    /// Shares are outstanding but a reserve is empty: the pool has no ratio.
    EmptyPool,
    /// Fewer shares would be minted than the caller's minimum.
    SlippageExceeded,
    /// A reserve or the share supply would exceed the 64-bit range.
    Overflow,
}

/// The outcome of a deposit: the pool that follows, the amounts to move from
/// the caller to the pool, and the shares to mint to the caller.
#[derive(Clone, Copy, Debug, PartialEq, Eq)]
pub struct AddResult {
    /// The pool after the deposit.
    pub pool: Pool,
    /// Amount of asset A taken from the caller.
    pub amount_a: u64,
    /// Amount of asset B taken from the caller.
    pub amount_b: u64,
    /// Pool shares minted to the caller, once.
    pub minted: u64,
}

/// The amount of asset A that a deposit takes: all that is offered into a
/// pool without shares, else no more than matches the offer of asset B.
pub open spec fn spec_deposit_a(pool: Pool, user_amount_a: u64, user_amount_b: u64) -> int {
    if pool.pool_share_supply == 0 {
        user_amount_a as int
    } else {
        min(
            user_amount_a as int,
            mul_div(user_amount_b as int, pool.reserve_a as int, pool.reserve_b as int),
        )
    }
}

/// The amount of asset B that a deposit takes: all that is offered into a
/// pool without shares, else no more than matches the offer of asset A.
pub open spec fn spec_deposit_b(pool: Pool, user_amount_a: u64, user_amount_b: u64) -> int {
    if pool.pool_share_supply == 0 {
        user_amount_b as int
    } else {
        min(
            user_amount_b as int,
            mul_div(user_amount_a as int, pool.reserve_b as int, pool.reserve_a as int),
        )
    }
}

/// The shares that a deposit mints: the floored square root of the product of
/// the amounts for a pool without shares, else the share supply scaled by the
/// part that the amount taken of asset A is of its reserve, floored.
pub open spec fn spec_minted(pool: Pool, user_amount_a: u64, user_amount_b: u64) -> int {
    if pool.pool_share_supply == 0 {
        sqrt_floor(user_amount_a * user_amount_b)
    } else {
        mul_div(
            pool.pool_share_supply as int,
            spec_deposit_a(pool, user_amount_a, user_amount_b),
            pool.reserve_a as int,
        )
    }
}

/// The outcome of a deposit, over the mathematical integers.
///
/// The rejections are tested in this order: no ratio, slippage, overflow.
pub open spec fn add_liquidity_spec(
    pool: Pool,
    user_amount_a: u64,
    user_amount_b: u64,
    min_pool_tokens: u64,
) -> Result<AddResult, AddError> {
    let amount_a = spec_deposit_a(pool, user_amount_a, user_amount_b);
    let amount_b = spec_deposit_b(pool, user_amount_a, user_amount_b);
    let minted = spec_minted(pool, user_amount_a, user_amount_b);
    if pool.pool_share_supply > 0 && (pool.reserve_a == 0 || pool.reserve_b == 0) {
        Err(AddError::EmptyPool)
    } else if minted < min_pool_tokens {
        Err(AddError::SlippageExceeded)
    } else if pool.reserve_a + amount_a > u64::MAX || pool.reserve_b + amount_b > u64::MAX
        || pool.pool_share_supply + minted > u64::MAX {
        Err(AddError::Overflow)
    } else {
        Ok(
            AddResult {
                pool: Pool {
                    asset_a: pool.asset_a,
                    asset_b: pool.asset_b,
                    reserve_a: (pool.reserve_a + amount_a) as u64,
                    reserve_b: (pool.reserve_b + amount_b) as u64,
                    pool_share_supply: (pool.pool_share_supply + minted) as u64,
                },
                amount_a: amount_a as u64,
                amount_b: amount_b as u64,
                minted: minted as u64,
            },
        )
    }
}

/// Deposits up to `user_amount_a` and `user_amount_b` and mints pool shares.
///
/// The pool is not changed: the state that follows is in the result, and a
/// rejected deposit leaves nothing to apply.
pub fn add_liquidity(
    pool: &Pool,
    user_amount_a: u64,
    user_amount_b: u64,
    min_pool_tokens: u64,
) -> (result: Result<AddResult, AddError>)
    ensures
        result == add_liquidity_spec(*pool, user_amount_a, user_amount_b, min_pool_tokens),
        result matches Ok(d) ==> {
            &&& d.amount_a <= user_amount_a
            &&& d.amount_b <= user_amount_b
            &&& d.minted >= min_pool_tokens
            &&& d.pool.reserve_a == pool.reserve_a + d.amount_a
            &&& d.pool.reserve_b == pool.reserve_b + d.amount_b
            &&& d.pool.pool_share_supply == pool.pool_share_supply + d.minted
            &&& pool.wf() ==> d.pool.wf()
        },
{
    proof {
        lemma_add_accounts(*pool, user_amount_a, user_amount_b, min_pool_tokens);
        if pool.wf() {
            lemma_add_preserves_wf(*pool, user_amount_a, user_amount_b, min_pool_tokens);
        }
    }
    let amount_a: u64;
    let amount_b: u64;
    let minted_wide: u128;
    if pool.pool_share_supply == 0 {
        assert(user_amount_a * user_amount_b <= u64::MAX * u64::MAX) by (nonlinear_arith)
            requires
                0 <= user_amount_a <= u64::MAX,
                0 <= user_amount_b <= u64::MAX,
        ;
        amount_a = user_amount_a;
        amount_b = user_amount_b;
        minted_wide = isqrt((user_amount_a as u128) * (user_amount_b as u128)) as u128;
    } else {
        let cap_a: u128 = match mul_div_floor(user_amount_b, pool.reserve_a, pool.reserve_b as u128) {
            Some(cap) => cap,
            None => {
                return Err(AddError::EmptyPool);
            },
        };
        let cap_b: u128 = match mul_div_floor(user_amount_a, pool.reserve_b, pool.reserve_a as u128) {
            Some(cap) => cap,
            None => {
                return Err(AddError::EmptyPool);
            },
        };
        amount_a = if cap_a < user_amount_a as u128 {
            cap_a as u64
        } else {
            user_amount_a
        };
        amount_b = if cap_b < user_amount_b as u128 {
            cap_b as u64
        } else {
            user_amount_b
        };
        minted_wide = match mul_div_floor(pool.pool_share_supply, amount_a, pool.reserve_a as u128) {
            Some(minted) => minted,
            None => {
                return Err(AddError::EmptyPool);
            },
        };
    }
    if minted_wide < min_pool_tokens as u128 {
        return Err(AddError::SlippageExceeded);
    }
    let new_reserve_a: u64 = match pool.reserve_a.checked_add(amount_a) {
        Some(sum) => sum,
        None => {
            return Err(AddError::Overflow);
        },
    };
    let new_reserve_b: u64 = match pool.reserve_b.checked_add(amount_b) {
        Some(sum) => sum,
        None => {
            return Err(AddError::Overflow);
        },
    };
    if minted_wide > (u64::MAX - pool.pool_share_supply) as u128 {
        return Err(AddError::Overflow);
    }
    let minted: u64 = minted_wide as u64;
    Ok(
        AddResult {
            pool: Pool {
                asset_a: pool.asset_a,
                asset_b: pool.asset_b,
                reserve_a: new_reserve_a,
                reserve_b: new_reserve_b,
                pool_share_supply: pool.pool_share_supply + minted,
            },
            amount_a,
            amount_b,
            minted,
        },
    )
}

/// Into a pool with shares outstanding and two positive reserves, a deposit
/// takes no more than is offered of either asset, takes one of the two
/// offers in full, and takes the two assets in the ratio of the reserves as
/// closely as whole units allow: each amount, as a part of its reserve, is
/// less than one unit of the other asset above the other amount's part.
pub proof fn lemma_deposit_matches_ratio(pool: Pool, user_amount_a: u64, user_amount_b: u64)
    requires
        pool.pool_share_supply > 0,
        pool.reserve_a > 0,
        pool.reserve_b > 0,
    ensures
        ({
            let amount_a = spec_deposit_a(pool, user_amount_a, user_amount_b);
            let amount_b = spec_deposit_b(pool, user_amount_a, user_amount_b);
            &&& 0 <= amount_a <= user_amount_a
            &&& 0 <= amount_b <= user_amount_b
            &&& amount_a == user_amount_a || amount_b == user_amount_b
            &&& amount_a * pool.reserve_b < (amount_b + 1) * pool.reserve_a
            &&& amount_b * pool.reserve_a < (amount_a + 1) * pool.reserve_b
        }),
{
    let ra = pool.reserve_a as int;
    let rb = pool.reserve_b as int;
    let ua = user_amount_a as int;
    let ub = user_amount_b as int;
    let cap_a = mul_div(ub, ra, rb);
    let cap_b = mul_div(ua, rb, ra);
    let amount_a = spec_deposit_a(pool, user_amount_a, user_amount_b);
    let amount_b = spec_deposit_b(pool, user_amount_a, user_amount_b);
    lemma_mul_div_bounds(ub, ra, rb);
    lemma_mul_div_bounds(ua, rb, ra);
    assert(amount_a * rb < (amount_b + 1) * ra) by (nonlinear_arith)
        requires
            0 < ra,
            0 < rb,
            0 <= amount_a <= ua,
            amount_a <= cap_a,
            cap_a * rb <= ub * ra,
            ua * rb < (cap_b + 1) * ra,
            amount_b == ub || amount_b == cap_b,
    ;
    assert(amount_b * ra < (amount_a + 1) * rb) by (nonlinear_arith)
        requires
            0 < ra,
            0 < rb,
            0 <= amount_b <= ub,
            amount_b <= cap_b,
            cap_b * ra <= ua * rb,
            ub * ra < (cap_a + 1) * rb,
            amount_a == ua || amount_a == cap_a,
    ;
    if amount_a != ua {
        assert(ub <= cap_b) by (nonlinear_arith)
            requires
                0 < ra,
                0 < rb,
                cap_a + 1 <= ua,
                ub * ra < (cap_a + 1) * rb,
                ua * rb < (cap_b + 1) * ra,
        ;
    }
}

/// The amounts of an accepted deposit are the mathematical ones, none of
/// them cut to fit 64 bits: no more is taken than was offered, at least the
/// caller's minimum of shares is minted, each reserve gains what is taken of
/// its asset, the share supply gains what is minted, and the asset
/// identifiers stay as they were.
pub proof fn lemma_add_accounts(
    pool: Pool,
    user_amount_a: u64,
    user_amount_b: u64,
    min_pool_tokens: u64,
)
    ensures
        add_liquidity_spec(pool, user_amount_a, user_amount_b, min_pool_tokens) matches Ok(d) ==> {
            &&& d.amount_a == spec_deposit_a(pool, user_amount_a, user_amount_b)
            &&& d.amount_b == spec_deposit_b(pool, user_amount_a, user_amount_b)
            &&& d.minted == spec_minted(pool, user_amount_a, user_amount_b)
            &&& d.amount_a <= user_amount_a
            &&& d.amount_b <= user_amount_b
            &&& d.minted >= min_pool_tokens
            &&& d.pool.reserve_a == pool.reserve_a + d.amount_a
            &&& d.pool.reserve_b == pool.reserve_b + d.amount_b
            &&& d.pool.pool_share_supply == pool.pool_share_supply + d.minted
            &&& d.pool.asset_a == pool.asset_a
            &&& d.pool.asset_b == pool.asset_b
        },
{
    if let Ok(d) = add_liquidity_spec(pool, user_amount_a, user_amount_b, min_pool_tokens) {
        if pool.pool_share_supply > 0 {
            lemma_deposit_matches_ratio(pool, user_amount_a, user_amount_b);
        }
    }
}

/// An accepted deposit into a pool with shares outstanding mints shares in
/// the proportion in which the assets are taken, as closely as whole units
/// allow.
///
/// The shares minted are the largest whole number whose part of the supply
/// is at most the part that the amount taken of asset A is of its reserve.
/// The two assets are taken in the ratio of the reserves, as
/// `lemma_deposit_matches_ratio` states it. So the shares' part of the supply
/// is also less than one unit of asset B above the part that the amount taken
/// of asset B is of its reserve.
pub proof fn lemma_add_is_proportional(
    pool: Pool,
    user_amount_a: u64,
    user_amount_b: u64,
    min_pool_tokens: u64,
)
    requires
        pool.pool_share_supply > 0,
    ensures
        add_liquidity_spec(pool, user_amount_a, user_amount_b, min_pool_tokens) matches Ok(d) ==> {
            &&& d.minted * pool.reserve_a <= pool.pool_share_supply * d.amount_a
            &&& pool.pool_share_supply * d.amount_a < (d.minted + 1) * pool.reserve_a
            &&& d.amount_a * pool.reserve_b < (d.amount_b + 1) * pool.reserve_a
            &&& d.amount_b * pool.reserve_a < (d.amount_a + 1) * pool.reserve_b
            &&& d.minted * pool.reserve_b < (d.amount_b + 1) * pool.pool_share_supply
        },
{
    if let Ok(d) = add_liquidity_spec(pool, user_amount_a, user_amount_b, min_pool_tokens) {
        lemma_add_accounts(pool, user_amount_a, user_amount_b, min_pool_tokens);
        lemma_deposit_matches_ratio(pool, user_amount_a, user_amount_b);
        lemma_mul_div_bounds(
            pool.pool_share_supply as int,
            d.amount_a as int,
            pool.reserve_a as int,
        );
        lemma_floored_parts_keep_ratio(
            d.minted as int,
            pool.pool_share_supply as int,
            d.amount_b as int,
            pool.reserve_b as int,
            d.amount_a as int,
            pool.reserve_a as int,
        );
    }
}

/// A deposit keeps a well-formed pool well formed.
pub proof fn lemma_add_preserves_wf(
    pool: Pool,
    user_amount_a: u64,
    user_amount_b: u64,
    min_pool_tokens: u64,
)
    requires
        pool.wf(),
    ensures
        add_liquidity_spec(pool, user_amount_a, user_amount_b, min_pool_tokens) matches Ok(d)
            ==> d.pool.wf(),
{
    if let Ok(d) = add_liquidity_spec(pool, user_amount_a, user_amount_b, min_pool_tokens) {
        lemma_add_accounts(pool, user_amount_a, user_amount_b, min_pool_tokens);
        if pool.pool_share_supply == 0 && d.minted > 0 {
            let product = user_amount_a * user_amount_b;
            assert(0 <= product) by (nonlinear_arith)
                requires
                    product == user_amount_a * user_amount_b,
            ;
            lemma_sqrt_floor_exists(product);
            let root = sqrt_floor(product);
            assert(user_amount_a > 0 && user_amount_b > 0) by (nonlinear_arith)
                requires
                    root >= 1,
                    root * root <= user_amount_a * user_amount_b,
            ;
        }
    }
}

} // verus!
