//! What a deposit followed at once by the redemption of its shares comes to.

use crate::deposit::{add_liquidity_spec, lemma_add_accounts, lemma_add_is_proportional};
use crate::math::{lemma_mul_div_bounds, lemma_mul_div_le};
use crate::pool::Pool;
use crate::withdraw::{lemma_remove_accounts, remove_liquidity_spec};
use vstd::prelude::*;

verus! {

/// Depositing and at once redeeming the shares just minted never pays out
/// more than was deposited, of either asset.
///
/// Left out is the accepted deposit into a pool that holds reserves without
/// shares, followed by the accepted redemption of the shares it minted: they
/// are the whole supply, so they redeem the earlier reserves too.
pub proof fn lemma_deposit_then_redeem_pays_no_more(
    pool: Pool,
    user_amount_a: u64,
    user_amount_b: u64,
    min_pool_tokens: u64,
    min_token_a: u64,
    min_token_b: u64,
    caller_share_balance: u64,
)
    requires
        pool.pool_share_supply == 0 && (pool.reserve_a > 0 || pool.reserve_b > 0) ==> !(
        add_liquidity_spec(pool, user_amount_a, user_amount_b, min_pool_tokens) matches Ok(d)
            && remove_liquidity_spec(
            d.pool,
            d.minted,
            min_token_a,
            min_token_b,
            caller_share_balance,
        ) is Ok),
    ensures
        add_liquidity_spec(pool, user_amount_a, user_amount_b, min_pool_tokens) matches Ok(d)
            ==> (remove_liquidity_spec(
            d.pool,
            d.minted,
            min_token_a,
            min_token_b,
            caller_share_balance,
        ) matches Ok(w) ==> w.amount_a <= d.amount_a && w.amount_b <= d.amount_b),
{
    if let Ok(d) = add_liquidity_spec(pool, user_amount_a, user_amount_b, min_pool_tokens) {
        if let Ok(w) = remove_liquidity_spec(
            d.pool,
            d.minted,
            min_token_a,
            min_token_b,
            caller_share_balance,
        ) {
            lemma_add_accounts(pool, user_amount_a, user_amount_b, min_pool_tokens);
            lemma_remove_accounts(
                d.pool,
                d.minted,
                min_token_a,
                min_token_b,
                caller_share_balance,
            );
            let supply = pool.pool_share_supply as int;
            let ra = pool.reserve_a as int;
            let rb = pool.reserve_b as int;
            let amount_a = d.amount_a as int;
            let amount_b = d.amount_b as int;
            let minted = d.minted as int;
            let new_supply = supply + minted;
            let back_a = w.amount_a as int;
            let back_b = w.amount_b as int;
            lemma_mul_div_bounds(ra + amount_a, minted, new_supply);
            lemma_mul_div_bounds(rb + amount_b, minted, new_supply);
            if supply == 0 {
                lemma_mul_div_le(amount_a, minted, minted);
                lemma_mul_div_le(amount_b, minted, minted);
            } else {
                lemma_add_is_proportional(pool, user_amount_a, user_amount_b, min_pool_tokens);
                assert(back_a <= amount_a) by (nonlinear_arith)
                    requires
                        back_a * new_supply <= (ra + amount_a) * minted,
                        minted * ra <= supply * amount_a,
                        new_supply == supply + minted,
                        0 < new_supply,
                ;
                assert(back_b <= amount_b) by (nonlinear_arith)
                    requires
                        back_b * new_supply <= (rb + amount_b) * minted,
                        minted * rb < (amount_b + 1) * supply,
                        new_supply == supply + minted,
                        0 < new_supply,
                        0 <= minted,
                        0 <= amount_b,
                ;
            }
        }
    }
}

} // verus!
