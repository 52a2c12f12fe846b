use anchor_lang::prelude::Pubkey;
use paypeer::{
    add_liquidity, remove_liquidity, AddError, AddResult, Pool, RemoveError, RemoveResult,
};

fn asset_a() -> Pubkey {
    Pubkey::new_from_array([1u8; 32])
}

fn asset_b() -> Pubkey {
    Pubkey::new_from_array([2u8; 32])
}

fn pool_of(reserve_a: u64, reserve_b: u64, pool_share_supply: u64) -> Pool {
    Pool { asset_a: asset_a(), asset_b: asset_b(), reserve_a, reserve_b, pool_share_supply }
}

#[test]
fn first_deposit_takes_both_amounts_and_mints_the_root_of_their_product() {
    let empty = Pool::new(asset_a(), asset_b());
    assert_eq!(
        add_liquidity(&empty, 3, 5, 0),
        Ok(AddResult { pool: pool_of(3, 5, 3), amount_a: 3, amount_b: 5, minted: 3 })
    );
    assert_eq!(
        add_liquidity(&empty, u64::MAX, u64::MAX, u64::MAX),
        Ok(AddResult {
            pool: pool_of(u64::MAX, u64::MAX, u64::MAX),
            amount_a: u64::MAX,
            amount_b: u64::MAX,
            minted: u64::MAX,
        })
    );
}

#[test]
fn first_deposit_of_one_asset_alone_mints_nothing() {
    let empty = Pool::new(asset_a(), asset_b());
    assert_eq!(
        add_liquidity(&empty, 0, 5, 0),
        Ok(AddResult { pool: pool_of(0, 5, 0), amount_a: 0, amount_b: 5, minted: 0 })
    );
    assert_eq!(add_liquidity(&empty, 0, 5, 1), Err(AddError::SlippageExceeded));
}

#[test]
fn deposit_is_capped_to_the_ratio_of_the_reserves() {
    let pool = pool_of(1000, 4000, 2000);
    let expected =
        Ok(AddResult { pool: pool_of(1100, 4400, 2200), amount_a: 100, amount_b: 400, minted: 200 });
    // asset B is offered in excess
    assert_eq!(add_liquidity(&pool, 100, 1000, 0), expected);
    // asset A is offered in excess
    assert_eq!(add_liquidity(&pool, 500, 400, 0), expected);
    // both are offered at the ratio
    assert_eq!(add_liquidity(&pool, 100, 400, 200), expected);
}

#[test]
fn deposit_floors_the_capped_amount_and_the_shares() {
    assert_eq!(
        add_liquidity(&pool_of(3, 7, 5), 2, 100, 0),
        Ok(AddResult { pool: pool_of(5, 11, 8), amount_a: 2, amount_b: 4, minted: 3 })
    );
    assert_eq!(
        add_liquidity(&pool_of(123_456_789, 987_654_321, 555_555_555), 1_000_000_000, 1_000_000_000, 0),
        Ok(AddResult {
            pool: pool_of(248_456_787, 1_987_654_321, 1_118_055_550),
            amount_a: 124_999_998,
            amount_b: 1_000_000_000,
            minted: 562_499_995,
        })
    );
}

#[test]
fn deposit_is_exact_over_the_full_64_bit_range() {
    let pool = pool_of(1000, 4000, 2000);
    assert_eq!(
        add_liquidity(&pool, u64::MAX, u64::MAX - 4000, 0),
        Ok(AddResult {
            pool: pool_of(4611686018427387903, u64::MAX, 9223372036854775806),
            amount_a: 4611686018427386903,
            amount_b: u64::MAX - 4000,
            minted: 9223372036854773806,
        })
    );
    assert_eq!(add_liquidity(&pool, u64::MAX, u64::MAX - 3999, 0), Err(AddError::Overflow));
}

#[test]
fn deposit_rejects_fewer_shares_than_the_minimum() {
    let pool = pool_of(1000, 4000, 2000);
    assert_eq!(add_liquidity(&pool, 100, 400, 201), Err(AddError::SlippageExceeded));
    assert_eq!(add_liquidity(&pool, 100, 400, 200).unwrap().minted, 200);
    let empty = Pool::new(asset_a(), asset_b());
    assert_eq!(add_liquidity(&empty, 1000, 4000, 2001), Err(AddError::SlippageExceeded));
}

#[test]
fn deposit_rejects_a_pool_with_shares_and_an_empty_reserve() {
    assert_eq!(add_liquidity(&pool_of(0, 4000, 2000), 10, 10, 0), Err(AddError::EmptyPool));
    assert_eq!(add_liquidity(&pool_of(1000, 0, 2000), 10, 10, 0), Err(AddError::EmptyPool));
    assert_eq!(add_liquidity(&pool_of(0, 0, 1), 0, 0, u64::MAX), Err(AddError::EmptyPool));
}

#[test]
fn deposit_rejects_balances_beyond_64_bits() {
    // reserve of asset A
    assert_eq!(add_liquidity(&pool_of(u64::MAX, 1, 0), 1, 1, 0), Err(AddError::Overflow));
    // reserve of asset B
    assert_eq!(add_liquidity(&pool_of(1, u64::MAX, 0), 1, 1, 0), Err(AddError::Overflow));
    // share supply: the shares alone would be twice the supply
    assert_eq!(add_liquidity(&pool_of(1, 1, u64::MAX), 2, 2, 0), Err(AddError::Overflow));
    // share supply: the sum passes the range by one
    assert_eq!(add_liquidity(&pool_of(2, 2, u64::MAX), 1, 1, 0), Err(AddError::Overflow));
    // slippage is reported first
    assert_eq!(add_liquidity(&pool_of(u64::MAX, 1, 0), 1, 1, 2), Err(AddError::SlippageExceeded));
}

#[test]
fn deposit_takes_one_offer_in_full_and_stays_within_both() {
    let pools = [pool_of(1000, 4000, 2000), pool_of(3, 7, 5), pool_of(10, 19, 10), pool_of(7, 1, 3)];
    let offers: [(u64, u64); 6] = [(0, 0), (1, 1), (5, 100), (100, 5), (17, 31), (1000, 999)];
    for pool in pools {
        for (offer_a, offer_b) in offers {
            let done = add_liquidity(&pool, offer_a, offer_b, 0).unwrap();
            assert!(done.amount_a <= offer_a && done.amount_b <= offer_b);
            assert!(done.amount_a == offer_a || done.amount_b == offer_b);
            // the ratio of the reserves, to within one unit
            let (a, b) = (done.amount_a as u128, done.amount_b as u128);
            let (ra, rb) = (pool.reserve_a as u128, pool.reserve_b as u128);
            let (minted, supply) = (done.minted as u128, pool.pool_share_supply as u128);
            assert!(a * rb < (b + 1) * ra);
            assert!(b * ra < (a + 1) * rb);
            assert!(minted * ra <= supply * a && supply * a < (minted + 1) * ra);
            assert!(done.pool.is_well_formed());
        }
    }
}

#[test]
fn redemption_pays_the_floored_part_of_each_reserve() {
    let pool = pool_of(1100, 3637, 2000);
    assert_eq!(
        remove_liquidity(&pool, 500, 0, 0, 500),
        Ok(RemoveResult { pool: pool_of(825, 2728, 1500), amount_a: 275, amount_b: 909, burned: 500 })
    );
    assert_eq!(
        remove_liquidity(&pool, 1, 0, 1, 2000),
        Ok(RemoveResult { pool: pool_of(1100, 3636, 1999), amount_a: 0, amount_b: 1, burned: 1 })
    );
    assert_eq!(
        remove_liquidity(&pool, 1999, 1099, 3635, 1999),
        Ok(RemoveResult { pool: pool_of(1, 2, 1), amount_a: 1099, amount_b: 3635, burned: 1999 })
    );
}

#[test]
fn redemption_of_nothing_changes_nothing() {
    let pool = pool_of(1100, 3637, 2000);
    assert_eq!(
        remove_liquidity(&pool, 0, 0, 0, 0),
        Ok(RemoveResult { pool, amount_a: 0, amount_b: 0, burned: 0 })
    );
}

#[test]
fn redemption_is_exact_over_the_full_64_bit_range() {
    let pool = pool_of(u64::MAX, u64::MAX - 1, u64::MAX);
    assert_eq!(
        remove_liquidity(&pool, u64::MAX - 1, 0, 0, u64::MAX),
        Ok(RemoveResult {
            pool: pool_of(1, 1, 1),
            amount_a: u64::MAX - 1,
            amount_b: u64::MAX - 2,
            burned: u64::MAX - 1,
        })
    );
}

#[test]
fn redemption_rejects_more_shares_than_the_caller_holds() {
    let pool = pool_of(1100, 3637, 2000);
    assert_eq!(remove_liquidity(&pool, 501, 0, 0, 500), Err(RemoveError::InsufficientShares));
    // reported before the empty pool
    let empty = Pool::new(asset_a(), asset_b());
    assert_eq!(remove_liquidity(&empty, 1, 0, 0, 0), Err(RemoveError::InsufficientShares));
}

#[test]
fn redemption_rejects_a_pool_without_shares() {
    let empty = Pool::new(asset_a(), asset_b());
    assert_eq!(remove_liquidity(&empty, 0, 0, 0, 0), Err(RemoveError::EmptyPool));
    assert_eq!(remove_liquidity(&empty, 5, 0, 0, 5), Err(RemoveError::EmptyPool));
    assert_eq!(remove_liquidity(&pool_of(10, 10, 0), 5, 0, 0, 9), Err(RemoveError::EmptyPool));
}

#[test]
fn redemption_rejects_an_amount_below_its_minimum() {
    let pool = pool_of(1100, 3637, 2000);
    assert_eq!(remove_liquidity(&pool, 500, 276, 0, 500), Err(RemoveError::SlippageExceeded));
    assert_eq!(remove_liquidity(&pool, 500, 0, 910, 500), Err(RemoveError::SlippageExceeded));
    assert_eq!(remove_liquidity(&pool, 500, 275, 909, 500).unwrap().amount_b, 909);
}

#[test]
fn redemption_rejects_more_shares_than_are_outstanding() {
    let pool = pool_of(1100, 3637, 2000);
    assert_eq!(remove_liquidity(&pool, 2001, 0, 0, 2001), Err(RemoveError::Underflow));
    assert_eq!(remove_liquidity(&pool, u64::MAX, 0, 0, u64::MAX), Err(RemoveError::Underflow));
    // slippage is reported first
    assert_eq!(
        remove_liquidity(&pool, 2001, u64::MAX, 0, 2001),
        Err(RemoveError::SlippageExceeded)
    );
}

#[test]
fn redemption_pays_in_proportion_to_the_shares_burned() {
    let pools = [pool_of(1100, 3637, 2000), pool_of(3, 7, 5), pool_of(15, 28, 15), pool_of(7, 1, 3)];
    for pool in pools {
        for burned in 0..=pool.pool_share_supply.min(40) {
            let done = remove_liquidity(&pool, burned, 0, 0, burned).unwrap();
            let (a, b) = (done.amount_a as u128, done.amount_b as u128);
            let (ra, rb) = (pool.reserve_a as u128, pool.reserve_b as u128);
            let (t, supply) = (burned as u128, pool.pool_share_supply as u128);
            assert!(a * supply <= ra * t && ra * t < (a + 1) * supply);
            assert!(b * supply <= rb * t && rb * t < (b + 1) * supply);
            assert!(a * rb < (b + 1) * ra);
            assert!(b * ra < (a + 1) * rb);
            assert!(done.pool.is_well_formed());
        }
    }
}

#[test]
fn deposit_then_redemption_pays_no_more_than_was_deposited() {
    let pools = [
        Pool::new(asset_a(), asset_b()),
        pool_of(1000, 4000, 2000),
        pool_of(3, 7, 5),
        pool_of(10, 19, 10),
        pool_of(7, 1, 3),
        pool_of(1, 1000, 999_999),
    ];
    let offers: [(u64, u64); 7] =
        [(1, 1), (5, 100), (100, 5), (17, 31), (1000, 999), (3, 3), (123_456, 654_321)];
    for pool in pools {
        for (offer_a, offer_b) in offers {
            let put = add_liquidity(&pool, offer_a, offer_b, 0).unwrap();
            if put.pool.pool_share_supply > 0 {
                let got = remove_liquidity(&put.pool, put.minted, 0, 0, put.minted).unwrap();
                assert!(got.amount_a <= put.amount_a);
                assert!(got.amount_b <= put.amount_b);
            }
        }
    }
}

#[test]
fn deposit_then_redemption_can_lose_to_rounding() {
    let put = add_liquidity(&pool_of(3, 7, 5), 2, 100, 0).unwrap();
    assert_eq!((put.amount_a, put.amount_b, put.minted), (2, 4, 3));
    let got = remove_liquidity(&put.pool, 3, 0, 0, 3).unwrap();
    assert_eq!((got.amount_a, got.amount_b), (1, 4));
}

#[test]
fn first_shares_of_a_pool_with_reserves_redeem_them_too() {
    let put = add_liquidity(&pool_of(5, 5, 0), 10, 10, 0).unwrap();
    assert_eq!(put.minted, 10);
    let got = remove_liquidity(&put.pool, 10, 0, 0, 10).unwrap();
    assert_eq!((got.amount_a, got.amount_b), (15, 15));
}
