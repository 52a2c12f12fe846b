use anchor_lang::prelude::Pubkey;
use paypeer::{Pool, Side};

fn key(byte: u8) -> Pubkey {
    Pubkey::new_from_array([byte; 32])
}

#[test]
fn new_pool_is_empty_and_well_formed() {
    let pool = Pool::new(key(1), key(2));
    assert_eq!(pool.asset_a, key(1));
    assert_eq!(pool.asset_b, key(2));
    assert_eq!(pool.reserve_a, 0);
    assert_eq!(pool.reserve_b, 0);
    assert_eq!(pool.pool_share_supply, 0);
    assert!(pool.is_well_formed());
}

#[test]
fn well_formed_means_positive_reserves_under_shares() {
    let with = |reserve_a: u64, reserve_b: u64, pool_share_supply: u64| Pool {
        asset_a: key(1),
        asset_b: key(2),
        reserve_a,
        reserve_b,
        pool_share_supply,
    };
    assert!(with(1, 1, 1).is_well_formed());
    assert!(with(0, 5, 0).is_well_formed());
    assert!(with(5, 0, 0).is_well_formed());
    assert!(!with(0, 5, 1).is_well_formed());
    assert!(!with(5, 0, 1).is_well_formed());
    assert!(!with(0, 0, 1).is_well_formed());
}

#[test]
fn side_of_tells_the_two_assets_and_strangers_apart() {
    let pool = Pool::new(key(1), key(2));
    assert_eq!(pool.side_of(key(1)), Some(Side::A));
    assert_eq!(pool.side_of(key(2)), Some(Side::B));
    assert_eq!(pool.side_of(key(3)), None);
}

#[test]
fn side_of_compares_every_byte_of_the_key() {
    let mut bytes = [7u8; 32];
    let pool = Pool::new(Pubkey::new_from_array(bytes), key(2));
    bytes[31] = 8;
    assert_eq!(pool.side_of(Pubkey::new_from_array(bytes)), None);
    bytes[31] = 7;
    assert_eq!(pool.side_of(Pubkey::new_from_array(bytes)), Some(Side::A));
}

#[test]
fn side_of_prefers_asset_a_when_both_sides_are_one_asset() {
    let pool = Pool::new(key(9), key(9));
    assert_eq!(pool.side_of(key(9)), Some(Side::A));
}

#[test]
fn reserve_and_asset_follow_the_side() {
    let pool = Pool {
        asset_a: key(1),
        asset_b: key(2),
        reserve_a: 10,
        reserve_b: 20,
        pool_share_supply: 14,
    };
    assert_eq!(pool.reserve(Side::A), 10);
    assert_eq!(pool.reserve(Side::B), 20);
    assert_eq!(pool.asset(Side::A), key(1));
    assert_eq!(pool.asset(Side::B), key(2));
    assert_eq!(Side::A.other(), Side::B);
    assert_eq!(Side::B.other(), Side::A);
}
