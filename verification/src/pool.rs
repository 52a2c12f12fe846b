//! The state of one pool: the reserves of its two assets and the supply of
//! its shares.

use crate::asset::{same_asset, AssetId};
use vstd::prelude::*;

verus! {

/// One of the two assets of a pool.
#[derive(Clone, Copy, Debug, PartialEq, Eq, Structural)]
pub enum Side {
    A,
    B,
}

/// A constant-product pool over the assets `asset_a` and `asset_b`.
///
/// The amounts are in the smallest denomination of each asset. The pool is
/// never changed in place: every operation returns the state that follows.
#[derive(Clone, Copy, Debug, PartialEq, Eq)]
pub struct Pool {
    /// Identifier of asset A.
    pub asset_a: AssetId,
    /// Identifier of asset B.
    pub asset_b: AssetId,
    /// Balance of asset A held by the pool.
    pub reserve_a: u64,
    /// Balance of asset B held by the pool.
    pub reserve_b: u64,
    /// Total of the outstanding pool shares.
    pub pool_share_supply: u64,
}

impl Side {
    /// The opposite side.
    pub open spec fn spec_other(self) -> Side {
        match self {
            Side::A => Side::B,
            Side::B => Side::A,
        }
    }

    /// The opposite side.
    #[verifier::when_used_as_spec(spec_other)]
    pub fn other(self) -> (side: Side)
        ensures
            side == self.spec_other(),
    {
        match self {
            Side::A => Side::B,
            Side::B => Side::A,
        }
    }
}

impl Pool {
    /// While shares are outstanding, both reserves are positive.
    pub open spec fn wf(&self) -> bool {
        self.pool_share_supply > 0 ==> self.reserve_a > 0 && self.reserve_b > 0
    }

    /// The product of the two reserves, the quantity a swap never lowers.
    pub open spec fn product(&self) -> int {
        self.reserve_a * self.reserve_b
    }

    /// The side on which `asset` is traded; asset A where both sides carry
    /// the same identifier, and `None` for an asset that is not in the pool.
    pub open spec fn spec_side_of(&self, asset: AssetId) -> Option<Side> {
        if asset == self.asset_a {
            Some(Side::A)
        } else if asset == self.asset_b {
            Some(Side::B)
        } else {
            None
        }
    }

    /// The reserve held on `side`.
    pub open spec fn spec_reserve(&self, side: Side) -> u64 {
        match side {
            Side::A => self.reserve_a,
            Side::B => self.reserve_b,
        }
    }

    /// The pool with the reserve on `side` set to `reserve_in` and the other
    /// reserve set to `reserve_out`.
    pub open spec fn spec_with_reserves(&self, side: Side, reserve_in: u64, reserve_out: u64) -> Pool {
        match side {
            Side::A => Pool {
                asset_a: self.asset_a,
                asset_b: self.asset_b,
                reserve_a: reserve_in,
                reserve_b: reserve_out,
                pool_share_supply: self.pool_share_supply,
            },
            Side::B => Pool {
                asset_a: self.asset_a,
                asset_b: self.asset_b,
                reserve_a: reserve_out,
                reserve_b: reserve_in,
                pool_share_supply: self.pool_share_supply,
            },
        }
    }

    /// The identifier of the asset traded on `side`.
    pub open spec fn spec_asset(&self, side: Side) -> AssetId {
        match side {
            Side::A => self.asset_a,
            Side::B => self.asset_b,
        }
    }

    /// A pool that has never received a deposit.
    pub fn new(asset_a: AssetId, asset_b: AssetId) -> (pool: Pool)
        ensures
            pool == (Pool { asset_a, asset_b, reserve_a: 0, reserve_b: 0, pool_share_supply: 0 }),
            pool.wf(),
    {
        Pool { asset_a, asset_b, reserve_a: 0, reserve_b: 0, pool_share_supply: 0 }
    }

    /// Whether both reserves are positive whenever shares are outstanding.
    pub fn is_well_formed(&self) -> (ok: bool)
        ensures
            ok == self.wf(),
    {
        self.pool_share_supply == 0 || (self.reserve_a > 0 && self.reserve_b > 0)
    }

    /// The side on which `asset` is traded, if it is one of the pool's two.
    #[verifier::when_used_as_spec(spec_side_of)]
    pub fn side_of(&self, asset: AssetId) -> (side: Option<Side>)
        ensures
            side == self.spec_side_of(asset),
    {
        if same_asset(&asset, &self.asset_a) {
            Some(Side::A)
        } else if same_asset(&asset, &self.asset_b) {
            Some(Side::B)
        } else {
            None
        }
    }

    /// The identifier of the asset traded on `side`.
    #[verifier::when_used_as_spec(spec_asset)]
    pub fn asset(&self, side: Side) -> (id: AssetId)
        ensures
            id == self.spec_asset(side),
    {
        match side {
            Side::A => self.asset_a,
            Side::B => self.asset_b,
        }
    }

    /// The reserve held on `side`.
    #[verifier::when_used_as_spec(spec_reserve)]
    pub fn reserve(&self, side: Side) -> (amount: u64)
        ensures
            amount == self.spec_reserve(side),
    {
        match side {
            Side::A => self.reserve_a,
            Side::B => self.reserve_b,
        }
    }
}

} // verus!
