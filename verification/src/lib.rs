//! A two-asset constant-product liquidity pool.
//!
//! The pool holds a reserve of each of two assets and issues shares against
//! them. Three operations change it: [`swap`] trades one asset for the other,
//! [`add_liquidity`] deposits both for new shares, and [`remove_liquidity`]
//! redeems shares for both. Each is a function from the pool and the request
//! to the pool that follows and the transfers to make, or to a rejection; the
//! transfers themselves are left to the caller's ledger.

pub mod asset;
pub mod deposit;
pub mod math;
pub mod pool;
pub mod round_trip;
pub mod swap;
pub mod withdraw;

pub use asset::AssetId;
pub use deposit::{add_liquidity, AddError, AddResult};
pub use pool::{Pool, Side};
pub use swap::{swap, SwapError, SwapResult};
pub use withdraw::{remove_liquidity, RemoveError, RemoveResult};
