//! The core of an exchange for pairs of assets: a registry that keeps one
//! pool per pair, and the pool, which keeps the reserves of its two assets,
//! issues shares to those who deposit, and lets no trade lower the product
//! of the reserves.
//!
//! Nothing here calls out or reads a clock. What an operation needs to know
//! of the world (who calls, what time it is, what balances the assets
//! report, the address of a pool that was deployed) it takes as arguments,
//! and what is to be done in the world (what to deploy, what to pay out,
//! what to announce) it returns.

#![allow(non_snake_case)]

pub mod account;
pub mod balances;
pub mod factory;
pub mod ledger;
pub mod math;
pub mod pair;
pub mod router;

pub use self::account::AccountId;
pub use self::factory::Factory;
pub use self::pair::Pair;
pub use self::router::Router;

use vstd::prelude::*;

verus! {

/// An amount of an asset or of pool shares.
pub type Balance = u128;

/// A point in time, as the surrounding system counts it.
pub type Timestamp = u64;

} // verus!
