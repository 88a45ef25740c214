//! A registry of collateral prices.
//!
//! The registry keeps one price per registered resource, accepts attested
//! price updates that advance an entry's timestamp, and derives the price of
//! a liquidity-pool share from the base asset's price and the pool's
//! valuation per share.

pub mod amount;
pub mod entry;
pub mod laws;
pub mod model;
pub mod registry;
pub mod resource;

pub use crate::amount::Amount;
pub use crate::entry::{
    Caller, OracleError, PoolValuation, PriceEntry, PriceMessage, UpdateStep,
};
pub use crate::registry::{derived_price, Oracle};
pub use crate::resource::ResourceId;
