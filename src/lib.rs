//! A ledger of unique, indivisible assets ("commodities") owned by accounts.
//!
//! Each asset is identified by a digest of its descriptive payload. The
//! registry mints, burns and transfers assets while keeping five indices
//! mutually consistent: the live total, the burned total, a per-account
//! count, a per-account collection sorted by identifier, and a reverse index
//! from identifier to owner.

pub mod types;
pub mod sum;
pub mod model;
pub mod search;
pub mod steps;
pub mod registry;
pub mod dispatch;
pub mod laws;

pub use registry::Registry;
pub use types::{AccountId, Asset, AssetId, Error, Event, NULL_ACCOUNT};
