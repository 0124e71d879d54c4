//! Price oracle pallets: an off-chain-worker price oracle that collects
//! per-round price submissions from approved feeders and aggregates them,
//! and a price pallet that serves oracle prices with emergency overrides.
//!
//! The on-chain storage of each pallet is modelled by a state struct
//! (`ocw_oracle::Pallet`, `prices::Pallet`); every dispatchable call and hook
//! is a verified method on that state.

mod wrappers;

pub mod types;
pub mod table;
pub mod util;
pub mod data_source;
pub mod aggregation_strategy;
pub mod ocw_oracle;
pub mod prices;
pub mod laws;
