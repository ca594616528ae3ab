//! Per-address statistics over a stream of asset transfers.
//!
//! Quantities are signed integers in the smallest unit of account, so that
//! every total is exact and the aggregation is total over all inputs.

pub mod models;
pub mod ledger;
pub mod aggregate;
pub mod table;
pub mod pipeline;
pub mod laws;
pub mod clock;
pub mod generator;
pub mod schema;
