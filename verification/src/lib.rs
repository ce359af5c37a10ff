//! Fill-orchestration engine for signed cross-chain exchange orders.
//!
//! The engine aggregates signed orders into per-chain fill obligations,
//! signs the resulting fills, sequences the fill and initiate transactions
//! so that a rollup fill is always mined before the initiates that depend
//! on it, encodes the transactions, assembles block-targeted bundles for a
//! relay, and judges the confirmation outcome of a fill attempt.

pub mod aggregate;
pub mod bundle;
pub mod confirm;
pub mod codec;
pub mod config;
pub mod encode;
pub mod errors;
pub mod fill;
pub mod pipeline;
pub mod sequence;
pub mod types;
