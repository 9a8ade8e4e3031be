//! Harvesting of a match-history feed into per-hero bitmask buckets: the rate
//! governor, the roster transform, the fan-out index, the decisions of the
//! polling loop, and the subset query that reads the store back.
pub mod collector;
pub mod index;
pub mod laws;
pub mod mask;
pub mod query;
pub mod rate;
