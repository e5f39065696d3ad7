//! Grouped aggregation: partial results per shard, merged by the reading engine.
pub mod detection;
pub mod having;
pub mod key_types;
pub mod order;
pub mod partials;
pub mod wrapper;
