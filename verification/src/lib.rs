//! Query planning for a lakehouse virtual schema.
pub mod aggregates;
pub mod error;
pub mod grouped_agg;
pub mod handed;
pub mod joins;
pub mod json;
pub mod json_text;
pub mod laws;
pub mod ordering;
pub mod scan;
pub mod text;
pub mod tree;
pub mod types;
