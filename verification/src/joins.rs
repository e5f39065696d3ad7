//! Inner joins over virtual tables.
pub mod attribution;
pub mod broadcast_join;
pub mod clauses;
pub mod dialects;
pub mod fallback;
pub mod plan;
pub mod planning;
pub mod rendering;
pub mod sql_builders;
