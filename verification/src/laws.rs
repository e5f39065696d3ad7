//! What holds of the planner as a whole.
pub mod attribution;
pub mod broadcasts;
pub mod columns;
pub mod conditions;
pub mod counting;
pub mod detections;
pub mod documents;
pub mod filters;
pub mod grouped;
pub mod join_queries;
pub mod join_trees;
pub mod merges;
pub mod models;
pub mod narrowings;
pub mod planning;
pub mod qualifications;
pub mod refusals;
pub mod responses;
pub mod row_limits;
pub mod sort_orders;
pub mod texts;
pub mod trees;
pub mod type_names;
