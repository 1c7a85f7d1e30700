//! Verified core of the BranchMind storage layer.

pub mod branches;
pub mod clock;
pub mod conflict;
pub mod docs;
pub mod error;
pub mod graph;
pub mod graph_apply;
pub mod graph_cards;
pub mod graph_diff;
pub mod graph_merge;
pub mod graph_query;
pub mod graph_validate;
pub mod json;
pub mod model;
pub mod notes_merge;
pub mod num;
pub mod ops_history;
pub mod snapshot;
pub mod sources;
pub mod steps;
pub mod step_checkpoints;
pub mod store;
pub mod task_graph;
pub mod task_summary;
pub mod task_edits;
pub mod text;
pub mod think;

pub use error::StoreError;
