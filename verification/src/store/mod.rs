//! The branch / commit / merge store: the decisions it makes around its SQL statements.

pub mod error;

pub use error::StoreError;
pub mod anchors;
pub mod anchor_upsert;
pub mod anchor_reads;
pub mod anchor_cycles;
pub mod anchor_rename;
pub mod anchor_links;
pub mod knowledge_keys;
pub mod fields;
pub mod jobs;
pub mod job_artifacts;
pub mod plan_slices;
pub mod portal_cursors;
pub mod job_lifecycle;
pub mod job_reads;
pub mod radar;
pub mod job_bus;
pub mod thread_laws;
pub mod runners;
pub mod anchors_merge;
pub mod anchors_lint;
pub mod branch_store;
pub mod requests;

pub use requests::{
    AppendCommitRequest, CreateBranchRequest, CreateMergeRecordRequest, DeleteBranchRequest,
    ListBranchesRequest, ListMergeRecordsRequest, ShowCommitRequest,
};
