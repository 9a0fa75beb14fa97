//! The issue data model and the contract under which issues are loaded.

pub mod db;
pub mod models;
pub mod snapshot;

pub use db::{BeadsDb, IssueRow, StoreError};
pub use models::{
    default_priority, BdIssue, Blocking, BlockingView, Issue, IssueType, IssueView, Priority, Status,
};
pub use snapshot::{arrange, find_by_id, load_records};
