//! The job fan-out, pagination and schema-reconciliation core of a
//! multi-source data-extraction pipeline.
pub mod value;
pub mod schema;
pub mod reconcile;
pub mod paging;
pub mod jobs;
pub mod runner;
pub mod window;
pub mod config;
pub mod report;
pub mod templates;
pub mod storage;
