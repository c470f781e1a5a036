//! A registry of named, reservable resources: creation with unique names,
//! atomic partial updates, time-bounded leases and the sweep that reclaims
//! expired leases.
//!
//! - [`resource`]: the record and its lease-pairing rule.
//! - [`outcome`]: how a store's answers become two-level replies.
//! - [`update`]: patches, the statements they become, and the per-statement
//!   decisions of an update transaction.
//! - [`registry`]: an in-memory store with the exact effect of each operation.
//! - [`laws`]: properties that relate several operations.
pub mod laws;
pub mod outcome;
pub mod registry;
pub mod resource;
pub mod update;

pub use outcome::{
    create_outcome, delete_outcome, is_expired, sweep_report, Reply, RequestError, ServerError,
    StoreOutcome, SweepReport,
};
pub use registry::Registry;
pub use resource::{has_distinct_keys, Resource, ResourceCreateReq, ResourceDeleteReq, UnixTime};
pub use update::{after_statement, update_steps, Decision, FieldUpdate, ResourceUpdateReq};
