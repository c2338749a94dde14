//! The stale-record purger.
//!
//! * [`config`]: stale periods, poll cadence and the staleness rule.
//! * [`report`]: the records in the store and the archived artifact.
//! * [`store`]: the record store as the purger sees it, kept in memory.
//! * [`pass`]: one reconciliation pass as a state machine.
//! * [`safety`]: what holds of every run of a pass.
//! * [`scheduler`]: the poll loop as a state machine.

pub mod config;
pub mod pass;
pub mod report;
pub mod safety;
pub mod scheduler;
pub mod store;
