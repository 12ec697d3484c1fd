//! Partitioned bulk loading: split a dataset among workers, cut each share
//! into batches, and follow every worker to its outcome.

pub mod batch;
pub mod config;
pub mod coordinator;
pub mod naming;
pub mod partition;
pub mod record;
pub mod report;
pub mod trace;
pub mod worker;
