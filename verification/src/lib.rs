//! A small DNS convergence library.
//!
//! The library keeps one (domain, record name, record type) triple of DNS
//! records in step with the public addresses of a tagged group of compute
//! instances. Its heart is a pure reconciliation pass: given the desired
//! address set and the records that exist, it computes which records to
//! create and which to delete. Around that sit a report builder for the
//! apply phase and a control state machine for the periodic loop; all I/O
//! stays with the caller.

pub mod config;
pub mod control;
pub mod cycle;
pub mod errors;
pub mod instances;
pub mod laws;
pub mod reconcile;
pub mod records;
pub mod report;
