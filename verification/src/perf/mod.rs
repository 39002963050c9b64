//! Performance bookkeeping: reusable buffers and pools, profiling scenarios,
//! configuration errors and report metadata.

pub mod allocation;
pub mod config;
pub mod reporter;
pub mod scenarios;
