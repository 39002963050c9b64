//! World persistence: auto-save scheduling.

pub mod scheduler;
