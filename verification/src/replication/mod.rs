//! Replication bookkeeping: the buffer of game events that clients are sent.

pub mod events;
pub mod snapshot;
