//! Mod payload synchronisation: the messages of the sync protocol and the
//! per-client sync session that decides what each client receives.

pub mod distribution;
pub mod pending_connection;
pub mod sync_protocol;
pub mod sync_session;
