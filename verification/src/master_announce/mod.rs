//! Announcing this server to a master server: the configuration and the
//! heartbeat payload.

pub mod config;
pub mod heartbeat;

pub use config::MasterConfig;
pub use heartbeat::{HeartbeatRequest, HeartbeatResponse, HeartbeatState};
