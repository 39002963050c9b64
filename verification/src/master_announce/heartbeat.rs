//! Heartbeat payloads for master server announcements, and the shared player
//! count that the heartbeat reports.

use vstd::prelude::*;

use std::sync::Arc;
use std::sync::atomic::AtomicU8;

use super::config::{MasterConfig, copy_strings, strings_view};

verus! {

/// Heartbeat request payload sent to the master server.
#[derive(Debug, Clone)]
pub struct HeartbeatRequest {
    pub name: String,
    pub host: String,
    pub port: u16,
    pub region: String,
    pub tags: Vec<String>,
    pub player_count: u8,
    pub max_players: u8,
    pub game_modes: Vec<String>,
    pub protocol_version: String,
}

/// Heartbeat response from the master server.
#[derive(Debug, Clone)]
pub struct HeartbeatResponse {
    pub server_id: String,
    pub ttl_secs: u64,
}

/// Build the heartbeat payload announcing this server: its name, region, tags
/// and modes from the configuration, its address, its player counts and the
/// protocol version.
pub fn build_request(
    config: &MasterConfig,
    host: &str,
    port: u16,
    player_count: u8,
    max_players: u8,
    protocol_version: &str,
) -> (r: HeartbeatRequest)
    ensures
        r.name@ == config.name@,
        r.host@ == host@,
        r.port == port,
        r.region@ == config.region@,
        strings_view(r.tags@) == strings_view(config.tags@),
        r.player_count == player_count,
        r.max_players == max_players,
        strings_view(r.game_modes@) == strings_view(config.game_modes@),
        r.protocol_version@ == protocol_version@,
{
    HeartbeatRequest {
        name: config.name.clone(),
        host: crate::text::owned(host),
        port,
        region: config.region.clone(),
        tags: copy_strings(&config.tags),
        player_count,
        max_players,
        game_modes: copy_strings(&config.game_modes),
        protocol_version: crate::text::owned(protocol_version),
    }
}

/// Shared state for player count updates.
///
/// The count is shared between the game loop and the heartbeat task through an
/// atomic; what a read returns depends on the writes of every holder.
#[derive(Debug)]
pub struct HeartbeatState {
    player_count: AtomicU8,
}

impl HeartbeatState {
    /// Create new heartbeat state, shared, with a player count of zero.
    pub fn new() -> Arc<HeartbeatState> {
        Arc::new(HeartbeatState { player_count: AtomicU8::new(0) })
    }

    /// Update the current player count.
    pub fn set_player_count(&self, count: u8) {
        self.player_count.store(count, std::sync::atomic::Ordering::Relaxed);
    }

    /// Get the current player count.
    pub fn get_player_count(&self) -> u8 {
        self.player_count.load(std::sync::atomic::Ordering::Relaxed)
    }
}

impl Default for HeartbeatState {
    fn default() -> HeartbeatState {
        HeartbeatState { player_count: AtomicU8::new(0) }
    }
}

} // verus!
