//! The messages and settings of mod payload synchronisation: the server's join
//! policy, its sync limits, and what server and client send each other.

use vstd::prelude::*;

verus! {

/// Which clients a modded server lets in.
#[derive(Debug, Clone, Copy, PartialEq, Eq, Structural)]
pub struct JoinPolicy {
    /// Clients without the mods' client payloads may join.
    pub allow_server_only: bool,
    /// The server offers to send client payloads.
    pub allow_payload_sync: bool,
    /// Clients must be able to receive payloads.
    pub require_payload_sync: bool,
}

/// Limits of payload transfers.
#[derive(Debug, Clone, Copy, PartialEq, Eq, Structural)]
pub struct SyncConfig {
    /// Largest total payload a client is sent, in MiB.
    pub max_payload_mb: u32,
    /// Size of one payload chunk, in KiB.
    pub chunk_size_kb: u32,
    /// Chunks sent ahead of the client's acknowledgement.
    pub max_inflight_chunks: u32,
    /// Longest a whole sync session may last, in seconds.
    pub transfer_timeout_secs: u32,
}

impl SyncConfig {
    /// The payload limit in bytes.
    pub open spec fn spec_max_payload_bytes(self) -> u64 {
        (self.max_payload_mb as int * 1024 * 1024) as u64
    }

    /// The chunk size in bytes.
    pub open spec fn spec_chunk_size_bytes(self) -> u64 {
        (self.chunk_size_kb as int * 1024) as u64
    }

    /// The payload limit in bytes.
    pub fn max_payload_bytes(&self) -> (n: u64)
        ensures
            n == self.spec_max_payload_bytes(),
            n == self.max_payload_mb as int * 1024 * 1024,
    {
        self.max_payload_mb as u64 * 1024 * 1024
    }

    /// The chunk size in bytes.
    pub fn chunk_size_bytes(&self) -> (n: u64)
        ensures
            n == self.spec_chunk_size_bytes(),
            n == self.chunk_size_kb as int * 1024,
    {
        self.chunk_size_kb as u64 * 1024
    }
}

/// Why a client's mod sync was refused or failed.
#[derive(Debug, Clone, Copy, PartialEq, Eq, Structural)]
pub enum ModSyncRejectReason {
    /// The server refused the client.
    ClientRejected,
    /// The transfer took too long or could not go on.
    Timeout,
    /// The client found the payload's hash wrong.
    HashMismatch,
}

/// The join policy as sent to clients.
#[derive(Debug, Clone, Copy, PartialEq, Eq, Structural)]
pub struct ModJoinPolicy {
    pub allow_server_only: bool,
    pub allow_payload_sync: bool,
    pub require_payload_sync: bool,
}

/// One mod as announced to clients.
#[derive(Debug, Clone)]
pub struct ModDescriptor {
    pub id: String,
    pub version: String,
    pub client_payload_hash: Option<String>,
    pub client_payload_size: u64,
    pub has_network_channels: bool,
}

/// The server's mods, their total payload size and its join policy.
#[derive(Debug, Clone)]
pub struct ModSetDescriptor {
    pub mods: Vec<ModDescriptor>,
    pub total_payload_size: u64,
    pub policy: ModJoinPolicy,
}

/// The client's answer to the mod set.
#[derive(Debug, Clone)]
pub struct ModSetResponse {
    /// The client can receive payloads.
    pub supports_sync: bool,
    /// Hashes of the payloads the client already holds.
    pub cached_hashes: Vec<String>,
    /// The client's engine version.
    pub engine_version: Option<String>,
}

/// Whether a client may join, and which mods it must be sent.
#[derive(Debug, Clone)]
pub struct JoinDecision {
    pub allowed: bool,
    pub rejection_reason: Option<String>,
    pub mods_to_sync: Vec<String>,
}

/// What a join decision says.
pub struct JoinDecisionView {
    pub allowed: bool,
    pub rejection_reason: Option<Seq<char>>,
    pub mods_to_sync: Seq<Seq<char>>,
}

impl View for JoinDecision {
    type V = JoinDecisionView;

    open spec fn view(&self) -> JoinDecisionView {
        JoinDecisionView {
            allowed: self.allowed,
            rejection_reason: match self.rejection_reason {
                Some(r) => Some(r@),
                None => None,
            },
            mods_to_sync: self.mods_to_sync@.map_values(|s: String| s@),
        }
    }
}

/// Announces the transfer of one mod's payload.
#[derive(Debug, Clone)]
pub struct PayloadBegin {
    pub mod_id: String,
    pub total_size: u64,
    pub chunk_count: u32,
    pub sha256: String,
}

/// One chunk of a payload.
#[derive(Debug, Clone)]
pub struct PayloadChunk {
    pub mod_id: String,
    pub chunk_index: u32,
    pub data: Vec<u8>,
}

/// The client acknowledges the chunks of a payload up to an index.
#[derive(Debug, Clone)]
pub struct PayloadAck {
    pub mod_id: String,
    pub last_chunk_index: u32,
    pub complete: bool,
}

/// Closes the transfer of one mod's payload.
#[derive(Debug, Clone)]
pub struct PayloadEnd {
    pub mod_id: String,
    pub success: bool,
    pub error: Option<String>,
}

} // verus!
