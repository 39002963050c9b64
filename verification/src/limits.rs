//! Protocol limits shared by the security subsystem.

use vstd::prelude::*;

verus! {

/// Burst capacity and refill rate (tokens per second) of the global message bucket.
pub const GLOBAL_MSG_PER_SEC: u32 = 100;

/// Rate (tokens per second) of the bucket for expensive messages such as attacks.
pub const EXPENSIVE_MSG_PER_SEC: u32 = 20;

/// Burst capacity of the mod channel bucket.
pub const MOD_CHANNEL_TOKENS: u32 = 32;

/// Refill rate (tokens per second) of the mod channel bucket.
pub const MOD_CHANNEL_REFILL_PER_SEC: u32 = 16;

/// Number of strikes after which a connection is dropped.
pub const STRIKES_BEFORE_DISCONNECT: u32 = 5;

/// Seconds without a new strike after which one strike is forgiven.
pub const STRIKES_DECAY_SECS: u32 = 30;

/// Seconds a connection may spend in the handshake.
pub const HANDSHAKE_TIMEOUT_SECS: u32 = 10;

/// Pending handshakes allowed per source address.
pub const MAX_PENDING_PER_SOURCE: usize = 4;

/// Cached payload hashes a client may announce.
pub const MAX_CACHED_PAYLOAD_HASHES: usize = 256;

/// Largest packet a client may send, in bytes.
pub const MAX_PACKET_BYTES: usize = 65536;

/// Chunks one payload transfer may have.
pub const MAX_CHUNKS_PER_TRANSFER: usize = 4096;

/// Seconds a sent chunk may wait for its acknowledgement.
pub const CHUNK_ACK_TIMEOUT_SECS: u64 = 30;

} // verus!
