//! Pending mod connection tracking
//!
//! Tracks clients that have passed initial validation but are waiting
//! for mod handshake to complete before being admitted to the game.

use vstd::prelude::*;

use crate::clock;
use crate::mods::sync_protocol::{JoinDecision, JoinPolicy, ModSetResponse, ModSyncRejectReason, PayloadAck, SyncConfig};
use crate::mods::sync_session::{
    ack_overflows, after_ack, after_response, mods_view, opt_str_view, response_sets_up, total_size, ModInfo,
    SyncSession, SyncSessionView, SyncState,
};
use crate::master_announce::config::strings_view;
use crate::protocol::{SessionId, TeamId};
use crate::security::handshake::SourceAddr;

verus! {

/// Seconds a connection may wait for its mod handshake.
pub const PENDING_TIMEOUT_SECS: u64 = 30;

/// A connection pending mod handshake completion
pub struct PendingModConnection {
    /// Client address
    pub addr: SourceAddr,
    /// Requested player name
    pub name: String,
    /// Assigned display name (after validation)
    pub display_name: String,
    /// Assigned team
    pub team: TeamId,
    /// Session ID
    pub session_id: SessionId,
    /// Mod sync session
    pub sync_session: SyncSession,
    /// When this pending connection was created
    pub created_at: std::time::Instant,
}

impl PendingModConnection {
    /// Create a new pending connection, with a fresh sync session.
    pub fn new(
        addr: SourceAddr,
        name: String,
        display_name: String,
        team: TeamId,
        session_id: SessionId,
        join_policy: JoinPolicy,
        sync_config: SyncConfig,
        mods_with_payloads: Vec<ModInfo>,
    ) -> (p: PendingModConnection)
        requires
            total_size(mods_view(mods_with_payloads@)) <= u64::MAX,
        ensures
            p.addr == addr,
            p.name == name,
            p.display_name == display_name,
            p.team == team,
            p.session_id == session_id,
            p.sync_session.wf(),
            p.sync_session@.state == SyncState::AwaitingCapabilities,
            p.sync_session@.policy == join_policy,
            p.sync_session@.config == sync_config,
            p.sync_session@.mods == mods_view(mods_with_payloads@),
    {
        let sync_session = SyncSession::new(join_policy, sync_config, mods_with_payloads);
        PendingModConnection {
            addr,
            name,
            display_name,
            team,
            session_id,
            sync_session,
            created_at: clock::now(),
        }
    }

    /// Handle receiving ModSetResponse from client.
    /// Returns the JoinDecision to send back
    pub fn handle_response(&mut self, response: ModSetResponse) -> (d: JoinDecision)
        requires
            old(self).sync_session.wf(),
            old(self).sync_session@.config.chunk_size_kb > 0 || !response_sets_up(
                old(self).sync_session@,
                response.supports_sync,
                strings_view(response.cached_hashes@),
            ),
        ensures
            final(self).sync_session.wf(),
            (final(self).sync_session@, d@) == after_response(
                old(self).sync_session@,
                response.supports_sync,
                strings_view(response.cached_hashes@),
            ),
    {
        self.sync_session.handle_response(response)
    }

    /// Handle PayloadAck from client
    pub fn handle_payload_ack(&mut self, ack: PayloadAck)
        requires
            old(self).sync_session.wf(),
            !ack_overflows(old(self).sync_session@, ack.mod_id@, ack.last_chunk_index, ack.complete),
        ensures
            final(self).sync_session.wf(),
            final(self).sync_session@ == after_ack(
                old(self).sync_session@,
                ack.mod_id@,
                ack.last_chunk_index,
                ack.complete,
            ).0,
    {
        let _ = self.sync_session.handle_ack(ack);
    }

    /// Handle client confirming payload complete: a failed verification fails
    /// the sync.
    pub fn handle_payload_complete(&mut self, mod_id: &str, success: bool, error: Option<&str>)
        ensures
            final(self).sync_session@ == if success {
                old(self).sync_session@
            } else {
                SyncSessionView {
                    state: SyncState::Failed,
                    failure_reason: Some(ModSyncRejectReason::HashMismatch),
                    failure_message: opt_str_view(error),
                    ..old(self).sync_session@
                }
            },
    {
        self.sync_session.handle_payload_complete(mod_id, success, error);
    }

    /// Check if handshake is complete (ready to join game)
    pub fn is_ready_to_join(&self) -> (b: bool)
        ensures
            b == (self.sync_session@.state == SyncState::Complete),
    {
        self.sync_session.state() == SyncState::Complete
    }

    /// Check if handshake failed
    pub fn is_failed(&self) -> (b: bool)
        ensures
            b == (self.sync_session@.state == SyncState::Failed),
    {
        self.sync_session.state() == SyncState::Failed
    }

    /// Whether a connection pending for `elapsed_secs` whole seconds has timed out.
    pub fn is_timed_out_after(&self, elapsed_secs: u64) -> (b: bool)
        ensures
            b == (elapsed_secs > PENDING_TIMEOUT_SECS),
    {
        elapsed_secs > PENDING_TIMEOUT_SECS
    }

    /// Check if connection has timed out (30 seconds)
    pub fn is_timed_out(&self) -> bool {
        self.is_timed_out_after(clock::secs_since(&self.created_at))
    }

    /// Get sync session state
    pub fn sync_state(&self) -> (s: SyncState)
        ensures
            s == self.sync_session@.state,
    {
        self.sync_session.state()
    }

    /// Get failure info if failed
    pub fn failure_info(&self) -> (r: Option<(ModSyncRejectReason, String)>)
        ensures
            self.sync_session@.state == SyncState::Failed ==> (r matches Some((reason, msg)) && reason
                == match self.sync_session@.failure_reason {
                Some(x) => x,
                None => ModSyncRejectReason::Timeout,
            } && msg@ == match self.sync_session@.failure_message {
                Some(m) => m,
                None => Seq::empty(),
            }),
            self.sync_session@.state != SyncState::Failed ==> r is None,
    {
        self.sync_session.failure_info()
    }
}

} // verus!
