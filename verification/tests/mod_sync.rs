
use plix_server::mods::distribution::{config_path, lockfile_path, DistributionStats};
use plix_server::mods::pending_connection::PendingModConnection;
use plix_server::protocol::{SessionId, TeamId};
use plix_server::security::handshake::SourceAddr;

use plix_server::limits::MAX_CACHED_PAYLOAD_HASHES;
use plix_server::mods::sync_protocol::{
    JoinPolicy, ModSetResponse, ModSyncRejectReason, PayloadAck, SyncConfig,
};
use plix_server::mods::sync_session::{ModInfo, SyncAbuseType, SyncSession, SyncState};

fn test_join_policy() -> JoinPolicy {
    JoinPolicy {
        allow_server_only: true,
        allow_payload_sync: true,
        require_payload_sync: false,
    }
}

fn test_sync_config() -> SyncConfig {
    SyncConfig {
        max_payload_mb: 25,
        chunk_size_kb: 256,
        max_inflight_chunks: 4,
        transfer_timeout_secs: 300,
    }
}

fn mod_info(id: &str, hash: &str, size: u64) -> ModInfo {
    ModInfo {
        id: id.to_string(),
        version: "1.0.0".to_string(),
        client_payload_hash: hash.to_string(),
        client_payload_size: size,
        payload_path: "/tmp/test.zip".to_string(),
        has_network_channels: false,
    }
}

#[test]
fn test_new_session() {
    let session = SyncSession::new(test_join_policy(), test_sync_config(), vec![]);
    assert_eq!(session.state(), SyncState::AwaitingCapabilities);
    assert!(!session.is_finished());
}

#[test]
fn test_build_descriptor_empty() {
    let session = SyncSession::new(test_join_policy(), test_sync_config(), vec![]);
    let descriptor = session.build_mod_set_descriptor();

    assert!(descriptor.mods.is_empty());
    assert_eq!(descriptor.total_payload_size, 0);
    assert!(descriptor.policy.allow_server_only);
}

#[test]
fn test_handle_response_no_sync_needed() {
    let mut session = SyncSession::new(test_join_policy(), test_sync_config(), vec![]);

    let response = ModSetResponse {
        supports_sync: true,
        cached_hashes: vec![],
        engine_version: None,
    };

    let decision = session.handle_response(response);

    assert!(decision.allowed);
    assert!(decision.mods_to_sync.is_empty());
    assert_eq!(session.state(), SyncState::Complete);
}

#[test]
fn test_handle_response_reject_no_sync_support() {
    let policy = JoinPolicy {
        allow_server_only: false,
        allow_payload_sync: true,
        require_payload_sync: true,
    };

    let mods = vec![mod_info("test-mod", "abc123", 1024)];

    let mut session = SyncSession::new(policy, test_sync_config(), mods);

    let response = ModSetResponse {
        supports_sync: false,
        cached_hashes: vec![],
        engine_version: None,
    };

    let decision = session.handle_response(response);

    assert!(!decision.allowed);
    assert!(decision.rejection_reason.is_some());
    assert_eq!(session.state(), SyncState::Failed);
}

#[test]
fn test_handle_response_client_has_cached() {
    let mods = vec![mod_info("test-mod", "abc123def456", 1024)];

    let mut session = SyncSession::new(test_join_policy(), test_sync_config(), mods);

    let response = ModSetResponse {
        supports_sync: true,
        cached_hashes: vec!["abc123def456".to_string()],
        engine_version: None,
    };

    let decision = session.handle_response(response);

    assert!(decision.allowed);
    assert!(decision.mods_to_sync.is_empty()); // Client already has it
    assert_eq!(session.state(), SyncState::Complete);
}

#[test]
fn test_cached_hash_limit_exceeded() {
    let mut session = SyncSession::new(test_join_policy(), test_sync_config(), vec![]);

    // Create response with too many cached hashes
    let many_hashes: Vec<String> = (0..MAX_CACHED_PAYLOAD_HASHES + 10)
        .map(|i| format!("hash{:05}", i))
        .collect();

    let response = ModSetResponse {
        supports_sync: true,
        cached_hashes: many_hashes,
        engine_version: None,
    };

    let decision = session.handle_response(response);

    assert!(!decision.allowed);
    assert_eq!(session.state(), SyncState::Failed);
    assert_eq!(
        session.detected_abuse(),
        Some(SyncAbuseType::CachedHashLimitExceeded)
    );
    assert_eq!(
        decision.rejection_reason,
        Some(format!(
            "Cached hash count {} exceeds limit {}",
            MAX_CACHED_PAYLOAD_HASHES + 10,
            MAX_CACHED_PAYLOAD_HASHES
        ))
    );
}

#[test]
fn descriptor_lists_mods_and_total() {
    let mods = vec![mod_info("a", "h1", 100), mod_info("b", "h2", 250)];
    let session = SyncSession::new(test_join_policy(), test_sync_config(), mods);
    let descriptor = session.build_mod_set_descriptor();
    assert_eq!(descriptor.mods.len(), 2);
    assert_eq!(descriptor.mods[1].id, "b");
    assert_eq!(descriptor.mods[1].client_payload_hash, Some("h2".to_string()));
    assert_eq!(descriptor.total_payload_size, 350);
}

#[test]
fn second_response_is_refused() {
    let mut session = SyncSession::new(test_join_policy(), test_sync_config(), vec![]);
    let response = ModSetResponse { supports_sync: true, cached_hashes: vec![], engine_version: None };
    session.handle_response(response.clone());
    let again = session.handle_response(response);
    assert!(!again.allowed);
    assert_eq!(again.rejection_reason, Some("Unexpected ModSetResponse".to_string()));
    assert_eq!(session.state(), SyncState::Complete);
}

#[test]
fn server_only_refused_when_mods_need_support() {
    let policy = JoinPolicy { allow_server_only: false, allow_payload_sync: true, require_payload_sync: false };
    let mut session = SyncSession::new(policy, test_sync_config(), vec![mod_info("m", "h", 10)]);
    let decision = session.handle_response(ModSetResponse {
        supports_sync: false,
        cached_hashes: vec![],
        engine_version: None,
    });
    assert_eq!(
        decision.rejection_reason,
        Some("Server requires mod support, but your client doesn't support sync".to_string())
    );
    let (reason, msg) = session.failure_info().unwrap();
    assert_eq!(reason, ModSyncRejectReason::ClientRejected);
    assert_eq!(msg, "Server requires mod support, but your client doesn't support sync");
}

#[test]
fn oversized_payload_refused() {
    let config = SyncConfig { max_payload_mb: 1, ..test_sync_config() };
    let mut session = SyncSession::new(test_join_policy(), config, vec![mod_info("big", "h", 2 * 1024 * 1024)]);
    let decision = session.handle_response(ModSetResponse {
        supports_sync: true,
        cached_hashes: vec![],
        engine_version: None,
    });
    assert!(!decision.allowed);
    assert_eq!(
        decision.rejection_reason,
        Some("Total payload size (2097152 bytes) exceeds limit (1048576 bytes)".to_string())
    );
    assert_eq!(session.state(), SyncState::Failed);
}

#[test]
fn transfer_runs_to_completion() {
    // 600 KiB in 256 KiB chunks: 3 chunks
    let mods = vec![mod_info("m", "h", 600 * 1024)];
    let config = SyncConfig { max_inflight_chunks: 2, ..test_sync_config() };
    let mut session = SyncSession::new(test_join_policy(), config, mods);
    let decision = session.handle_response(ModSetResponse {
        supports_sync: true,
        cached_hashes: vec![],
        engine_version: None,
    });
    assert!(decision.allowed);
    assert_eq!(decision.mods_to_sync, vec!["m".to_string()]);
    assert_eq!(session.state(), SyncState::Transferring);
    assert_eq!(session.mods_to_sync_count(), 1);

    let begin = session.next_payload_begin().unwrap();
    assert_eq!(begin.mod_id, "m");
    assert_eq!(begin.chunk_count, 3);
    assert_eq!(begin.total_size, 600 * 1024);
    assert_eq!(session.current_mod_id(), Some("m".to_string()));
    assert_eq!(session.current_payload_path(), Some("/tmp/test.zip".to_string()));
    assert_eq!(session.chunk_size_bytes(), 256 * 1024);

    let plan = session.chunks_to_send();
    assert_eq!(plan, vec![0, 1]);
    session.record_chunk_batch(&plan, None);
    // Both in flight: nothing more may go out
    assert!(session.chunks_to_send().is_empty());

    let end = session.handle_ack(PayloadAck { mod_id: "m".to_string(), last_chunk_index: 0, complete: false });
    assert!(end.is_none());
    assert_eq!(session.chunks_to_send(), vec![2]);
    session.record_chunk_batch(&vec![2], None);

    let end = session
        .handle_ack(PayloadAck { mod_id: "m".to_string(), last_chunk_index: 2, complete: false })
        .unwrap();
    assert_eq!(end.mod_id, "m");
    assert!(end.success);
    assert_eq!(session.state(), SyncState::Complete);
    assert!(session.is_finished());
    assert!(!session.check_timeout());
}

#[test]
fn ack_for_other_mod_is_ignored() {
    let mut session = SyncSession::new(test_join_policy(), test_sync_config(), vec![mod_info("m", "h", 10)]);
    session.handle_response(ModSetResponse { supports_sync: true, cached_hashes: vec![], engine_version: None });
    session.next_payload_begin();
    let end = session.handle_ack(PayloadAck { mod_id: "other".to_string(), last_chunk_index: 0, complete: true });
    assert!(end.is_none());
    assert_eq!(session.state(), SyncState::Transferring);
}

#[test]
fn read_failure_fails_session() {
    let mut session = SyncSession::new(test_join_policy(), test_sync_config(), vec![mod_info("m", "h", 10)]);
    session.handle_response(ModSetResponse { supports_sync: true, cached_hashes: vec![], engine_version: None });
    session.next_payload_begin();
    session.record_chunk_batch(&vec![], Some("no such file"));
    assert_eq!(session.state(), SyncState::Failed);
    let (reason, msg) = session.failure_info().unwrap();
    assert_eq!(reason, ModSyncRejectReason::Timeout);
    assert_eq!(msg, "Failed to read payload: no such file");
}

#[test]
fn timeouts() {
    let mut session = SyncSession::new(test_join_policy(), test_sync_config(), vec![mod_info("m", "h", 10)]);
    session.handle_response(ModSetResponse { supports_sync: true, cached_hashes: vec![], engine_version: None });
    session.next_payload_begin();
    let plan = session.chunks_to_send();
    assert_eq!(plan, vec![0]);
    session.record_chunk_batch(&plan, None);
    assert!(!session.check_timeout_after(1_000_000_000, 30_000_000_000));
    assert!(session.check_timeout_after(1_000_000_000, 30_000_000_001));
    assert_eq!(session.failure_info().unwrap().1, "Chunk acknowledgement timeout");

    let mut late = SyncSession::new(test_join_policy(), test_sync_config(), vec![]);
    assert!(late.check_timeout_after(300_000_000_001, 0));
    assert_eq!(late.failure_info().unwrap().1, "Transfer timeout");
}

#[test]
fn failed_hash_check_fails_session() {
    let mut session = SyncSession::new(test_join_policy(), test_sync_config(), vec![]);
    session.handle_payload_complete("m", true, None);
    assert_eq!(session.state(), SyncState::AwaitingCapabilities);
    session.handle_payload_complete("m", false, Some("bad hash"));
    let (reason, msg) = session.failure_info().unwrap();
    assert_eq!(reason, ModSyncRejectReason::HashMismatch);
    assert_eq!(msg, "bad hash");
}

#[test]
fn distribution_stats_from_counts() {
    let stats = DistributionStats::from_counts(5, 1000, 2);
    assert_eq!(stats.downloads, 3);
    assert_eq!(stats.cache_hits, 2);
    assert_eq!(DistributionStats::from_counts(1, 0, 4).downloads, 0);
    assert_eq!(DistributionStats::default().mods_resolved, 0);
}

#[test]
fn pending_connection_follows_its_session() {
    let addr = SourceAddr { is_v6: false, ip: 0x7f000001, port: 4000, flowinfo: 0, scope_id: 0 };
    let mut pending = PendingModConnection::new(
        addr,
        "alice".to_string(),
        "Alice".to_string(),
        TeamId(1),
        SessionId(9),
        test_join_policy(),
        test_sync_config(),
        vec![],
    );
    assert_eq!(pending.sync_state(), SyncState::AwaitingCapabilities);
    assert!(!pending.is_ready_to_join());
    assert!(!pending.is_timed_out());
    assert!(pending.is_timed_out_after(31));
    assert!(!pending.is_timed_out_after(30));
    let decision = pending.handle_response(ModSetResponse { supports_sync: true, cached_hashes: vec![], engine_version: None });
    assert!(decision.allowed);
    assert!(pending.is_ready_to_join());
    pending.handle_payload_complete("m", false, None);
    assert!(pending.is_failed());
    assert_eq!(pending.failure_info(), Some((ModSyncRejectReason::HashMismatch, String::new())));
}

#[test]
fn payload_path_is_the_active_mods() {
    let mut a = mod_info("a", "ha", 10);
    a.payload_path = "/mods/a.zip".to_string();
    let mut b = mod_info("b", "hb", 10);
    b.payload_path = "/mods/b.zip".to_string();
    let mut session = SyncSession::new(test_join_policy(), test_sync_config(), vec![a, b]);
    session.handle_response(ModSetResponse { supports_sync: true, cached_hashes: vec![], engine_version: None });
    assert_eq!(session.next_payload_begin().unwrap().mod_id, "a");
    assert_eq!(session.current_payload_path(), Some("/mods/a.zip".to_string()));
    session.record_chunk_batch(&vec![0], None);
    let end = session.handle_ack(PayloadAck { mod_id: "a".to_string(), last_chunk_index: 0, complete: false });
    assert!(end.unwrap().success);
    assert_eq!(session.next_payload_begin().unwrap().mod_id, "b");
    assert_eq!(session.current_payload_path(), Some("/mods/b.zip".to_string()));
}

#[test]
fn test_lockfile_path() {
    let path = lockfile_path("/srv/plix-server");
    assert!(std::path::Path::new(&path).ends_with("mods.lock"));
    assert!(path.ends_with("mods.lock"));
}

#[test]
fn lockfile_path_keeps_the_root() {
    assert_eq!(lockfile_path("/srv/plix-server"), "/srv/plix-server/mods.lock");
    assert_eq!(lockfile_path("/srv/plix-server/"), "/srv/plix-server/mods.lock");
    assert_eq!(lockfile_path(""), "mods.lock");
}

#[test]
fn config_path_joins_the_config_file() {
    assert_eq!(config_path("/srv/plix-server"), "/srv/plix-server/server_mods.toml");
    assert_eq!(config_path("srv"), "srv/server_mods.toml");
}
