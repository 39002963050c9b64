use plix_server::limits::{MAX_PACKET_BYTES, MAX_PENDING_PER_SOURCE, STRIKES_BEFORE_DISCONNECT};
use plix_server::netloop::{Decoded, NetEvent, ProcessResult, ServerNetLoop};
use plix_server::security::handshake::{HandshakeError, SourceAddr};
use plix_server::security::{ClientMessageKind, StrikeCategory};

fn addr(last: u8, port: u16) -> SourceAddr {
    SourceAddr {
        is_v6: false,
        ip: u32::from_be_bytes([127, 0, 0, last]) as u128,
        port,
        flowinfo: 0,
        scope_id: 0,
    }
}

#[test]
fn connections_get_increasing_ids() {
    let mut net = ServerNetLoop::new();
    assert_eq!(net.add_connection(addr(1, 1000)), Ok(1));
    assert_eq!(net.add_connection(addr(2, 1000)), Ok(2));
    assert_eq!(net.connection_count(), 2);
    assert!(net.is_connected(&addr(1, 1000)));
    assert_eq!(net.get_security_context(&addr(2, 1000)).unwrap().connection_id(), 2);
}

#[test]
fn too_many_pending_from_one_source_is_refused() {
    let mut net = ServerNetLoop::default();
    let a = addr(1, 1000);
    for _ in 0..MAX_PENDING_PER_SOURCE {
        assert!(net.add_connection(a).is_ok());
    }
    assert_eq!(net.add_connection(a), Err("too many pending connections"));
    let events = net.drain_events();
    assert_eq!(events.len(), 1);
    assert!(matches!(
        events[0],
        NetEvent::ConnectionRejected { error: HandshakeError::TooManyPending, .. }
    ));
    assert_eq!(events[0].category(), "handshake");
}

#[test]
fn oversized_packets_strike_then_disconnect() {
    let mut net = ServerNetLoop::new();
    let a = addr(1, 1000);
    net.add_connection(a).unwrap();
    assert_eq!(net.reject_oversized(&a, MAX_PACKET_BYTES), None);
    for _ in 1..STRIKES_BEFORE_DISCONNECT {
        assert_eq!(net.reject_oversized(&a, MAX_PACKET_BYTES + 1), Some(ProcessResult::Dropped));
    }
    match net.reject_oversized(&a, MAX_PACKET_BYTES + 1) {
        Some(ProcessResult::Disconnect { reason }) => assert!(reason.contains("message too large")),
        other => panic!("unexpected {:?}", other),
    }
    let snapshot = net.metrics().snapshot();
    assert_eq!(snapshot.invalid_messages_total, STRIKES_BEFORE_DISCONNECT as u64);
    assert_eq!(snapshot.disconnects_strikes_total, 1);
    assert_eq!(net.drain_events().len(), 1);
}

#[test]
fn unknown_client_packets_are_not_limited() {
    let mut net = ServerNetLoop::new();
    let a = addr(9, 9);
    assert_eq!(net.process_decoded(&a, Decoded::Message(ClientMessageKind::ChatSend)), ProcessResult::Accepted);
    assert_eq!(net.process_decoded(&a, Decoded::Error("bad".to_string())), ProcessResult::Dropped);
    assert_eq!(net.reject_oversized(&a, MAX_PACKET_BYTES + 1), Some(ProcessResult::Dropped));
    let events = net.drain_events();
    assert_eq!(events.len(), 1);
    assert_eq!(events[0].category(), "decode");
}

#[test]
fn decode_errors_disconnect_at_threshold() {
    let mut net = ServerNetLoop::new();
    let a = addr(3, 3000);
    net.add_connection(a).unwrap();
    let mut last = ProcessResult::Accepted;
    for _ in 0..STRIKES_BEFORE_DISCONNECT {
        last = net.process_decoded(&a, Decoded::Error("truncated".to_string()));
    }
    assert!(matches!(last, ProcessResult::Disconnect { .. }));
    assert_eq!(net.drain_events().len(), STRIKES_BEFORE_DISCONNECT as usize);
}

#[test]
fn messages_within_rate_are_accepted() {
    let mut net = ServerNetLoop::new();
    let a = addr(4, 4000);
    net.add_connection(a).unwrap();
    assert_eq!(net.process_decoded(&a, Decoded::Message(ClientMessageKind::Input)), ProcessResult::Accepted);
}

#[test]
fn violations_and_removal() {
    let mut net = ServerNetLoop::new();
    let a = addr(5, 5000);
    net.add_connection(a).unwrap();
    for _ in 1..STRIKES_BEFORE_DISCONNECT {
        assert_eq!(net.record_violation(&a, StrikeCategory::HashMismatch), None);
    }
    assert!(net.record_violation(&a, StrikeCategory::HashMismatch).is_some());
    net.complete_handshake(&a);
    assert_eq!(net.handshake_tracker().total_pending(), 0);
    net.remove_connection(&a);
    assert!(!net.is_connected(&a));
    assert!(net.get_security_context(&a).is_none());
    assert_eq!(net.record_violation(&a, StrikeCategory::HashMismatch), None);
}

#[test]
fn update_removes_timed_out_connections() {
    let mut net = ServerNetLoop::new();
    let a = addr(6, 6000);
    let b = addr(7, 7000);
    net.add_connection(a).unwrap();
    net.add_connection(b).unwrap();
    net.update(&vec![a]);
    assert!(!net.is_connected(&a));
    assert!(net.is_connected(&b));
    assert_eq!(net.handshake_tracker().total_pending(), 1);
}

#[test]
fn disconnect_message_removes_connection_but_keeps_handshake() {
    let mut net = ServerNetLoop::new();
    let a = addr(1, 1000);
    net.add_connection(a).unwrap();
    net.handle_message(&a, &ClientMessageKind::Input);
    assert!(net.is_connected(&a));
    net.handle_message(&a, &ClientMessageKind::Disconnect);
    assert!(!net.is_connected(&a));
    assert!(net.get_security_context(&a).is_none());
    assert_eq!(net.handshake_tracker().total_pending(), 1);
}

#[test]
fn shared_metrics_are_counted_into() {
    let mut metrics = plix_server::security::SecurityMetrics::new();
    metrics.record_invalid_message();
    let mut net = ServerNetLoop::with_metrics(metrics);
    let a = addr(1, 1000);
    net.add_connection(a).unwrap();
    let _ = net.reject_oversized(&a, MAX_PACKET_BYTES + 1);
    assert_eq!(net.metrics().snapshot().invalid_messages_total, 2);
}
