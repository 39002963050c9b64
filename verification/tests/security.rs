use plix_server::limits::{GLOBAL_MSG_PER_SEC, STRIKES_BEFORE_DISCONNECT};
use plix_server::limits::{MAX_CACHED_PAYLOAD_HASHES, MAX_PENDING_PER_SOURCE};
use plix_server::security::handshake::{
    is_valid_transition, HandshakeError, HandshakeState, HandshakeTracker, SourceAddr,
};
use plix_server::security::observability::{RateLimitedLogger, SecurityMetrics};
use plix_server::security::rate_limiter::{RateLimitedMessageType, RateLimiter, TokenBucket};
use plix_server::security::strikes::{StrikeCategory, StrikeTracker};
use plix_server::security::{ClientMessageKind, SecurityContext};

// ---------------------------------------------------------------- strikes

#[test]
fn test_new_tracker_has_zero_strikes() {
    let tracker = StrikeTracker::new(1);
    assert_eq!(tracker.get_strikes(), 0);
    assert!(!tracker.should_disconnect());
}

#[test]
fn test_record_strike_increments_count() {
    let mut tracker = StrikeTracker::new(1);
    tracker.record_strike(StrikeCategory::DecodeError);
    assert_eq!(tracker.get_strikes(), 1);
}

#[test]
fn test_record_strike_tracks_category() {
    let mut tracker = StrikeTracker::new(1);
    tracker.record_strike(StrikeCategory::DecodeError);
    tracker.record_strike(StrikeCategory::DecodeError);
    tracker.record_strike(StrikeCategory::RateExceeded);

    let by_category = tracker.get_strikes_by_category();
    assert_eq!(by_category.get(&StrikeCategory::DecodeError), Some(2));
    assert_eq!(by_category.get(&StrikeCategory::RateExceeded), Some(1));
}

#[test]
fn test_threshold_triggers_disconnect() {
    let mut tracker = StrikeTracker::new(1);

    for _ in 0..STRIKES_BEFORE_DISCONNECT - 1 {
        assert!(!tracker.record_strike(StrikeCategory::DecodeError));
    }
    assert!(!tracker.should_disconnect());

    assert!(tracker.record_strike(StrikeCategory::DecodeError));
    assert!(tracker.should_disconnect());
}

#[test]
fn test_disconnect_reason_set() {
    let mut tracker = StrikeTracker::new(1);

    for _ in 0..STRIKES_BEFORE_DISCONNECT {
        tracker.record_strike(StrikeCategory::SizeViolation);
    }

    let reason = tracker.disconnect_reason().unwrap();
    assert!(reason.contains("message too large"));
}

#[test]
fn test_disconnect_stays_triggered() {
    let mut tracker = StrikeTracker::new(1);

    for _ in 0..STRIKES_BEFORE_DISCONNECT {
        tracker.record_strike(StrikeCategory::DecodeError);
    }

    assert!(tracker.record_strike(StrikeCategory::DecodeError));
    assert!(tracker.should_disconnect());
}

#[test]
fn test_decay_does_not_increase_strikes() {
    let mut tracker = StrikeTracker::new(1);
    tracker.record_strike(StrikeCategory::DecodeError);
    let initial = tracker.get_strikes();

    tracker.decay();

    assert!(tracker.get_strikes() <= initial);
}

#[test]
fn test_decay_does_not_affect_disconnected() {
    let mut tracker = StrikeTracker::new(1);

    for _ in 0..STRIKES_BEFORE_DISCONNECT {
        tracker.record_strike(StrikeCategory::DecodeError);
    }

    let strikes_before = tracker.get_strikes();
    tracker.decay();

    assert_eq!(tracker.get_strikes(), strikes_before);
    assert!(tracker.should_disconnect());
}

#[test]
fn test_category_description() {
    assert_eq!(StrikeCategory::DecodeError.description(), "invalid message format");
    assert_eq!(StrikeCategory::SizeViolation.description(), "message too large");
    assert_eq!(StrikeCategory::RateExceeded.description(), "rate limit exceeded");
}

#[test]
fn disconnect_reason_names_category_and_count() {
    let mut tracker = StrikeTracker::new(9);
    for _ in 0..STRIKES_BEFORE_DISCONNECT {
        tracker.record_strike(StrikeCategory::HashMismatch);
    }
    assert_eq!(
        tracker.disconnect_reason(),
        Some(format!("Too many violations: hash verification failed ({})", STRIKES_BEFORE_DISCONNECT).as_str())
    );
}

#[test]
fn decay_after_period_forgives_one_strike() {
    let mut tracker = StrikeTracker::new(1);
    tracker.record_strike(StrikeCategory::DecodeError);
    tracker.record_strike(StrikeCategory::DecodeError);
    tracker.decay_after(0);
    assert_eq!(tracker.get_strikes(), 2);
    tracker.decay_after(u64::from(plix_server::limits::STRIKES_DECAY_SECS));
    assert_eq!(tracker.get_strikes(), 1);
}

#[test]
fn decay_without_strikes_changes_nothing() {
    let mut tracker = StrikeTracker::new(1);
    tracker.decay_after(1_000_000);
    assert_eq!(tracker.get_strikes(), 0);
}

#[test]
fn reset_clears_tracker() {
    let mut tracker = StrikeTracker::new(3);
    for _ in 0..STRIKES_BEFORE_DISCONNECT {
        tracker.record_strike(StrikeCategory::ParserAbuse);
    }
    tracker.reset();
    assert_eq!(tracker.get_strikes(), 0);
    assert!(!tracker.should_disconnect());
    assert_eq!(tracker.disconnect_reason(), None);
    assert_eq!(tracker.get_strikes_by_category().len(), 0);
    assert_eq!(tracker.connection_id(), 3);
}

// ---------------------------------------------------------------- rate limiter

#[test]
fn test_token_bucket_starts_full() {
    let bucket = TokenBucket::new(100, 10);
    assert_eq!(bucket.tokens_raw(), 100);
}

#[test]
fn test_token_bucket_consume() {
    let mut bucket = TokenBucket::new(100, 10);
    assert!(bucket.try_consume());
    assert_eq!(bucket.tokens_raw(), 99);
}

#[test]
fn test_token_bucket_consume_n() {
    let mut bucket = TokenBucket::new(100, 10);
    assert!(bucket.try_consume_n(50));
    assert_eq!(bucket.tokens_raw(), 50);
}

#[test]
fn test_token_bucket_empty_blocks() {
    let mut bucket = TokenBucket::new(5, 1);

    for _ in 0..5 {
        assert!(bucket.try_consume());
    }

    assert!(!bucket.try_consume());
}

#[test]
fn test_token_bucket_would_allow() {
    let mut bucket = TokenBucket::new(5, 1);

    for _ in 0..5 {
        bucket.try_consume();
    }

    assert!(!bucket.would_allow());
}

#[test]
fn test_token_bucket_reset() {
    let mut bucket = TokenBucket::new(100, 10);
    bucket.try_consume_n(50);
    bucket.reset();
    assert_eq!(bucket.tokens_raw(), 100);
}

#[test]
fn test_rate_limiter_global() {
    let mut limiter = RateLimiter::new();

    for _ in 0..GLOBAL_MSG_PER_SEC {
        assert!(limiter.try_consume(RateLimitedMessageType::Global));
    }

    assert!(!limiter.try_consume(RateLimitedMessageType::Global));
    assert_eq!(limiter.blocked_count(), 1);
}

#[test]
fn test_rate_limiter_per_type() {
    let mut limiter = RateLimiter::new();

    for _ in 0..10 {
        assert!(limiter.try_consume(RateLimitedMessageType::Chat));
    }

    assert!(!limiter.try_consume(RateLimitedMessageType::Chat));
}

#[test]
fn test_rate_limiter_reset() {
    let mut limiter = RateLimiter::new();

    for _ in 0..50 {
        limiter.try_consume(RateLimitedMessageType::Global);
    }

    limiter.reset();

    assert_eq!(limiter.tokens(RateLimitedMessageType::Global), GLOBAL_MSG_PER_SEC);
    assert_eq!(limiter.blocked_count(), 0);
}

#[test]
fn test_rate_limiter_blocked_count_increments() {
    let mut limiter = RateLimiter::new();

    for _ in 0..GLOBAL_MSG_PER_SEC {
        limiter.try_consume(RateLimitedMessageType::Global);
    }

    limiter.try_consume(RateLimitedMessageType::Global);
    limiter.try_consume(RateLimitedMessageType::Global);
    limiter.try_consume(RateLimitedMessageType::Global);

    assert_eq!(limiter.blocked_count(), 3);
}

#[test]
fn refill_after_adds_earned_tokens_up_to_capacity() {
    let mut bucket = TokenBucket::new(10, 4);
    assert!(bucket.try_consume_n_after(10, 0));
    assert_eq!(bucket.tokens_raw(), 0);
    // 4 tokens per second: 499 ms earn one token, 1000 ms earn four.
    bucket.refill_after(499_000_000);
    assert_eq!(bucket.tokens_raw(), 1);
    bucket.refill_after(1_000_000_000);
    assert_eq!(bucket.tokens_raw(), 5);
    bucket.refill_after(60_000_000_000);
    assert_eq!(bucket.tokens_raw(), 10);
}

#[test]
fn refill_counts_fractions_of_a_millisecond() {
    // 10,000 tokens per second: 0.9 ms earns 9 tokens.
    let mut bucket = TokenBucket::new(100, 10_000);
    assert!(bucket.try_consume_n_after(100, 0));
    bucket.refill_after(900_000);
    assert_eq!(bucket.tokens_raw(), 9);
}

#[test]
fn refused_consume_keeps_tokens() {
    let mut bucket = TokenBucket::new(3, 0);
    assert!(!bucket.try_consume_n_after(4, 10_000_000_000));
    assert_eq!(bucket.tokens_raw(), 3);
    assert!(!bucket.would_allow_n_after(4, 0));
    assert!(bucket.would_allow_n_after(3, 0));
}

#[test]
fn per_type_refusal_refunds_global_token() {
    let mut limiter = RateLimiter::new();
    for _ in 0..10 {
        assert!(limiter.try_consume_after(RateLimitedMessageType::Chat, 0, 0));
    }
    let global_before = limiter.tokens(RateLimitedMessageType::Global);
    assert!(!limiter.try_consume_after(RateLimitedMessageType::Chat, 0, 0));
    assert_eq!(limiter.tokens(RateLimitedMessageType::Global), global_before);
    assert_eq!(limiter.blocked_count(), 1);
    assert!(!limiter.would_allow_after(RateLimitedMessageType::Chat, 0, 0));
    assert!(limiter.would_allow_after(RateLimitedMessageType::BlockEdit, 0, 0));
}

#[test]
fn custom_global_capacity_applies() {
    let config = plix_server::security::rate_limiter::RateLimiterConfig { global_capacity: 2, global_refill: 0 };
    let mut limiter = RateLimiter::with_config(config);
    assert!(limiter.try_consume_after(RateLimitedMessageType::Global, 0, 0));
    assert!(limiter.try_consume_after(RateLimitedMessageType::Attack, 0, 0));
    assert!(!limiter.try_consume_after(RateLimitedMessageType::Global, 0, 0));
}

// ---------------------------------------------------------------- context

#[test]
fn test_security_context_new() {
    let ctx = SecurityContext::new(42);
    assert_eq!(ctx.connection_id(), 42);
    assert_eq!(ctx.strike_count(), 0);
    assert!(!ctx.should_disconnect());
}

#[test]
fn test_security_context_rate_limit() {
    let mut ctx = SecurityContext::new(1);

    for _ in 0..10 {
        assert!(ctx.check_rate_limit(RateLimitedMessageType::Chat));
    }

    assert!(!ctx.check_rate_limit(RateLimitedMessageType::Chat));
    assert_eq!(ctx.strike_count(), 1);
}

#[test]
fn test_security_context_decode_error() {
    let mut ctx = SecurityContext::new(1);

    for _ in 0..STRIKES_BEFORE_DISCONNECT - 1 {
        assert!(!ctx.record_decode_error());
    }

    assert!(ctx.record_decode_error());
    assert!(ctx.should_disconnect());
}

#[test]
fn context_records_each_category() {
    let mut ctx = SecurityContext::new(5);
    ctx.record_size_violation();
    ctx.record_handshake_abuse();
    ctx.record_payload_sync_abuse();
    ctx.record_hash_mismatch();
    assert_eq!(ctx.strike_count(), 4);
    assert!(ctx.record_parser_abuse());
    assert_eq!(
        ctx.disconnect_reason(),
        Some("Too many violations: parser limit exceeded (5)")
    );
    assert_eq!(ctx.rate_limited_count(), 0);
    assert_eq!(ctx.strikes().get_strikes(), 5);
}

// ---------------------------------------------------------------- observability

#[test]
fn test_metrics_new() {
    let metrics = SecurityMetrics::new();
    let snapshot = metrics.snapshot();

    assert_eq!(snapshot.invalid_messages_total, 0);
    assert_eq!(snapshot.disconnects_strikes_total, 0);
}

#[test]
fn test_metrics_record_invalid_message() {
    let mut metrics = SecurityMetrics::new();

    metrics.record_invalid_message();
    metrics.record_invalid_message();

    assert_eq!(metrics.snapshot().invalid_messages_total, 2);
}

#[test]
fn test_metrics_record_disconnect() {
    let mut metrics = SecurityMetrics::new();

    metrics.record_disconnect(StrikeCategory::DecodeError);
    metrics.record_disconnect(StrikeCategory::RateExceeded);

    let snapshot = metrics.snapshot();
    assert_eq!(snapshot.disconnects_strikes_total, 2);
    assert_eq!(snapshot.strikes_by_category.get(&StrikeCategory::DecodeError), Some(1));
    assert_eq!(snapshot.strikes_by_category.get(&StrikeCategory::RateExceeded), Some(1));
}

#[test]
fn test_metrics_all_counters() {
    let mut metrics = SecurityMetrics::new();

    metrics.record_invalid_message();
    metrics.record_disconnect(StrikeCategory::DecodeError);
    metrics.record_payload_sync_abort();
    metrics.record_registry_parse_failure();
    metrics.record_rate_limited();
    metrics.record_handshake_timeout();
    metrics.record_zip_safety_rejection();

    let snapshot = metrics.snapshot();
    assert_eq!(snapshot.invalid_messages_total, 1);
    assert_eq!(snapshot.disconnects_strikes_total, 1);
    assert_eq!(snapshot.payload_sync_aborts_total, 1);
    assert_eq!(snapshot.registry_parse_failures_total, 1);
    assert_eq!(snapshot.rate_limited_total, 1);
    assert_eq!(snapshot.handshake_timeouts_total, 1);
    assert_eq!(snapshot.zip_safety_rejections_total, 1);
}

#[test]
fn test_metrics_reset() {
    let mut metrics = SecurityMetrics::new();

    metrics.record_invalid_message();
    metrics.reset();

    assert_eq!(metrics.snapshot().invalid_messages_total, 0);
}

#[test]
fn snapshot_lists_every_category() {
    let metrics = SecurityMetrics::new();
    let snapshot = metrics.snapshot();
    assert_eq!(snapshot.strikes_by_category.len(), 7);
    assert_eq!(snapshot.strikes_by_category.get(&StrikeCategory::ParserAbuse), Some(0));
}

#[test]
fn test_logger_new() {
    let logger = RateLimitedLogger::new();
    assert_eq!(logger.suppressed_count("test"), 0);
}

#[test]
fn test_logger_debug_mode_disabled() {
    let mut logger = RateLimitedLogger::new();
    assert_eq!(logger.debug("test", "message"), None);
}

#[test]
fn test_logger_debug_mode_enabled() {
    let mut logger = RateLimitedLogger::new().with_debug_mode(true);
    assert_eq!(logger.debug("test", "message"), Some("[security:test] message".to_string()));
}

#[test]
fn test_logger_reset() {
    let mut logger = RateLimitedLogger::new();
    logger.warn("test", "message");
    logger.reset();
    assert!(logger.is_clear());
    assert_eq!(logger.suppressed_count("test"), 0);
}

#[test]
fn logger_throttles_within_interval() {
    let mut logger = RateLimitedLogger::with_interval(1000);
    assert_eq!(logger.warn_after("net", "first", 0), Some("[security:net] first".to_string()));
    assert_eq!(logger.warn_after("net", "second", 10), None);
    assert_eq!(logger.warn_after("net", "third", 999), None);
    assert_eq!(logger.suppressed_count("net"), 2);
    assert_eq!(
        logger.warn_after("net", "fourth", 1000),
        Some("[security:net] fourth (suppressed 2 similar)".to_string())
    );
    assert_eq!(logger.suppressed_count("net"), 0);
    // other categories are independent
    assert_eq!(logger.warn_after("sync", "x", 0), Some("[security:sync] x".to_string()));
}

#[test]
fn logger_error_always_logs() {
    let mut logger = RateLimitedLogger::new();
    assert_eq!(logger.error("cat", "boom"), "[security:cat] boom");
    assert!(logger.is_clear());
}

// ---------------------------------------------------------------- handshake

#[test]
fn handshake_transitions() {
    assert!(is_valid_transition(HandshakeState::AwaitingConnect, HandshakeState::AwaitingModSet));
    assert!(is_valid_transition(HandshakeState::AwaitingModSet, HandshakeState::Complete));
    assert!(is_valid_transition(HandshakeState::AwaitingModSet, HandshakeState::AwaitingPayloadSync));
    assert!(is_valid_transition(HandshakeState::AwaitingPayloadSync, HandshakeState::Complete));
    assert!(!is_valid_transition(HandshakeState::AwaitingConnect, HandshakeState::Complete));
    assert!(!is_valid_transition(HandshakeState::Complete, HandshakeState::AwaitingConnect));
}

#[test]
fn handshake_error_messages() {
    let e = HandshakeError::InvalidTransition {
        from: HandshakeState::AwaitingConnect,
        to: HandshakeState::Complete,
    };
    assert_eq!(e.message(), "invalid state transition from AwaitingConnect to Complete");
    let e = HandshakeError::CacheHashLimitExceeded { count: 300 };
    assert_eq!(
        e.message(),
        format!("cached hash count 300 exceeds limit {}", plix_server::limits::MAX_CACHED_PAYLOAD_HASHES)
    );
    assert_eq!(HandshakeError::Timeout.message(), "handshake timeout");
}

// ---------------------------------------------------------------- handshake tracker

fn v4(a: u8, b: u8, c: u8, d: u8, port: u16) -> SourceAddr {
    SourceAddr {
        is_v6: false,
        ip: u32::from_be_bytes([a, b, c, d]) as u128,
        port,
        flowinfo: 0,
        scope_id: 0,
    }
}

fn test_addr() -> SourceAddr {
    v4(127, 0, 0, 1, 12345)
}

#[test]
fn test_register_success() {
    let mut tracker = HandshakeTracker::new();
    assert!(tracker.register(1, test_addr()).is_ok());
    assert_eq!(tracker.total_pending(), 1);
}

#[test]
fn test_register_per_source_limit() {
    let mut tracker = HandshakeTracker::new();
    let addr = test_addr();

    // Fill up to limit
    for i in 0..MAX_PENDING_PER_SOURCE {
        assert!(tracker.register(i as u64, addr).is_ok());
    }

    // Next should fail
    let result = tracker.register(100, addr);
    assert!(matches!(result, Err(HandshakeError::TooManyPending)));
}

#[test]
fn test_register_different_sources() {
    let mut tracker = HandshakeTracker::new();

    let addr1 = v4(127, 0, 0, 1, 12345);
    let addr2 = v4(127, 0, 0, 2, 12345);

    // Both sources can register up to limit
    for i in 0..MAX_PENDING_PER_SOURCE {
        assert!(tracker.register(i as u64, addr1).is_ok());
        assert!(tracker.register((i + 100) as u64, addr2).is_ok());
    }
}

#[test]
fn test_update_state_valid() {
    let mut tracker = HandshakeTracker::new();
    tracker.register(1, test_addr()).unwrap();

    assert!(tracker.update_state(1, HandshakeState::AwaitingModSet).is_ok());
    assert_eq!(tracker.get_state(1), Some(HandshakeState::AwaitingModSet));
}

#[test]
fn test_update_state_invalid() {
    let mut tracker = HandshakeTracker::new();
    tracker.register(1, test_addr()).unwrap();

    // Can't skip from AwaitingConnect to Complete
    let result = tracker.update_state(1, HandshakeState::Complete);
    assert!(matches!(result, Err(HandshakeError::InvalidTransition { .. })));
}

#[test]
fn update_state_unknown_connection() {
    let mut tracker = HandshakeTracker::new();
    assert_eq!(
        tracker.update_state(9, HandshakeState::AwaitingModSet),
        Err(HandshakeError::NotFound)
    );
    assert_eq!(tracker.set_cached_hashes_count(9, 1), Err(HandshakeError::NotFound));
}

#[test]
fn test_cached_hashes_within_limit() {
    let mut tracker = HandshakeTracker::new();
    tracker.register(1, test_addr()).unwrap();

    assert!(tracker.set_cached_hashes_count(1, 100).is_ok());
}

#[test]
fn test_cached_hashes_exceeds_limit() {
    let mut tracker = HandshakeTracker::new();
    tracker.register(1, test_addr()).unwrap();

    let result = tracker.set_cached_hashes_count(1, MAX_CACHED_PAYLOAD_HASHES + 1);
    assert!(matches!(result, Err(HandshakeError::CacheHashLimitExceeded { .. })));
}

#[test]
fn test_complete_removes_from_tracking() {
    let mut tracker = HandshakeTracker::new();
    let addr = test_addr();
    tracker.register(1, addr).unwrap();

    tracker.complete(1);

    assert_eq!(tracker.total_pending(), 0);
    assert_eq!(tracker.pending_count(&addr), 0);
}

#[test]
fn test_abort_removes_from_tracking() {
    let mut tracker = HandshakeTracker::new();
    let addr = test_addr();
    tracker.register(1, addr).unwrap();

    tracker.abort(1);

    assert_eq!(tracker.total_pending(), 0);
    assert_eq!(tracker.pending_count(&addr), 0);
}

#[test]
fn test_pending_count_updates() {
    let mut tracker = HandshakeTracker::new();
    let addr = test_addr();

    tracker.register(1, addr).unwrap();
    assert_eq!(tracker.pending_count(&addr), 1);

    tracker.register(2, addr).unwrap();
    assert_eq!(tracker.pending_count(&addr), 2);

    tracker.complete(1);
    assert_eq!(tracker.pending_count(&addr), 1);

    tracker.complete(2);
    assert_eq!(tracker.pending_count(&addr), 0);
}

#[test]
fn fresh_handshakes_do_not_time_out() {
    let mut tracker = HandshakeTracker::new();
    tracker.register(1, test_addr()).unwrap();
    assert!(tracker.check_timeouts().is_empty());
    assert_eq!(tracker.total_pending(), 1);
}

#[test]
fn full_handshake_path() {
    let mut tracker = HandshakeTracker::new();
    tracker.register(7, test_addr()).unwrap();
    tracker.update_state(7, HandshakeState::AwaitingModSet).unwrap();
    tracker.update_state(7, HandshakeState::AwaitingPayloadSync).unwrap();
    tracker.update_state(7, HandshakeState::Complete).unwrap();
    assert_eq!(tracker.get_state(7), Some(HandshakeState::Complete));
    assert_eq!(
        tracker.update_state(7, HandshakeState::AwaitingConnect),
        Err(HandshakeError::InvalidTransition {
            from: HandshakeState::Complete,
            to: HandshakeState::AwaitingConnect
        })
    );
}

#[test]
fn test_security_context_classify_message() {
    assert_eq!(
        SecurityContext::classify_message(&ClientMessageKind::BlockEdit),
        RateLimitedMessageType::BlockEdit
    );
    assert_eq!(SecurityContext::classify_message(&ClientMessageKind::ChatSend), RateLimitedMessageType::Chat);
    assert_eq!(
        SecurityContext::classify_message(&ClientMessageKind::UseActiveItem),
        RateLimitedMessageType::Attack
    );
    assert_eq!(
        SecurityContext::classify_message(&ClientMessageKind::Disconnect),
        RateLimitedMessageType::Global
    );
}

#[test]
fn message_rate_uses_the_message_category() {
    let mut ctx = SecurityContext::new(1);
    assert!(ctx.check_message_rate(&ClientMessageKind::ChatSend));
    assert!(ctx.check_message_rate(&ClientMessageKind::Input));
}

#[test]
fn blocked_count_counts_refusals_since_reset() {
    let mut limiter = RateLimiter::new();
    for _ in 0..GLOBAL_MSG_PER_SEC {
        assert!(limiter.try_consume_after(RateLimitedMessageType::Global, 0, 0));
    }
    assert!(!limiter.try_consume_after(RateLimitedMessageType::Global, 0, 0));
    assert_eq!(limiter.blocked_count(), 1);
    limiter.reset();
    assert_eq!(limiter.blocked_count(), 0);
    for _ in 0..GLOBAL_MSG_PER_SEC {
        limiter.try_consume_after(RateLimitedMessageType::Global, 0, 0);
    }
    assert!(!limiter.try_consume_after(RateLimitedMessageType::Global, 0, 0));
    assert!(!limiter.try_consume_after(RateLimitedMessageType::Global, 0, 0));
    assert_eq!(limiter.blocked_count(), 2);
}

#[test]
fn strikes_and_decay_stop_changing_after_disconnect() {
    let mut tracker = StrikeTracker::new(9);
    tracker.record_strike(StrikeCategory::DecodeError);
    tracker.decay_after(u64::from(plix_server::limits::STRIKES_DECAY_SECS));
    assert_eq!(tracker.get_strikes(), 0);
    for _ in 0..STRIKES_BEFORE_DISCONNECT {
        tracker.record_strike(StrikeCategory::RateExceeded);
    }
    assert!(tracker.should_disconnect());
    assert_eq!(tracker.get_strikes(), STRIKES_BEFORE_DISCONNECT);
    tracker.decay_after(1_000_000);
    assert!(tracker.record_strike(StrikeCategory::DecodeError));
    assert!(tracker.should_disconnect());
    assert_eq!(tracker.get_strikes(), STRIKES_BEFORE_DISCONNECT);
}
