use plix_server::perf::allocation::{BufferPool, ReusableBuffer};
use plix_server::perf::config::{validate_run, ConfigError};
use plix_server::perf::reporter::{render_timestamp, timestamp_text, Metadata};
use plix_server::perf::scenarios::{PerfScenario, ScenarioRunner, TickPlan};

// ---------------------------------------------------------------- allocation

#[test]
fn test_reusable_buffer() {
    let mut buf = ReusableBuffer::new(100);
    assert_eq!(buf.capacity(), 100);
    assert!(buf.is_empty());

    buf.as_mut_vec().extend_from_slice(b"hello");
    assert_eq!(buf.len(), 5);

    buf.update_peak();
    buf.clear();
    assert!(buf.is_empty());
    assert_eq!(buf.peak_size(), 5);
    assert_eq!(buf.capacity(), 100); // Capacity preserved
}

#[test]
fn test_buffer_pool() {
    let mut pool = BufferPool::new(3, 100);

    // Checkout 3 buffers
    let buf1 = pool.checkout();
    let buf2 = pool.checkout();
    let buf3 = pool.checkout();

    assert_eq!(pool.stats().checked_out, 3);
    assert_eq!(pool.stats().available, 0);

    // Return 2
    pool.checkin(buf1);
    pool.checkin(buf2);
    assert_eq!(pool.stats().available, 2);
    assert_eq!(pool.stats().checked_out, 1);

    // Checkout again - should reuse
    let _buf4 = pool.checkout();
    assert_eq!(pool.stats().available, 1);

    // Peak should be 3
    assert_eq!(pool.stats().peak_in_use, 3);

    pool.checkin(buf3);
}

#[test]
fn test_pool_max_size() {
    let mut pool = BufferPool::new(2, 100);

    // Check out and return 3 buffers - only 2 should be kept
    let b1 = pool.checkout();
    let b2 = pool.checkout();
    let b3 = pool.checkout();

    pool.checkin(b1);
    pool.checkin(b2);
    pool.checkin(b3);

    assert_eq!(pool.stats().available, 2); // Max 2
}

#[test]
fn test_prewarm() {
    let mut pool = BufferPool::new(10, 100);
    pool.prewarm(5);
    assert_eq!(pool.stats().available, 5);

    // Shouldn't exceed max
    pool.prewarm(10);
    assert_eq!(pool.stats().available, 10);
}

#[test]
fn checked_in_buffer_comes_back_cleared() {
    let mut pool = BufferPool::new(1, 16);
    let mut buf = pool.checkout();
    buf.extend_from_slice(b"payload");
    pool.checkin(buf);
    let again = pool.checkout();
    assert!(again.is_empty());
    assert_eq!(pool.stats().checked_out, 1);
    assert_eq!(pool.stats().max_size, 1);
}

#[test]
fn peak_tracks_largest_length() {
    let mut buf = ReusableBuffer::new(8);
    buf.as_mut_vec().extend_from_slice(b"abc");
    buf.update_peak();
    buf.clear();
    buf.as_mut_vec().extend_from_slice(b"a");
    buf.update_peak();
    assert_eq!(buf.peak_size(), 3);
    assert_eq!(buf.as_slice(), b"a");
}

// ---------------------------------------------------------------- reporter

#[test]
fn test_metadata_creation() {
    let metadata = Metadata::new("idle", 60, 60);
    assert_eq!(metadata.scenario, "idle");
    assert_eq!(metadata.duration_secs, 60);
    assert_eq!(metadata.tick_rate, 60);
    assert!(metadata.timestamp.len() > 0);
}

#[test]
fn metadata_builders_fill_fields() {
    let metadata = Metadata::new("net_stress", 30, 60)
        .with_player_count(50)
        .with_git_sha(Some("abc123".to_string()))
        .with_build_mode("release");
    assert_eq!(metadata.player_count, Some(50));
    assert_eq!(metadata.git_sha, Some("abc123".to_string()));
    assert_eq!(metadata.build_mode, "release");
    assert_eq!(metadata.scenario, "net_stress");
}

#[test]
fn metadata_new_leaves_build_unknown() {
    let metadata = Metadata::new("idle", 10, 30);
    assert_eq!(metadata.build_mode, "unknown");
    assert_eq!(metadata.git_sha, None);
    assert_eq!(metadata.player_count, None);
}

// ---------------------------------------------------------------- scenarios

#[test]
fn test_scenario_from_str() {
    assert_eq!(PerfScenario::from_str("idle"), Some(PerfScenario::Idle));
    assert_eq!(
        PerfScenario::from_str("world_churn"),
        Some(PerfScenario::WorldChurn)
    );
    assert_eq!(
        PerfScenario::from_str("net_stress"),
        Some(PerfScenario::NetStress)
    );
    assert_eq!(PerfScenario::from_str("invalid"), None);
}

#[test]
fn scenario_names_ignore_case_and_accept_joined_forms() {
    assert_eq!(PerfScenario::from_str("IDLE"), Some(PerfScenario::Idle));
    assert_eq!(PerfScenario::from_str("WorldChurn"), Some(PerfScenario::WorldChurn));
    assert_eq!(PerfScenario::from_str("NetStress"), Some(PerfScenario::NetStress));
    assert_eq!(PerfScenario::from_str(""), None);
}

#[test]
fn test_scenario_names() {
    assert_eq!(PerfScenario::Idle.name(), "idle");
    assert_eq!(PerfScenario::WorldChurn.name(), "world_churn");
    assert_eq!(PerfScenario::NetStress.name(), "net_stress");
}

#[test]
fn test_scenario_configs() {
    let idle = PerfScenario::Idle.config();
    assert_eq!(idle.player_count, 0);
    assert_eq!(idle.block_edits_per_sec, 0);

    let churn = PerfScenario::WorldChurn.config();
    assert_eq!(churn.chunk_count, 100);
    assert!(churn.block_edits_per_sec > 0);

    let stress = PerfScenario::NetStress.config();
    assert!(stress.player_count > 0);
    assert!(stress.movement_updates_per_sec > 0);
}

#[test]
fn scenario_defaults() {
    assert_eq!(PerfScenario::Idle.default_duration(), 60_000_000_000);
    assert_eq!(PerfScenario::NetStress.default_player_count(), 16);
    assert_eq!(PerfScenario::Idle.default_player_count(), 0);
    assert_eq!(PerfScenario::all().len(), 3);
    assert_eq!(PerfScenario::Idle.config().actions_per_tick(), 0);
}

#[test]
fn runner_completes_after_its_duration() {
    let mut runner = ScenarioRunner::with_duration(PerfScenario::Idle, 10_000_000_000);
    assert!(!runner.is_complete());
    assert_eq!(runner.remaining(), 10_000_000_000);

    runner.advance(5_000_000_000);
    assert!(!runner.is_complete());
    assert_eq!(runner.elapsed(), 5_000_000_000);

    runner.advance(5_000_000_000);
    assert!(runner.is_complete());
    assert_eq!(runner.remaining(), 0);
    assert_eq!(runner.advance(16_666_667), TickPlan::Nothing);
}

#[test]
fn sixty_hertz_ticks_keep_their_fraction() {
    // 60 ticks of a sixtieth of a second reach one second; whole milliseconds would not
    let mut runner = ScenarioRunner::with_duration(PerfScenario::Idle, 1_000_000_000);
    for _ in 0..60 {
        runner.advance(16_666_667);
    }
    assert!(runner.is_complete());
}

#[test]
fn world_churn_first_tick_edits_a_block() {
    let mut runner = ScenarioRunner::new(PerfScenario::WorldChurn);
    let plan = runner.advance(16_666_667);
    assert!(matches!(plan, TickPlan::EditBlock { .. }));
    assert_eq!(runner.actions_executed(), 1);
}

#[test]
fn net_stress_moves_every_player() {
    let mut runner = ScenarioRunner::new(PerfScenario::NetStress);
    let plan = runner.advance(16_666_667);
    assert_eq!(
        plan,
        TickPlan::MovePlayers {
            count: runner.config().player_count,
            step: 0
        }
    );
}

// ---------------------------------------------------------------- config

#[test]
fn validate_run_accepts_known_scenarios() {
    assert!(validate_run("idle", 60).is_ok());
    assert!(validate_run("net_stress", 10).is_ok());
}

#[test]
fn validate_run_rejects_unknown_scenario() {
    match validate_run("invalid", 60) {
        Err(ConfigError::InvalidScenario(s)) => assert_eq!(s, "invalid"),
        other => panic!("unexpected {:?}", other),
    }
    let err = validate_run("nope", 5).unwrap_err();
    assert_eq!(
        err.message(),
        "Invalid scenario 'nope'. Valid: idle, world_churn, net_stress"
    );
}

#[test]
fn validate_run_rejects_short_duration() {
    match validate_run("idle", 5) {
        Err(ConfigError::DurationTooShort(d)) => assert_eq!(d, 5),
        other => panic!("unexpected {:?}", other),
    }
    assert_eq!(
        ConfigError::DurationTooShort(5).message(),
        "Duration 5 too short (minimum 10 seconds)"
    );
}

#[test]
fn timestamps_render_in_rfc3339() {
    assert_eq!(render_timestamp(Some((0, 0))), "1970-01-01T00:00:00+00:00");
    assert_eq!(render_timestamp(Some((86_400, 500_000_000))), "1970-01-02T00:00:00.500+00:00");
    assert_eq!(render_timestamp(None), "unknown");
    assert_eq!(render_timestamp(Some((u64::MAX, 0))), "unknown");
    assert_eq!(timestamp_text(None), "unknown");
    assert_eq!(timestamp_text(Some("t".to_string())), "t");
}

#[test]
fn metadata_timestamp_is_current_rfc3339() {
    let metadata = Metadata::new("idle", 1, 60);
    assert!(metadata.timestamp.starts_with("20"));
    assert!(metadata.timestamp.contains('T'));
}

#[test]
fn test_world_churn_actions() {
    let mut runner = ScenarioRunner::new(PerfScenario::WorldChurn);
    let plan = runner.advance(16_000_000);

    // Should have a block edit action
    assert!(matches!(plan, TickPlan::EditBlock { .. }));
}

#[test]
fn test_net_stress_actions() {
    let mut runner = ScenarioRunner::new(PerfScenario::NetStress);
    let plan = runner.advance(16_000_000);

    // Should have movement actions for each player
    let move_count = match plan {
        TickPlan::MovePlayers { count, .. } => count,
        _ => 0,
    };
    assert_eq!(move_count, runner.config().player_count);
}

#[test]
fn reusable_buffer_capacity_survives_clear() {
    let mut buf = ReusableBuffer::new(64);
    let granted = buf.capacity();
    assert!(granted >= 64);
    buf.update_peak();
    assert_eq!(buf.capacity(), granted);
    buf.clear();
    assert_eq!(buf.capacity(), granted);
}
