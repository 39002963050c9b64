use plix_server::persist::scheduler::{SaveMetrics, SaveScheduler, SaveSchedulerConfig};
use plix_server::protocol::ChunkCoord;

#[test]
fn test_mark_dirty() {
    let mut scheduler = SaveScheduler::with_defaults();

    assert_eq!(scheduler.dirty_count(), 0);

    scheduler.mark_dirty(ChunkCoord::new(0, 0, 0));
    assert_eq!(scheduler.dirty_count(), 1);
    assert!(scheduler.is_dirty(ChunkCoord::new(0, 0, 0)));

    // Marking again is idempotent
    scheduler.mark_dirty(ChunkCoord::new(0, 0, 0));
    assert_eq!(scheduler.dirty_count(), 1);
}

#[test]
fn test_mark_dirty_many() {
    let mut scheduler = SaveScheduler::with_defaults();

    scheduler.mark_dirty_many(vec![
        ChunkCoord::new(0, 0, 0),
        ChunkCoord::new(1, 0, 0),
        ChunkCoord::new(2, 0, 0),
    ]);

    assert_eq!(scheduler.dirty_count(), 3);
}

#[test]
fn test_clear_dirty() {
    let mut scheduler = SaveScheduler::with_defaults();

    scheduler.mark_dirty(ChunkCoord::new(0, 0, 0));
    scheduler.mark_dirty(ChunkCoord::new(1, 0, 0));

    scheduler.clear_dirty(ChunkCoord::new(0, 0, 0));

    assert_eq!(scheduler.dirty_count(), 1);
    assert!(!scheduler.is_dirty(ChunkCoord::new(0, 0, 0)));
    assert!(scheduler.is_dirty(ChunkCoord::new(1, 0, 0)));
}

#[test]
fn test_tick_disabled() {
    let config = SaveSchedulerConfig::disabled();
    let mut scheduler = SaveScheduler::new(config);

    scheduler.mark_dirty(ChunkCoord::new(0, 0, 0));

    assert!(!scheduler.is_due_after(u64::MAX));
    assert!(!scheduler.is_due());
    assert_eq!(scheduler.dirty_count(), 1); // Still dirty
}

#[test]
fn test_tick_interval_not_elapsed() {
    let config = SaveSchedulerConfig {
        interval: 3_600_000, // 1 hour
        enabled: true,
        ..Default::default()
    };
    let mut scheduler = SaveScheduler::new(config);

    scheduler.mark_dirty(ChunkCoord::new(0, 0, 0));

    assert!(!scheduler.is_due()); // Not time yet
    assert!(!scheduler.is_due_after(3_599_999));
    assert!(scheduler.is_due_after(3_600_000));
}

#[test]
fn test_max_chunks_per_cycle() {
    let config = SaveSchedulerConfig {
        interval: 0, // Immediate
        max_chunks_per_cycle: 3,
        enabled: true,
    };
    let mut scheduler = SaveScheduler::new(config);

    // Add more chunks than max
    for i in 0..10 {
        scheduler.mark_dirty(ChunkCoord::new(i, 0, 0));
    }

    assert!(scheduler.is_due());
    let batch = scheduler.begin_cycle(scheduler.config().max_chunks_per_cycle);
    assert_eq!(batch.len(), 3); // Only saves max_chunks_per_cycle
    for coord in &batch {
        scheduler.record_saved(*coord);
    }
    scheduler.finish_cycle(batch.len(), 0);
    assert_eq!(scheduler.dirty_count(), 7); // 10 - 3 remaining
}

#[test]
fn test_metrics() {
    let config = SaveSchedulerConfig {
        interval: 0,
        max_chunks_per_cycle: 100,
        enabled: true,
    };
    let mut scheduler = SaveScheduler::new(config);

    let coord = ChunkCoord::new(0, 0, 0);
    scheduler.mark_dirty(coord);

    let batch = scheduler.begin_cycle(100);
    assert_eq!(batch, vec![coord]);
    scheduler.record_saved(coord);
    scheduler.finish_cycle(1, 3);

    let metrics = scheduler.metrics();
    assert_eq!(metrics.chunks_saved_total, 1);
    assert_eq!(metrics.chunks_saved_last_cycle, 1);
    assert_eq!(metrics.save_cycles_total, 1);
    assert_eq!(metrics.save_failures_total, 0);
    assert_eq!(metrics.last_cycle_duration_ms, 3);
    assert_eq!(metrics.chunks_dirty_pending, 0);
}

#[test]
fn failed_save_keeps_chunk_dirty() {
    let mut scheduler = SaveScheduler::with_defaults();
    let coord = ChunkCoord::new(4, -2, 1);
    scheduler.mark_dirty(coord);
    scheduler.record_failed(coord);
    scheduler.finish_cycle(0, 1);
    assert!(scheduler.is_dirty(coord));
    assert_eq!(scheduler.metrics().save_failures_total, 1);
    assert_eq!(scheduler.metrics().chunks_dirty_pending, 1);
}

#[test]
fn unloaded_chunk_leaves_dirty_set() {
    let mut scheduler = SaveScheduler::with_defaults();
    let coord = ChunkCoord::new(1, 1, 1);
    scheduler.mark_dirty(coord);
    scheduler.record_unloaded(coord);
    assert!(!scheduler.is_dirty(coord));
    assert_eq!(scheduler.metrics().chunks_saved_total, 0);
}

#[test]
fn test_time_until_next_save() {
    let config = SaveSchedulerConfig {
        interval: 60_000,
        enabled: true,
        ..Default::default()
    };
    let scheduler = SaveScheduler::new(config);

    let time_until = scheduler.time_until_next_save();
    assert!(time_until.is_some());
    assert!(time_until.unwrap() <= 60_000);
    assert_eq!(scheduler.time_until_next_save_after(15_000), Some(45_000));
    assert_eq!(scheduler.time_until_next_save_after(60_000), None);
}

#[test]
fn test_time_until_next_save_disabled() {
    let config = SaveSchedulerConfig::disabled();
    let scheduler = SaveScheduler::new(config);

    assert!(scheduler.time_until_next_save().is_none());
}

#[test]
fn enabling_and_reconfiguring() {
    let mut scheduler = SaveScheduler::new(SaveSchedulerConfig::disabled());
    assert!(!scheduler.is_enabled());
    scheduler.set_enabled(true);
    assert!(scheduler.is_enabled());
    scheduler.set_config(SaveSchedulerConfig::with_interval(5_000));
    assert_eq!(scheduler.config().interval, 5_000);
    let mut metrics = SaveMetrics::default();
    metrics.chunks_saved_total = 4;
    metrics.reset();
    assert_eq!(metrics, SaveMetrics::zero());
}

#[test]
fn test_force_save() {
    let mut scheduler = SaveScheduler::with_defaults();

    let coord = ChunkCoord::new(0, 0, 0);
    scheduler.mark_dirty(coord);

    // A forced save takes at most one cycle's worth of chunks; the chunk is stored.
    let batch = scheduler.begin_cycle(scheduler.config().max_chunks_per_cycle);
    assert_eq!(batch, vec![coord]);
    for c in &batch {
        scheduler.record_saved(*c);
    }
    let saved = batch.len();
    scheduler.finish_cycle(saved, 0);
    assert_eq!(saved, 1);
    assert_eq!(scheduler.dirty_count(), 0);
    assert_eq!(scheduler.metrics().chunks_saved_total, 1);
}

#[test]
fn test_flush() {
    let mut scheduler = SaveScheduler::with_defaults();

    // Add multiple chunks
    for i in 0..5 {
        scheduler.mark_dirty(ChunkCoord::new(i, 0, 0));
    }

    // A flush takes every dirty chunk, whatever the cycle limit.
    let batch = scheduler.begin_cycle(usize::MAX);
    for c in &batch {
        scheduler.record_saved(*c);
    }
    let saved = batch.len();
    scheduler.finish_cycle(saved, 0);
    assert_eq!(saved, 5);
    assert_eq!(scheduler.dirty_count(), 0);
}
