//! Auto-save scheduling: which chunks are dirty, when a save cycle is due,
//! which chunks a cycle saves, and the save metrics.
//!
//! The chunk writes themselves happen outside: a cycle takes a batch with
//! [`SaveScheduler::begin_cycle`], reports each chunk's outcome and closes with
//! [`SaveScheduler::finish_cycle`].

use vstd::prelude::*;

use crate::clock;
use crate::protocol::ChunkCoord;

verus! {

/// Configuration for the save scheduler.
#[derive(Debug, Clone, Copy)]
pub struct SaveSchedulerConfig {
    /// Time between auto-save cycles, in milliseconds.
    /// Default: 5 minutes.
    pub interval: u64,
    /// Maximum chunks to save per cycle. Default: 100.
    pub max_chunks_per_cycle: usize,
    /// Whether auto-save is enabled. Default: true.
    pub enabled: bool,
}

impl SaveSchedulerConfig {
    /// The default configuration: every five minutes, 100 chunks per cycle, enabled.
    pub fn default_config() -> (c: SaveSchedulerConfig)
        ensures
            c == (SaveSchedulerConfig { interval: 300_000, max_chunks_per_cycle: 100, enabled: true }),
    {
        SaveSchedulerConfig { interval: 300_000, max_chunks_per_cycle: 100, enabled: true }
    }

    /// Create config with auto-save disabled.
    pub fn disabled() -> (c: SaveSchedulerConfig)
        ensures
            c == (SaveSchedulerConfig { interval: 300_000, max_chunks_per_cycle: 100, enabled: false }),
    {
        SaveSchedulerConfig { enabled: false, ..Self::default_config() }
    }

    /// Create config with custom interval, in milliseconds.
    pub fn with_interval(interval: u64) -> (c: SaveSchedulerConfig)
        ensures
            c == (SaveSchedulerConfig { interval, max_chunks_per_cycle: 100, enabled: true }),
    {
        SaveSchedulerConfig { interval, ..Self::default_config() }
    }
}

impl Default for SaveSchedulerConfig {
    fn default() -> (c: SaveSchedulerConfig)
        ensures
            c == (SaveSchedulerConfig { interval: 300_000, max_chunks_per_cycle: 100, enabled: true }),
    {
        Self::default_config()
    }
}

/// Metrics tracked by the save scheduler.
#[derive(Debug, Clone, Copy, PartialEq, Eq, Structural)]
pub struct SaveMetrics {
    /// Total chunks saved since scheduler creation.
    pub chunks_saved_total: u64,
    /// Chunks saved in the most recent cycle.
    pub chunks_saved_last_cycle: u32,
    /// Total auto-save cycles completed.
    pub save_cycles_total: u64,
    /// Total chunk save failures (individual, not cycles).
    pub save_failures_total: u64,
    /// Duration of last save cycle in milliseconds.
    pub last_cycle_duration_ms: u64,
    /// Current number of dirty chunks pending save.
    pub chunks_dirty_pending: u32,
}

/// All metrics at zero.
pub open spec fn zero_metrics() -> SaveMetrics {
    SaveMetrics {
        chunks_saved_total: 0,
        chunks_saved_last_cycle: 0,
        save_cycles_total: 0,
        save_failures_total: 0,
        last_cycle_duration_ms: 0,
        chunks_dirty_pending: 0,
    }
}

impl SaveMetrics {
    /// All metrics at zero.
    pub fn zero() -> (m: SaveMetrics)
        ensures
            m == zero_metrics(),
    {
        SaveMetrics {
            chunks_saved_total: 0,
            chunks_saved_last_cycle: 0,
            save_cycles_total: 0,
            save_failures_total: 0,
            last_cycle_duration_ms: 0,
            chunks_dirty_pending: 0,
        }
    }

    /// Reset all metrics to zero.
    pub fn reset(&mut self)
        ensures
            *final(self) == zero_metrics(),
    {
        *self = Self::zero();
    }
}

impl Default for SaveMetrics {
    fn default() -> (m: SaveMetrics)
        ensures
            m == zero_metrics(),
    {
        Self::zero()
    }
}

/// Whether an auto-save is due `elapsed_ms` milliseconds after the last save:
/// auto-save must be enabled and the interval must have passed.
pub open spec fn due_after(c: SaveSchedulerConfig, elapsed_ms: u64) -> bool {
    c.enabled && elapsed_ms >= c.interval
}

/// The time left until the next auto-save, `elapsed_ms` milliseconds after the
/// last save: none when disabled or overdue.
pub open spec fn until_after(c: SaveSchedulerConfig, elapsed_ms: u64) -> Option<u64> {
    if !c.enabled || elapsed_ms >= c.interval {
        None
    } else {
        Some((c.interval - elapsed_ms) as u64)
    }
}

/// The observable state of a [`SaveScheduler`].
pub struct SaveSchedulerView {
    pub config: SaveSchedulerConfig,
    pub dirty: Set<ChunkCoord>,
    pub metrics: SaveMetrics,
}

/// Manages periodic auto-saves and tracks dirty chunks.
pub struct SaveScheduler {
    config: SaveSchedulerConfig,
    last_save: std::time::Instant,
    dirty_chunks: Vec<ChunkCoord>,
    metrics: SaveMetrics,
}

impl View for SaveScheduler {
    type V = SaveSchedulerView;

    closed spec fn view(&self) -> SaveSchedulerView {
        SaveSchedulerView {
            config: self.config,
            dirty: self.dirty_chunks@.to_set(),
            metrics: self.metrics,
        }
    }
}

/// The dirty count as the metric records it (truncated to 32 bits).
pub open spec fn pending_metric(n: nat) -> u32 {
    n as u32
}

impl SaveScheduler {
    /// No chunk is listed twice.
    pub closed spec fn wf(&self) -> bool {
        self.dirty_chunks@.no_duplicates()
    }

    /// The number of dirty chunks.
    pub open spec fn dirty_len(&self) -> nat {
        self@.dirty.len()
    }

    /// Create a new save scheduler with the given configuration.
    pub fn new(config: SaveSchedulerConfig) -> (s: SaveScheduler)
        ensures
            s.wf(),
            s@.config == config,
            s@.dirty == Set::<ChunkCoord>::empty(),
            s@.metrics == zero_metrics(),
    {
        let s = SaveScheduler {
            config,
            last_save: clock::now(),
            dirty_chunks: Vec::new(),
            metrics: SaveMetrics::zero(),
        };
        assert(s.dirty_chunks@.to_set() =~= Set::<ChunkCoord>::empty());
        s
    }

    /// Create a scheduler with default configuration.
    pub fn with_defaults() -> (s: SaveScheduler)
        ensures
            s.wf(),
            s@.config == (SaveSchedulerConfig { interval: 300_000, max_chunks_per_cycle: 100, enabled: true }),
            s@.dirty == Set::<ChunkCoord>::empty(),
            s@.metrics == zero_metrics(),
    {
        Self::new(SaveSchedulerConfig::default_config())
    }

    /// Position of `coord` in the dirty list, if it is there.
    fn position(&self, coord: ChunkCoord) -> (r: Option<usize>)
        ensures
            match r {
                Some(i) => i < self.dirty_chunks@.len() && self.dirty_chunks@[i as int] == coord,
                None => !self.dirty_chunks@.contains(coord),
            },
    {
        let mut i: usize = 0;
        while i < self.dirty_chunks.len()
            invariant
                i <= self.dirty_chunks@.len(),
                forall|k: int| 0 <= k < i ==> self.dirty_chunks@[k] != coord,
            decreases self.dirty_chunks@.len() - i,
        {
            if self.dirty_chunks[i] == coord {
                return Some(i);
            }
            i = i + 1;
        }
        None
    }

    /// Record the dirty count in the metrics.
    fn refresh_pending(&mut self)
        requires
            old(self).wf(),
        ensures
            final(self).wf(),
            final(self)@.dirty == old(self)@.dirty,
            final(self)@.config == old(self)@.config,
            final(self)@.metrics == (SaveMetrics {
                chunks_dirty_pending: pending_metric(old(self).dirty_len()),
                ..old(self)@.metrics
            }),
    {
        proof {
            self.dirty_chunks@.unique_seq_to_set();
        }
        self.metrics.chunks_dirty_pending = #[verifier::truncate] (self.dirty_chunks.len() as u32);
    }

    fn insert_dirty(&mut self, coord: ChunkCoord)
        requires
            old(self).wf(),
        ensures
            final(self).wf(),
            final(self)@ == (SaveSchedulerView { dirty: old(self)@.dirty.insert(coord), ..old(self)@ }),
    {
        if self.position(coord).is_none() {
            let ghost pre = self.dirty_chunks@;
            self.dirty_chunks.push(coord);
            assert(self.dirty_chunks@.to_set() =~= pre.to_set().insert(coord)) by {
                assert forall|c: ChunkCoord| #[trigger] self.dirty_chunks@.contains(c) <==> pre.contains(c) || c == coord by {
                    if self.dirty_chunks@.contains(c) && c != coord {
                        let k = choose|k: int| 0 <= k < self.dirty_chunks@.len() && self.dirty_chunks@[k] == c;
                        assert(pre[k] == c);
                    }
                    if pre.contains(c) {
                        let k = choose|k: int| 0 <= k < pre.len() && pre[k] == c;
                        assert(self.dirty_chunks@[k] == c);
                    }
                    if c == coord {
                        assert(self.dirty_chunks@[pre.len() as int] == c);
                    }
                }
            }
        } else {
            assert(self@.dirty =~= old(self)@.dirty.insert(coord));
        }
    }

    /// Mark a chunk as needing to be saved.
    ///
    /// Idempotent - marking an already-dirty chunk has no effect.
    pub fn mark_dirty(&mut self, coord: ChunkCoord)
        requires
            old(self).wf(),
        ensures
            final(self).wf(),
            final(self)@.dirty == old(self)@.dirty.insert(coord),
            final(self)@.config == old(self)@.config,
            final(self)@.metrics == (SaveMetrics {
                chunks_dirty_pending: pending_metric(old(self)@.dirty.insert(coord).len()),
                ..old(self)@.metrics
            }),
    {
        self.insert_dirty(coord);
        self.refresh_pending();
    }

    /// Mark multiple chunks as dirty.
    pub fn mark_dirty_many(&mut self, coords: Vec<ChunkCoord>)
        requires
            old(self).wf(),
        ensures
            final(self).wf(),
            final(self)@.dirty == old(self)@.dirty.union(coords@.to_set()),
            final(self)@.config == old(self)@.config,
            final(self)@.metrics == (SaveMetrics {
                chunks_dirty_pending: pending_metric(old(self)@.dirty.union(coords@.to_set()).len()),
                ..old(self)@.metrics
            }),
    {
        let mut i: usize = 0;
        while i < coords.len()
            invariant
                self.wf(),
                i <= coords@.len(),
                self@.dirty == old(self)@.dirty.union(coords@.subrange(0, i as int).to_set()),
                self@.config == old(self)@.config,
                self@.metrics == old(self)@.metrics,
            decreases coords@.len() - i,
        {
            self.insert_dirty(coords[i]);
            proof {
                assert(coords@.subrange(0, i + 1 as int).to_set() =~= coords@.subrange(0, i as int).to_set().insert(coords@[i as int])) by {
                    assert forall|c: ChunkCoord| #[trigger] coords@.subrange(0, i + 1 as int).contains(c) <==> coords@.subrange(0, i as int).contains(c) || c == coords@[i as int] by {
                        let a = coords@.subrange(0, i + 1 as int);
                        let b = coords@.subrange(0, i as int);
                        if a.contains(c) && c != coords@[i as int] {
                            let k = choose|k: int| 0 <= k < a.len() && a[k] == c;
                            assert(b[k] == c);
                        }
                        if b.contains(c) {
                            let k = choose|k: int| 0 <= k < b.len() && b[k] == c;
                            assert(a[k] == c);
                        }
                        if c == coords@[i as int] {
                            assert(a[i as int] == c);
                        }
                    }
                }
            }
            i = i + 1;
        }
        assert(coords@.subrange(0, coords@.len() as int) =~= coords@);
        self.refresh_pending();
    }

    /// Check if a chunk is marked dirty.
    pub fn is_dirty(&self, coord: ChunkCoord) -> (b: bool)
        ensures
            b == self@.dirty.contains(coord),
    {
        self.position(coord).is_some()
    }

    /// Get count of dirty chunks pending save.
    pub fn dirty_count(&self) -> (n: usize)
        requires
            self.wf(),
        ensures
            n == self@.dirty.len(),
    {
        proof {
            self.dirty_chunks@.unique_seq_to_set();
        }
        self.dirty_chunks.len()
    }

    fn remove_dirty(&mut self, coord: ChunkCoord)
        requires
            old(self).wf(),
        ensures
            final(self).wf(),
            final(self)@ == (SaveSchedulerView { dirty: old(self)@.dirty.remove(coord), ..old(self)@ }),
    {
        match self.position(coord) {
            Some(i) => {
                let ghost pre = self.dirty_chunks@;
                self.dirty_chunks.remove(i);
                assert(self.dirty_chunks@ == pre.remove(i as int));
                assert(self.dirty_chunks@.to_set() =~= pre.to_set().remove(coord)) by {
                    assert forall|c: ChunkCoord| #[trigger] self.dirty_chunks@.contains(c) <==> (pre.contains(c) && c != coord) by {
                        let s = self.dirty_chunks@;
                        if s.contains(c) {
                            let k = choose|k: int| 0 <= k < s.len() && s[k] == c;
                            if k < i {
                                assert(pre[k] == c);
                                assert(k != i);
                            } else {
                                assert(pre[k + 1] == c);
                            }
                        }
                        if pre.contains(c) && c != coord {
                            let k = choose|k: int| 0 <= k < pre.len() && pre[k] == c;
                            if k < i {
                                assert(s[k] == c);
                            } else {
                                assert(k != i);
                                assert(s[k - 1] == c);
                            }
                        }
                    }
                }
            },
            None => {
                assert(self@.dirty =~= old(self)@.dirty.remove(coord));
            },
        }
    }

    /// Clear dirty flag for a chunk (called after successful save).
    pub fn clear_dirty(&mut self, coord: ChunkCoord)
        requires
            old(self).wf(),
        ensures
            final(self).wf(),
            final(self)@.dirty == old(self)@.dirty.remove(coord),
            final(self)@.config == old(self)@.config,
            final(self)@.metrics == (SaveMetrics {
                chunks_dirty_pending: pending_metric(old(self)@.dirty.remove(coord).len()),
                ..old(self)@.metrics
            }),
    {
        self.remove_dirty(coord);
        self.refresh_pending();
    }

    /// Whether an auto-save is due `elapsed_ms` milliseconds after the last save:
    /// auto-save must be enabled and the interval must have passed.
    pub fn is_due_after(&self, elapsed_ms: u64) -> (b: bool)
        ensures
            b == (self@.config.enabled && elapsed_ms >= self@.config.interval),
    {
        self.config.enabled && elapsed_ms >= self.config.interval
    }

    /// Whether an auto-save is due now: due as [`SaveScheduler::is_due_after`]
    /// says for the milliseconds the clock shows since the last save.
    pub fn is_due(&self) -> (b: bool)
        ensures
            exists|elapsed_ms: u64| b == #[trigger] due_after(self@.config, elapsed_ms),
    {
        let elapsed = clock::millis_since(&self.last_save);
        let b = self.is_due_after(elapsed);
        assert(b == due_after(self@.config, elapsed));
        b
    }

    /// The chunks a save cycle saving at most `max_chunks` chunks takes: that
    /// many dirty chunks (all of them when there are fewer), each once.
    pub fn begin_cycle(&self, max_chunks: usize) -> (batch: Vec<ChunkCoord>)
        requires
            self.wf(),
        ensures
            batch@.no_duplicates(),
            batch@.to_set().subset_of(self@.dirty),
            batch@.len() == if self@.dirty.len() < max_chunks { self@.dirty.len() } else { max_chunks as nat },
    {
        proof {
            self.dirty_chunks@.unique_seq_to_set();
        }
        let mut batch: Vec<ChunkCoord> = Vec::new();
        let mut i: usize = 0;
        while i < self.dirty_chunks.len() && i < max_chunks
            invariant
                self.wf(),
                i <= self.dirty_chunks@.len(),
                i <= max_chunks,
                batch@ == self.dirty_chunks@.subrange(0, i as int),
            decreases self.dirty_chunks@.len() - i,
        {
            batch.push(self.dirty_chunks[i]);
            i = i + 1;
            assert(batch@ =~= self.dirty_chunks@.subrange(0, i as int));
        }
        proof {
            let d = self.dirty_chunks@;
            d.unique_seq_to_set();
            assert forall|a: int, b: int| 0 <= a < batch@.len() && 0 <= b < batch@.len() && a != b implies batch@[a] != batch@[b] by {
                assert(batch@[a] == d[a] && batch@[b] == d[b]);
            }
            assert forall|c: ChunkCoord| #[trigger] batch@.to_set().contains(c) implies self@.dirty.contains(c) by {
                let k = choose|k: int| 0 <= k < batch@.len() && batch@[k] == c;
                assert(d[k] == c);
            }
        }
        batch
    }

    /// Record that `coord` was saved: it is no longer dirty.
    pub fn record_saved(&mut self, coord: ChunkCoord)
        requires
            old(self).wf(),
            old(self)@.metrics.chunks_saved_total < u64::MAX,
        ensures
            final(self).wf(),
            final(self)@.dirty == old(self)@.dirty.remove(coord),
            final(self)@.config == old(self)@.config,
            final(self)@.metrics == (SaveMetrics {
                chunks_saved_total: (old(self)@.metrics.chunks_saved_total + 1) as u64,
                ..old(self)@.metrics
            }),
    {
        self.remove_dirty(coord);
        self.metrics.chunks_saved_total = self.metrics.chunks_saved_total + 1;
    }

    /// Record that saving `coord` failed: it stays dirty.
    pub fn record_failed(&mut self, coord: ChunkCoord)
        requires
            old(self).wf(),
            old(self)@.metrics.save_failures_total < u64::MAX,
        ensures
            final(self).wf(),
            final(self)@.dirty == old(self)@.dirty,
            final(self)@.config == old(self)@.config,
            final(self)@.metrics == (SaveMetrics {
                save_failures_total: (old(self)@.metrics.save_failures_total + 1) as u64,
                ..old(self)@.metrics
            }),
    {
        self.metrics.save_failures_total = self.metrics.save_failures_total + 1;
    }

    /// Record that `coord` is no longer loaded: it is dropped from the dirty set.
    pub fn record_unloaded(&mut self, coord: ChunkCoord)
        requires
            old(self).wf(),
        ensures
            final(self).wf(),
            final(self)@ == (SaveSchedulerView { dirty: old(self)@.dirty.remove(coord), ..old(self)@ }),
    {
        self.remove_dirty(coord);
    }

    /// Close a save cycle that saved `saved` chunks in `duration_ms` milliseconds:
    /// the interval starts again, the cycle is counted and the metrics updated.
    pub fn finish_cycle(&mut self, saved: usize, duration_ms: u64)
        requires
            old(self).wf(),
            old(self)@.metrics.save_cycles_total < u64::MAX,
        ensures
            final(self).wf(),
            final(self)@.dirty == old(self)@.dirty,
            final(self)@.config == old(self)@.config,
            final(self)@.metrics == (SaveMetrics {
                save_cycles_total: (old(self)@.metrics.save_cycles_total + 1) as u64,
                chunks_saved_last_cycle: saved as u32,
                last_cycle_duration_ms: duration_ms,
                chunks_dirty_pending: pending_metric(old(self).dirty_len()),
                ..old(self)@.metrics
            }),
    {
        self.last_save = clock::now();
        self.metrics.save_cycles_total = self.metrics.save_cycles_total + 1;
        self.metrics.chunks_saved_last_cycle = #[verifier::truncate] (saved as u32);
        self.metrics.last_cycle_duration_ms = duration_ms;
        self.refresh_pending();
    }

    /// Get current metrics.
    pub fn metrics(&self) -> (m: &SaveMetrics)
        ensures
            *m == self@.metrics,
    {
        &self.metrics
    }

    /// Get time since last save, in milliseconds.
    pub fn time_since_last_save(&self) -> u64 {
        clock::millis_since(&self.last_save)
    }

    /// Time until the next auto-save, `elapsed_ms` milliseconds after the last
    /// save: none when disabled or overdue.
    pub fn time_until_next_save_after(&self, elapsed_ms: u64) -> (r: Option<u64>)
        ensures
            r == if !self@.config.enabled || elapsed_ms >= self@.config.interval {
                None
            } else {
                Some((self@.config.interval - elapsed_ms) as u64)
            },
    {
        if !self.config.enabled {
            return None;
        }
        if elapsed_ms >= self.config.interval {
            None
        } else {
            Some(self.config.interval - elapsed_ms)
        }
    }

    /// Get time until next auto-save (if enabled), in milliseconds.
    /// That is the time [`SaveScheduler::time_until_next_save_after`] gives for
    /// the milliseconds the clock shows since the last save.
    pub fn time_until_next_save(&self) -> (r: Option<u64>)
        ensures
            exists|elapsed_ms: u64| r == #[trigger] until_after(self@.config, elapsed_ms),
    {
        let elapsed = clock::millis_since(&self.last_save);
        let r = self.time_until_next_save_after(elapsed);
        assert(r == until_after(self@.config, elapsed));
        r
    }

    /// Check if scheduler is enabled.
    pub fn is_enabled(&self) -> (b: bool)
        ensures
            b == self@.config.enabled,
    {
        self.config.enabled
    }

    /// Enable or disable auto-save.
    pub fn set_enabled(&mut self, enabled: bool)
        requires
            old(self).wf(),
        ensures
            final(self).wf(),
            final(self)@ == (SaveSchedulerView {
                config: SaveSchedulerConfig { enabled, ..old(self)@.config },
                ..old(self)@
            }),
    {
        self.config.enabled = enabled;
    }

    /// Update configuration at runtime; the time of the last save is kept.
    pub fn set_config(&mut self, config: SaveSchedulerConfig)
        requires
            old(self).wf(),
        ensures
            final(self).wf(),
            final(self)@ == (SaveSchedulerView { config, ..old(self)@ }),
    {
        self.config = config;
    }

    /// Get current configuration.
    pub fn config(&self) -> (c: &SaveSchedulerConfig)
        ensures
            *c == self@.config,
    {
        &self.config
    }
}

/// Marking a chunk dirty twice is the same as marking it once, and clearing a
/// dirty chunk undoes marking it.
pub proof fn law_dirty_marks_idempotent(dirty: Set<ChunkCoord>, c: ChunkCoord)
    ensures
        dirty.insert(c).insert(c) == dirty.insert(c),
        !dirty.contains(c) ==> dirty.insert(c).remove(c) == dirty,
        dirty.insert(c).contains(c),
        !dirty.remove(c).contains(c),
{
    assert(dirty.insert(c).insert(c) =~= dirty.insert(c));
    if !dirty.contains(c) {
        assert(dirty.insert(c).remove(c) =~= dirty);
    }
}

/// Auto-save timing, with the elapsed time in milliseconds: a save becomes
/// due once the interval has passed and stays due as time goes on; while it is
/// not due, the time left is exactly what remains of the interval, and the two
/// answers never disagree. With the default configuration (five minutes) a save
/// is due `minutes` whole minutes after the last one exactly when at least five
/// have passed, and a disabled scheduler is never due.
pub proof fn law_due_after_interval(c: SaveSchedulerConfig, e1: u64, e2: u64, minutes: u64)
    requires
        e1 <= e2,
    ensures
        due_after(c, e1) ==> due_after(c, e2),
        c.enabled ==> (due_after(c, e1) <==> until_after(c, e1) is None),
        !due_after(c, e1) && c.enabled ==> until_after(c, e1) == Some((c.interval - e1) as u64)
            && e1 + (c.interval - e1) == c.interval,
        !c.enabled ==> !due_after(c, e1) && until_after(c, e1) is None,
        c == SaveSchedulerConfig::default_spec() && minutes <= 1_000_000 ==> (due_after(
            c,
            (minutes * 60_000) as u64,
        ) <==> minutes >= 5),
{
}

impl SaveSchedulerConfig {
    /// The default configuration, as [`SaveSchedulerConfig::default_config`] returns it.
    pub open spec fn default_spec() -> SaveSchedulerConfig {
        SaveSchedulerConfig { interval: 300_000, max_chunks_per_cycle: 100, enabled: true }
    }
}

} // verus!
