//! Security observability: counters of security events and throttled logging.

use vstd::prelude::*;

use super::strikes::{CATEGORY_COUNT, StrikeCategory};
use crate::clock;
use crate::text::{concat, decimal, str_eq, u64_to_decimal};

verus! {

/// A counter after one more event: it wraps around at `u64::MAX`, as the
/// atomic counters of the metrics do.
pub open spec fn bump(x: u64) -> u64 {
    if x == u64::MAX {
        0
    } else {
        (x + 1) as u64
    }
}

fn bump_exec(x: u64) -> (y: u64)
    ensures
        y == bump(x),
{
    x.wrapping_add(1)
}

/// Security event totals per strike category, as captured in a snapshot.
///
/// Every category is present, with its total.
#[derive(Debug, Clone)]
pub struct CategoryTotals {
    totals: Vec<u64>,
}

impl CategoryTotals {
    /// The total of each category, at the category's index.
    pub closed spec fn totals(&self) -> Seq<u64> {
        self.totals@
    }

    /// One total per category.
    pub closed spec fn wf(&self) -> bool {
        self.totals@.len() == CATEGORY_COUNT
    }

    /// The total recorded for `category`.
    pub fn get(&self, category: &StrikeCategory) -> (r: Option<u64>)
        requires
            self.wf(),
        ensures
            r == Some(self.totals()[category.index()]),
    {
        Some(self.totals[category.slot()])
    }

    /// Number of categories in the table.
    pub fn len(&self) -> (n: usize)
        requires
            self.wf(),
        ensures
            n == CATEGORY_COUNT,
    {
        self.totals.len()
    }
}

/// Snapshot of security metrics
#[derive(Debug, Clone)]
pub struct MetricsSnapshot {
    pub invalid_messages_total: u64,
    pub disconnects_strikes_total: u64,
    pub payload_sync_aborts_total: u64,
    pub registry_parse_failures_total: u64,
    pub rate_limited_total: u64,
    pub handshake_timeouts_total: u64,
    pub zip_safety_rejections_total: u64,
    pub strikes_by_category: CategoryTotals,
}

/// The observable state of [`SecurityMetrics`].
pub struct SecurityMetricsView {
    pub invalid_messages: u64,
    pub disconnects: u64,
    pub payload_sync_aborts: u64,
    pub registry_parse_failures: u64,
    pub rate_limited: u64,
    pub handshake_timeouts: u64,
    pub zip_safety_rejections: u64,
    pub by_category: Seq<u64>,
}

impl SecurityMetricsView {
    /// All counters are zero.
    pub open spec fn is_zero(self) -> bool {
        &&& self.invalid_messages == 0
        &&& self.disconnects == 0
        &&& self.payload_sync_aborts == 0
        &&& self.registry_parse_failures == 0
        &&& self.rate_limited == 0
        &&& self.handshake_timeouts == 0
        &&& self.zip_safety_rejections == 0
        &&& self.by_category.len() == CATEGORY_COUNT
        &&& forall|i: int| 0 <= i < CATEGORY_COUNT ==> #[trigger] self.by_category[i] == 0
    }
}

/// Security metrics: one counter per kind of security event, and the
/// disconnects broken down by strike category.
#[derive(Debug)]
pub struct SecurityMetrics {
    invalid_messages_total: u64,
    disconnects_strikes_total: u64,
    payload_sync_aborts_total: u64,
    registry_parse_failures_total: u64,
    rate_limited_total: u64,
    handshake_timeouts_total: u64,
    zip_safety_rejections_total: u64,
    strikes_by_category: Vec<u64>,
}

impl View for SecurityMetrics {
    type V = SecurityMetricsView;

    closed spec fn view(&self) -> SecurityMetricsView {
        SecurityMetricsView {
            invalid_messages: self.invalid_messages_total,
            disconnects: self.disconnects_strikes_total,
            payload_sync_aborts: self.payload_sync_aborts_total,
            registry_parse_failures: self.registry_parse_failures_total,
            rate_limited: self.rate_limited_total,
            handshake_timeouts: self.handshake_timeouts_total,
            zip_safety_rejections: self.zip_safety_rejections_total,
            by_category: self.strikes_by_category@,
        }
    }
}

fn zero_totals() -> (v: Vec<u64>)
    ensures
        v@.len() == CATEGORY_COUNT,
        forall|i: int| 0 <= i < CATEGORY_COUNT ==> #[trigger] v@[i] == 0,
{
    let mut v = Vec::new();
    let mut i: usize = 0;
    while i < CATEGORY_COUNT
        invariant
            i <= CATEGORY_COUNT,
            v@.len() == i,
            forall|j: int| 0 <= j < i ==> #[trigger] v@[j] == 0,
        decreases CATEGORY_COUNT - i,
    {
        v.push(0);
        i = i + 1;
    }
    v
}

impl SecurityMetrics {
    /// One disconnect counter per strike category.
    pub open spec fn wf(&self) -> bool {
        self@.by_category.len() == CATEGORY_COUNT
    }

    /// Create a new metrics instance
    pub fn new() -> (m: SecurityMetrics)
        ensures
            m.wf(),
            m@.is_zero(),
    {
        SecurityMetrics {
            invalid_messages_total: 0,
            disconnects_strikes_total: 0,
            payload_sync_aborts_total: 0,
            registry_parse_failures_total: 0,
            rate_limited_total: 0,
            handshake_timeouts_total: 0,
            zip_safety_rejections_total: 0,
            strikes_by_category: zero_totals(),
        }
    }

    /// Record an invalid message
    pub fn record_invalid_message(&mut self)
        ensures
            final(self)@ == (SecurityMetricsView {
                invalid_messages: bump(old(self)@.invalid_messages),
                ..old(self)@
            }),
    {
        self.invalid_messages_total = bump_exec(self.invalid_messages_total);
    }

    /// Record a disconnect due to strikes
    pub fn record_disconnect(&mut self, category: StrikeCategory)
        requires
            old(self).wf(),
        ensures
            final(self).wf(),
            final(self)@ == (SecurityMetricsView {
                disconnects: bump(old(self)@.disconnects),
                by_category: old(self)@.by_category.update(
                    category.index(),
                    bump(old(self)@.by_category[category.index()]),
                ),
                ..old(self)@
            }),
    {
        self.disconnects_strikes_total = bump_exec(self.disconnects_strikes_total);
        self.increment_category(category);
    }

    /// Record a payload sync abort
    pub fn record_payload_sync_abort(&mut self)
        ensures
            final(self)@ == (SecurityMetricsView {
                payload_sync_aborts: bump(old(self)@.payload_sync_aborts),
                ..old(self)@
            }),
    {
        self.payload_sync_aborts_total = bump_exec(self.payload_sync_aborts_total);
    }

    /// Record a registry parse failure
    pub fn record_registry_parse_failure(&mut self)
        ensures
            final(self)@ == (SecurityMetricsView {
                registry_parse_failures: bump(old(self)@.registry_parse_failures),
                ..old(self)@
            }),
    {
        self.registry_parse_failures_total = bump_exec(self.registry_parse_failures_total);
    }

    /// Record a rate-limited message
    pub fn record_rate_limited(&mut self)
        ensures
            final(self)@ == (SecurityMetricsView {
                rate_limited: bump(old(self)@.rate_limited),
                ..old(self)@
            }),
    {
        self.rate_limited_total = bump_exec(self.rate_limited_total);
    }

    /// Record a handshake timeout
    pub fn record_handshake_timeout(&mut self)
        ensures
            final(self)@ == (SecurityMetricsView {
                handshake_timeouts: bump(old(self)@.handshake_timeouts),
                ..old(self)@
            }),
    {
        self.handshake_timeouts_total = bump_exec(self.handshake_timeouts_total);
    }

    /// Record a zip safety rejection
    pub fn record_zip_safety_rejection(&mut self)
        ensures
            final(self)@ == (SecurityMetricsView {
                zip_safety_rejections: bump(old(self)@.zip_safety_rejections),
                ..old(self)@
            }),
    {
        self.zip_safety_rejections_total = bump_exec(self.zip_safety_rejections_total);
    }

    /// Get a snapshot of all metrics
    pub fn snapshot(&self) -> (s: MetricsSnapshot)
        requires
            self.wf(),
        ensures
            s.invalid_messages_total == self@.invalid_messages,
            s.disconnects_strikes_total == self@.disconnects,
            s.payload_sync_aborts_total == self@.payload_sync_aborts,
            s.registry_parse_failures_total == self@.registry_parse_failures,
            s.rate_limited_total == self@.rate_limited,
            s.handshake_timeouts_total == self@.handshake_timeouts,
            s.zip_safety_rejections_total == self@.zip_safety_rejections,
            s.strikes_by_category.wf(),
            s.strikes_by_category.totals() == self@.by_category,
    {
        let mut totals: Vec<u64> = Vec::new();
        let mut i: usize = 0;
        while i < CATEGORY_COUNT
            invariant
                i <= CATEGORY_COUNT,
                self.wf(),
                totals@ == self@.by_category.subrange(0, i as int),
            decreases CATEGORY_COUNT - i,
        {
            totals.push(self.strikes_by_category[i]);
            i = i + 1;
            assert(totals@ =~= self@.by_category.subrange(0, i as int));
        }
        assert(totals@ =~= self@.by_category);
        MetricsSnapshot {
            invalid_messages_total: self.invalid_messages_total,
            disconnects_strikes_total: self.disconnects_strikes_total,
            payload_sync_aborts_total: self.payload_sync_aborts_total,
            registry_parse_failures_total: self.registry_parse_failures_total,
            rate_limited_total: self.rate_limited_total,
            handshake_timeouts_total: self.handshake_timeouts_total,
            zip_safety_rejections_total: self.zip_safety_rejections_total,
            strikes_by_category: CategoryTotals { totals },
        }
    }

    /// Reset all counters
    pub fn reset(&mut self)
        ensures
            final(self).wf(),
            final(self)@.is_zero(),
    {
        *self = SecurityMetrics::new();
    }

    /// Count one more disconnect in `category`.
    pub fn increment_category(&mut self, category: StrikeCategory)
        requires
            old(self).wf(),
        ensures
            final(self).wf(),
            final(self)@ == (SecurityMetricsView {
                by_category: old(self)@.by_category.update(
                    category.index(),
                    bump(old(self)@.by_category[category.index()]),
                ),
                ..old(self)@
            }),
    {
        let i = category.slot();
        let n = self.strikes_by_category[i];
        self.strikes_by_category.set(i, bump_exec(n));
    }
}

impl Default for SecurityMetrics {
    fn default() -> (m: SecurityMetrics)
        ensures
            m.wf(),
            m@.is_zero(),
    {
        Self::new()
    }
}


/// The log line for `message` in `category`, mentioning how many similar
/// messages were suppressed before it when there were any.
pub open spec fn security_line(category: Seq<char>, message: Seq<char>, suppressed: u64) -> Seq<char> {
    if suppressed > 0 {
        "[security:"@ + category + "] "@ + message + " (suppressed "@ + decimal(suppressed as nat)
            + " similar)"@
    } else {
        "[security:"@ + category + "] "@ + message
    }
}

fn format_line(category: &str, message: &str, suppressed: u64) -> (s: String)
    ensures
        s@ == security_line(category@, message@, suppressed),
{
    let a = concat("[security:", category);
    let b = concat(a.as_str(), "] ");
    let line = concat(b.as_str(), message);
    if suppressed > 0 {
        let c = concat(line.as_str(), " (suppressed ");
        let n = u64_to_decimal(suppressed);
        let d = concat(c.as_str(), n.as_str());
        concat(d.as_str(), " similar)")
    } else {
        line
    }
}

/// The characters of an optional string.
pub open spec fn opt_view(o: Option<String>) -> Option<Seq<char>> {
    match o {
        Some(s) => Some(s@),
        None => None,
    }
}

/// One throttled category: when it was last logged and how many messages
/// were suppressed since.
#[derive(Debug)]
struct LogEntry {
    category: String,
    last_log: std::time::Instant,
    suppressed: u64,
}

/// The observable state of a [`RateLimitedLogger`].
pub struct RateLimitedLoggerView {
    /// The categories logged so far, each with the number of messages
    /// suppressed since it was last logged.
    pub categories: Map<Seq<char>, u64>,
    pub min_interval_ms: u64,
    pub debug_mode: bool,
}

impl RateLimitedLoggerView {
    /// Messages of `category` suppressed since it was last logged.
    pub open spec fn suppressed(self, category: Seq<char>) -> u64 {
        if self.categories.contains_key(category) {
            self.categories[category]
        } else {
            0
        }
    }
}

/// `post` is `pre` after a warning in `category` with `message`, issued
/// `elapsed_ms` milliseconds after the category was last logged, with `line`
/// the text to log, if any.
///
/// A category logged less than the minimum interval ago is throttled: the
/// message is counted as suppressed and nothing is logged. Otherwise the
/// message is logged with the count of suppressed ones, which starts again.
pub open spec fn warn_step(
    pre: RateLimitedLoggerView,
    post: RateLimitedLoggerView,
    category: Seq<char>,
    message: Seq<char>,
    elapsed_ms: u64,
    line: Option<Seq<char>>,
) -> bool {
    &&& post.min_interval_ms == pre.min_interval_ms
    &&& post.debug_mode == pre.debug_mode
    &&& if pre.categories.contains_key(category) && elapsed_ms < pre.min_interval_ms {
        &&& line is None
        &&& post.categories == pre.categories.insert(category, (pre.categories[category] + 1) as u64)
    } else {
        &&& line == Some(security_line(category, message, pre.suppressed(category)))
        &&& post.categories == pre.categories.insert(category, 0)
    }
}

/// Rate-limited logger for security events
///
/// Prevents log spam by throttling similar messages. It decides what is to be
/// logged and returns the text; the caller hands it to the log.
pub struct RateLimitedLogger {
    entries: Vec<LogEntry>,
    min_interval_ms: u64,
    debug_mode: bool,
    model: Ghost<Map<Seq<char>, u64>>,
}

impl View for RateLimitedLogger {
    type V = RateLimitedLoggerView;

    closed spec fn view(&self) -> RateLimitedLoggerView {
        RateLimitedLoggerView {
            categories: self.model@,
            min_interval_ms: self.min_interval_ms,
            debug_mode: self.debug_mode,
        }
    }
}

impl RateLimitedLogger {
    /// Entries have distinct categories and hold exactly the categories of the model.
    pub closed spec fn wf(&self) -> bool {
        &&& forall|i: int, j: int|
            0 <= i < j < self.entries@.len() ==> #[trigger] self.entries@[i].category@
                != #[trigger] self.entries@[j].category@
        &&& forall|i: int|
            0 <= i < self.entries@.len() ==> self.model@.contains_key(
                #[trigger] self.entries@[i].category@,
            ) && self.model@[self.entries@[i].category@] == self.entries@[i].suppressed
        &&& forall|c: Seq<char>|
            #[trigger] self.model@.contains_key(c) ==> exists|i: int|
                0 <= i < self.entries@.len() && #[trigger] self.entries@[i].category@ == c
    }

    /// Create with default interval (1 second)
    pub fn new() -> (l: RateLimitedLogger)
        ensures
            l.wf(),
            l@.categories == Map::<Seq<char>, u64>::empty(),
            l@.min_interval_ms == 1000,
            !l@.debug_mode,
    {
        Self::with_interval(1000)
    }

    /// Create with custom interval, in milliseconds
    pub fn with_interval(interval_ms: u64) -> (l: RateLimitedLogger)
        ensures
            l.wf(),
            l@.categories == Map::<Seq<char>, u64>::empty(),
            l@.min_interval_ms == interval_ms,
            !l@.debug_mode,
    {
        RateLimitedLogger {
            entries: Vec::new(),
            min_interval_ms: interval_ms,
            debug_mode: false,
            model: Ghost(Map::empty()),
        }
    }

    /// Enable debug mode for verbose logging
    pub fn with_debug_mode(self, enabled: bool) -> (l: RateLimitedLogger)
        requires
            self.wf(),
        ensures
            l.wf(),
            l@ == (RateLimitedLoggerView { debug_mode: enabled, ..self@ }),
    {
        let ghost pre = self;
        let mut l = self;
        l.debug_mode = enabled;
        assert(l.entries == pre.entries && l.model == pre.model);
        l
    }

    /// Position of the entry of `category`, if it has one.
    fn find(&self, category: &str) -> (r: Option<usize>)
        requires
            self.wf(),
        ensures
            match r {
                Some(i) => i < self.entries@.len() && self.entries@[i as int].category@ == category@,
                None => !self@.categories.contains_key(category@),
            },
    {
        let mut i: usize = 0;
        while i < self.entries.len()
            invariant
                self.wf(),
                i <= self.entries@.len(),
                forall|j: int| 0 <= j < i ==> #[trigger] self.entries@[j].category@ != category@,
            decreases self.entries@.len() - i,
        {
            if str_eq(self.entries[i].category.as_str(), category) {
                return Some(i);
            }
            i = i + 1;
        }
        None
    }

    /// Log a warning with rate limiting, `elapsed_ms` milliseconds after the
    /// category was last logged (ignored for a category not logged before).
    ///
    /// Returns the line to log, or `None` when the warning is throttled.
    pub fn warn_after(&mut self, category: &str, message: &str, elapsed_ms: u64) -> (line: Option<String>)
        requires
            old(self).wf(),
            old(self)@.suppressed(category@) < u64::MAX,
        ensures
            final(self).wf(),
            warn_step(old(self)@, final(self)@, category@, message@, elapsed_ms, opt_view(line)),
    {
        match self.find(category) {
            Some(i) => {
                if elapsed_ms < self.min_interval_ms {
                    let n = self.entries[i].suppressed;
                    self.entries.set(
                        i,
                        LogEntry {
                            category: category.to_string(),
                            last_log: self.entries[i].last_log,
                            suppressed: n + 1,
                        },
                    );
                    self.model = Ghost(self.model@.insert(category@, (n + 1) as u64));
                    proof { self.lemma_wf_after_set(old(self), i as int, category@); }
                    None
                } else {
                    let n = self.entries[i].suppressed;
                    let line = format_line(category, message, n);
                    self.entries.set(
                        i,
                        LogEntry { category: category.to_string(), last_log: clock::now(), suppressed: 0 },
                    );
                    self.model = Ghost(self.model@.insert(category@, 0));
                    proof { self.lemma_wf_after_set(old(self), i as int, category@); }
                    Some(line)
                }
            },
            None => {
                let line = format_line(category, message, 0);
                self.entries.push(
                    LogEntry { category: category.to_string(), last_log: clock::now(), suppressed: 0 },
                );
                self.model = Ghost(self.model@.insert(category@, 0));
                proof {
                    let n = self.entries@.len() - 1;
                    assert forall|c: Seq<char>| #[trigger] self.model@.contains_key(c) implies exists|i: int|
                        0 <= i < self.entries@.len() && #[trigger] self.entries@[i].category@ == c by {
                        if c == category@ {
                            assert(self.entries@[n].category@ == c);
                        } else {
                            assert(old(self).model@.contains_key(c));
                            let k = choose|k: int| 0 <= k < old(self).entries@.len() && #[trigger] old(self).entries@[k].category@ == c;
                            assert(self.entries@[k] == old(self).entries@[k]);
                        }
                    }
                    assert forall|i: int| 0 <= i < self.entries@.len() implies self.model@.contains_key(
                        #[trigger] self.entries@[i].category@) && self.model@[self.entries@[i].category@] == self.entries@[i].suppressed by {
                        if i < n {
                            assert(self.entries@[i] == old(self).entries@[i]);
                        }
                    }
                }
                Some(line)
            },
        }
    }

    proof fn lemma_wf_after_set(&self, pre: &Self, i: int, c: Seq<char>)
        requires
            pre.wf(),
            0 <= i < pre.entries@.len(),
            pre.entries@[i].category@ == c,
            self.entries@ == pre.entries@.update(i, self.entries@[i]),
            self.entries@[i].category@ == c,
            self.model@ == pre.model@.insert(c, self.entries@[i].suppressed),
        ensures
            self.wf(),
    {
        assert forall|c2: Seq<char>| #[trigger] self.model@.contains_key(c2) implies exists|k: int|
            0 <= k < self.entries@.len() && #[trigger] self.entries@[k].category@ == c2 by {
            if c2 == c {
                assert(self.entries@[i].category@ == c2);
            } else {
                let k = choose|k: int| 0 <= k < pre.entries@.len() && #[trigger] pre.entries@[k].category@ == c2;
                assert(self.entries@[k] == pre.entries@[k]);
            }
        }
        assert forall|k: int| 0 <= k < self.entries@.len() implies self.model@.contains_key(
            #[trigger] self.entries@[k].category@) && self.model@[self.entries@[k].category@] == self.entries@[k].suppressed by {
            if k != i {
                assert(self.entries@[k] == pre.entries@[k]);
                assert(pre.entries@[k].category@ != c);
            }
        }
        assert forall|a: int, b: int| 0 <= a < b < self.entries@.len() implies #[trigger] self.entries@[a].category@
            != #[trigger] self.entries@[b].category@ by {
            if a != i {
                assert(self.entries@[a] == pre.entries@[a]);
            }
            if b != i {
                assert(self.entries@[b] == pre.entries@[b]);
            }
        }
    }

    /// Log a warning with rate limiting.
    ///
    /// Category is used for per-category throttling. Returns the line to log,
    /// or `None` when the warning is throttled; the time since the category was
    /// last logged comes from the clock.
    pub fn warn(&mut self, category: &str, message: &str) -> (line: Option<String>)
        requires
            old(self).wf(),
            old(self)@.suppressed(category@) < u64::MAX,
        ensures
            final(self).wf(),
            exists|e: u64| #[trigger] warn_step(old(self)@, final(self)@, category@, message@, e, opt_view(line)),
    {
        let elapsed = match self.find(category) {
            Some(i) => clock::millis_since(&self.entries[i].last_log),
            None => 0,
        };
        self.warn_after(category, message, elapsed)
    }

    /// Log debug message (only if debug_mode enabled): returns the line to log.
    pub fn debug(&mut self, category: &str, message: &str) -> (line: Option<String>)
        ensures
            final(self)@ == old(self)@,
            final(self).wf() == old(self).wf(),
            match line {
                Some(s) => old(self)@.debug_mode && s@ == security_line(category@, message@, 0),
                None => !old(self)@.debug_mode,
            },
    {
        if self.debug_mode {
            Some(format_line(category, message, 0))
        } else {
            None
        }
    }

    /// Log error (always logged, no rate limiting): returns the line to log.
    pub fn error(&mut self, category: &str, message: &str) -> (line: String)
        ensures
            final(self)@ == old(self)@,
            final(self).wf() == old(self).wf(),
            line@ == security_line(category@, message@, 0),
    {
        format_line(category, message, 0)
    }

    /// Get suppressed message count for a category
    pub fn suppressed_count(&self, category: &str) -> (n: u64)
        requires
            self.wf(),
        ensures
            n == self@.suppressed(category@),
    {
        match self.find(category) {
            Some(i) => self.entries[i].suppressed,
            None => 0,
        }
    }

    /// Whether no category has been logged or suppressed since creation or the last reset.
    pub fn is_clear(&self) -> (b: bool)
        requires
            self.wf(),
        ensures
            b == (self@.categories == Map::<Seq<char>, u64>::empty()),
    {
        if self.entries.len() == 0 {
            assert(self@.categories =~= Map::<Seq<char>, u64>::empty());
            true
        } else {
            assert(self@.categories.contains_key(self.entries@[0].category@));
            false
        }
    }

    /// Reset all suppression state
    pub fn reset(&mut self)
        ensures
            final(self).wf(),
            final(self)@ == (RateLimitedLoggerView { categories: Map::empty(), ..old(self)@ }),
    {
        self.entries = Vec::new();
        self.model = Ghost(Map::empty());
    }
}

impl Default for RateLimitedLogger {
    fn default() -> (l: RateLimitedLogger)
        ensures
            l.wf(),
            l@.categories == Map::<Seq<char>, u64>::empty(),
            l@.min_interval_ms == 1000,
            !l@.debug_mode,
    {
        Self::new()
    }
}

} // verus!
