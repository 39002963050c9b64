//! Strike tracking: violations accumulate per connection and trigger a
//! disconnect once the threshold is reached; strikes decay over time.

use vstd::prelude::*;

use crate::clock;
use crate::limits::{STRIKES_BEFORE_DISCONNECT, STRIKES_DECAY_SECS};
use crate::text::{concat, decimal, u64_to_decimal};

verus! {

/// Categories of security violations.
#[derive(Debug, Clone, Copy, PartialEq, Eq, Hash, Structural)]
pub enum StrikeCategory {
    /// Invalid message format (decode failure)
    DecodeError,
    /// Message exceeds size limits
    SizeViolation,
    /// Rate limit exceeded
    RateExceeded,
    /// Handshake protocol violation
    HandshakeAbuse,
    /// Payload sync protocol violation
    PayloadSyncAbuse,
    /// Hash verification failed
    HashMismatch,
    /// Parser limit exceeded
    ParserAbuse,
}

/// Number of strike categories.
pub const CATEGORY_COUNT: usize = 7;

impl StrikeCategory {
    /// Position of the category in per-category tables.
    pub open spec fn index(self) -> int {
        match self {
            StrikeCategory::DecodeError => 0,
            StrikeCategory::SizeViolation => 1,
            StrikeCategory::RateExceeded => 2,
            StrikeCategory::HandshakeAbuse => 3,
            StrikeCategory::PayloadSyncAbuse => 4,
            StrikeCategory::HashMismatch => 5,
            StrikeCategory::ParserAbuse => 6,
        }
    }

    /// The category stored at position `i` of per-category tables.
    pub open spec fn from_index(i: int) -> StrikeCategory {
        if i == 0 {
            StrikeCategory::DecodeError
        } else if i == 1 {
            StrikeCategory::SizeViolation
        } else if i == 2 {
            StrikeCategory::RateExceeded
        } else if i == 3 {
            StrikeCategory::HandshakeAbuse
        } else if i == 4 {
            StrikeCategory::PayloadSyncAbuse
        } else if i == 5 {
            StrikeCategory::HashMismatch
        } else {
            StrikeCategory::ParserAbuse
        }
    }

    /// Executable form of [`StrikeCategory::index`].
    pub fn slot(&self) -> (i: usize)
        ensures
            i == self.index(),
            i < CATEGORY_COUNT,
    {
        match self {
            StrikeCategory::DecodeError => 0,
            StrikeCategory::SizeViolation => 1,
            StrikeCategory::RateExceeded => 2,
            StrikeCategory::HandshakeAbuse => 3,
            StrikeCategory::PayloadSyncAbuse => 4,
            StrikeCategory::HashMismatch => 5,
            StrikeCategory::ParserAbuse => 6,
        }
    }

    /// The human-readable description of the category.
    pub open spec fn spec_description(self) -> Seq<char> {
        match self {
            StrikeCategory::DecodeError => "invalid message format"@,
            StrikeCategory::SizeViolation => "message too large"@,
            StrikeCategory::RateExceeded => "rate limit exceeded"@,
            StrikeCategory::HandshakeAbuse => "handshake protocol violation"@,
            StrikeCategory::PayloadSyncAbuse => "payload sync abuse"@,
            StrikeCategory::HashMismatch => "hash verification failed"@,
            StrikeCategory::ParserAbuse => "parser limit exceeded"@,
        }
    }

    /// Get a human-readable description of this category.
    pub fn description(&self) -> (s: &'static str)
        ensures
            s@ == self.spec_description(),
    {
        match self {
            StrikeCategory::DecodeError => "invalid message format",
            StrikeCategory::SizeViolation => "message too large",
            StrikeCategory::RateExceeded => "rate limit exceeded",
            StrikeCategory::HandshakeAbuse => "handshake protocol violation",
            StrikeCategory::PayloadSyncAbuse => "payload sync abuse",
            StrikeCategory::HashMismatch => "hash verification failed",
            StrikeCategory::ParserAbuse => "parser limit exceeded",
        }
    }
}

/// The disconnect message recorded when `category` pushes the count to `strikes`.
pub open spec fn disconnect_message(category: StrikeCategory, strikes: nat) -> Seq<char> {
    "Too many violations: "@ + category.spec_description() + " ("@ + decimal(strikes) + ")"@
}

/// Strikes of one connection, broken down by category.
///
/// A category appears once at least one strike of it has been recorded.
#[derive(Debug)]
pub struct CategoryCounts {
    counts: Vec<u32>,
}

impl CategoryCounts {
    /// The count of each category, at the category's index.
    pub closed spec fn counts(&self) -> Seq<u32> {
        self.counts@
    }

    /// One count per category.
    pub closed spec fn wf(&self) -> bool {
        self.counts@.len() == CATEGORY_COUNT
    }

    /// A well-formed table has one count per category.
    pub proof fn lemma_len(&self)
        requires
            self.wf(),
        ensures
            self.counts().len() == CATEGORY_COUNT,
    {
    }

    /// The count of strikes recorded in `category`.
    pub open spec fn count_of(&self, category: StrikeCategory) -> u32 {
        self.counts()[category.index()]
    }

    /// A table with no strikes.
    pub fn empty() -> (c: CategoryCounts)
        ensures
            c.wf(),
            forall|i: int| 0 <= i < CATEGORY_COUNT ==> #[trigger] c.counts()[i] == 0,
    {
        let mut counts = Vec::new();
        let mut i: usize = 0;
        while i < CATEGORY_COUNT
            invariant
                i <= CATEGORY_COUNT,
                counts@.len() == i,
                forall|j: int| 0 <= j < i ==> #[trigger] counts@[j] == 0,
            decreases CATEGORY_COUNT - i,
        {
            counts.push(0);
            i = i + 1;
        }
        CategoryCounts { counts }
    }

    /// The number of strikes in `category`, or `None` when there were none.
    pub fn get(&self, category: &StrikeCategory) -> (r: Option<u32>)
        requires
            self.wf(),
        ensures
            r == (if self.count_of(*category) == 0 {
                None
            } else {
                Some(self.count_of(*category))
            }),
    {
        let n = self.counts[category.slot()];
        if n == 0 {
            None
        } else {
            Some(n)
        }
    }

    /// Number of categories with at least one strike.
    pub fn len(&self) -> (n: usize)
        requires
            self.wf(),
        ensures
            n == Set::new(|i: int| 0 <= i < CATEGORY_COUNT && self.counts()[i] != 0).len(),
    {
        let mut n: usize = 0;
        let mut i: usize = 0;
        assert(Set::new(|j: int| 0 <= j < 0 && self.counts()[j] != 0) =~= Set::<int>::empty());
        while i < CATEGORY_COUNT
            invariant
                i <= CATEGORY_COUNT,
                self.wf(),
                n <= i,
                n == Set::new(|j: int| 0 <= j < i && self.counts()[j] != 0).len(),
            decreases CATEGORY_COUNT - i,
        {
            let ghost before = Set::new(|j: int| 0 <= j < i && self.counts()[j] != 0);
            let ghost after = Set::new(|j: int| 0 <= j < i + 1 && self.counts()[j] != 0);
            proof {
                lemma_prefix_set_finite(self.counts(), i as int);
            }
            if self.counts[i] != 0 {
                assert(after =~= before.insert(i as int));
                n = n + 1;
            } else {
                assert(after =~= before);
            }
            i = i + 1;
        }
        n
    }

    fn bump(&mut self, category: StrikeCategory)
        requires
            old(self).wf(),
            old(self).count_of(category) < u32::MAX,
        ensures
            final(self).wf(),
            final(self).counts() == old(self).counts().update(
                category.index(),
                (old(self).count_of(category) + 1) as u32,
            ),
    {
        let i = category.slot();
        let n = self.counts[i];
        self.counts.set(i, n + 1);
    }

    fn clear(&mut self)
        ensures
            final(self).wf(),
            forall|i: int| 0 <= i < CATEGORY_COUNT ==> #[trigger] final(self).counts()[i] == 0,
    {
        *self = CategoryCounts::empty();
    }
}

/// The set of indices below `k` whose count is non-zero is finite and has at most `k` elements.
proof fn lemma_prefix_set_finite(counts: Seq<u32>, k: int)
    requires
        0 <= k,
    ensures
        Set::new(|j: int| 0 <= j < k && counts[j] != 0).finite(),
        Set::new(|j: int| 0 <= j < k && counts[j] != 0).len() <= k,
    decreases k,
{
    let s = Set::new(|j: int| 0 <= j < k && counts[j] != 0);
    if k == 0 {
        assert(s =~= Set::empty());
    } else {
        lemma_prefix_set_finite(counts, k - 1);
        let prev = Set::new(|j: int| 0 <= j < k - 1 && counts[j] != 0);
        if counts[k - 1] != 0 {
            assert(s =~= prev.insert(k - 1));
        } else {
            assert(s =~= prev);
        }
    }
}

/// The observable state of a [`StrikeTracker`].
pub struct StrikeTrackerView {
    pub connection_id: u64,
    pub strikes: u32,
    pub has_last_strike: bool,
    pub category_counts: Seq<u32>,
    pub disconnect_triggered: bool,
    pub disconnect_reason: Option<Seq<char>>,
}

/// Per-connection strike tracker.
///
/// Accumulates violations and triggers disconnect when threshold is reached.
/// Strikes decay over time to allow recovery from transient issues.
#[derive(Debug)]
pub struct StrikeTracker {
    connection_id: u64,
    strikes: u32,
    last_strike_time: Option<std::time::Instant>,
    categories: CategoryCounts,
    disconnect_triggered: bool,
    disconnect_reason: Option<String>,
}

impl View for StrikeTracker {
    type V = StrikeTrackerView;

    closed spec fn view(&self) -> StrikeTrackerView {
        StrikeTrackerView {
            connection_id: self.connection_id,
            strikes: self.strikes,
            has_last_strike: self.last_strike_time is Some,
            category_counts: self.categories.counts(),
            disconnect_triggered: self.disconnect_triggered,
            disconnect_reason: match self.disconnect_reason {
                Some(r) => Some(r@),
                None => None,
            },
        }
    }
}

impl StrikeTracker {
    /// The tracker's internal invariant: the strike count never passes the
    /// threshold, reaching it is exactly what triggers the disconnect, and a
    /// reason is recorded exactly when the disconnect has been triggered.
    pub closed spec fn wf(&self) -> bool {
        &&& self.categories.wf()
        &&& self.strikes <= STRIKES_BEFORE_DISCONNECT
        &&& self.disconnect_triggered <==> self.strikes == STRIKES_BEFORE_DISCONNECT
        &&& self.disconnect_triggered <==> self.disconnect_reason is Some
        &&& self.disconnect_reason matches Some(r) ==> exists|c: StrikeCategory|
            r@ == #[trigger] disconnect_message(c, STRIKES_BEFORE_DISCONNECT as nat)
    }

    /// What a well-formed tracker guarantees: strikes never pass the
    /// threshold, the disconnect is triggered exactly at it, a reason is
    /// recorded exactly then and names the threshold, and there is one count
    /// per category.
    pub proof fn lemma_invariant(&self)
        requires
            self.wf(),
        ensures
            self@.strikes <= STRIKES_BEFORE_DISCONNECT,
            self@.disconnect_triggered <==> self@.strikes == STRIKES_BEFORE_DISCONNECT,
            self@.disconnect_triggered <==> self@.disconnect_reason is Some,
            self@.disconnect_reason matches Some(r) ==> exists|c: StrikeCategory|
                r == #[trigger] disconnect_message(c, STRIKES_BEFORE_DISCONNECT as nat),
            self@.category_counts.len() == CATEGORY_COUNT,
    {
    }

    /// A reason is recorded exactly when the disconnect has been triggered.
    pub proof fn lemma_reason_iff_triggered(&self)
        requires
            self.wf(),
        ensures
            self@.disconnect_triggered <==> self@.disconnect_reason is Some,
    {
    }

    /// The strike count recorded so far in `category`.
    pub open spec fn category_count(&self, category: StrikeCategory) -> u32 {
        self@.category_counts[category.index()]
    }

    /// Create a new strike tracker for a connection
    pub fn new(connection_id: u64) -> (t: StrikeTracker)
        ensures
            t.wf(),
            t@.connection_id == connection_id,
            t@.strikes == 0,
            !t@.has_last_strike,
            t@.category_counts.len() == CATEGORY_COUNT,
            forall|i: int| 0 <= i < CATEGORY_COUNT ==> #[trigger] t@.category_counts[i] == 0,
            !t@.disconnect_triggered,
            t@.disconnect_reason is None,
    {
        StrikeTracker {
            connection_id,
            strikes: 0,
            last_strike_time: None,
            categories: CategoryCounts::empty(),
            disconnect_triggered: false,
            disconnect_reason: None,
        }
    }

    /// Record a strike in the given category.
    ///
    /// Returns `true` if the connection should be disconnected (threshold reached).
    /// Once the disconnect is triggered it stays triggered and nothing more is counted.
    pub fn record_strike(&mut self, category: StrikeCategory) -> (disconnect: bool)
        requires
            old(self).wf(),
            !old(self)@.disconnect_triggered ==> old(self).category_count(category) < u32::MAX,
        ensures
            final(self).wf(),
            crate::security::strike_step(old(self)@, final(self)@, category, disconnect),
            disconnect == final(self)@.disconnect_triggered,
            old(self)@.disconnect_triggered ==> final(self)@ == old(self)@,
            !old(self)@.disconnect_triggered ==> {
                &&& final(self)@.connection_id == old(self)@.connection_id
                &&& final(self)@.strikes == old(self)@.strikes + 1
                &&& final(self)@.has_last_strike
                &&& final(self)@.category_counts == old(self)@.category_counts.update(
                    category.index(),
                    (old(self).category_count(category) + 1) as u32,
                )
                &&& final(self)@.disconnect_triggered == (final(self)@.strikes
                    >= STRIKES_BEFORE_DISCONNECT)
                &&& final(self)@.disconnect_reason == if final(self)@.disconnect_triggered {
                    Some(disconnect_message(category, final(self)@.strikes as nat))
                } else {
                    None
                }
            },
    {
        if self.disconnect_triggered {
            return true;
        }
        self.strikes = self.strikes + 1;
        self.last_strike_time = Some(clock::now());
        self.categories.bump(category);

        if self.strikes >= STRIKES_BEFORE_DISCONNECT {
            self.disconnect_triggered = true;
            let head = concat("Too many violations: ", category.description());
            let head = concat(head.as_str(), " (");
            let count = u64_to_decimal(self.strikes as u64);
            let head = concat(head.as_str(), count.as_str());
            let reason = concat(head.as_str(), ")");
            assert(reason@ == disconnect_message(category, STRIKES_BEFORE_DISCONNECT as nat));
            self.disconnect_reason = Some(reason);
            true
        } else {
            false
        }
    }

    /// Apply time-based strike decay.
    ///
    /// Call this periodically (e.g., once per second) to allow recovery.
    pub fn decay(&mut self)
        requires
            old(self).wf(),
        ensures
            final(self).wf(),
            crate::security::decay_step(old(self)@, final(self)@),
            final(self)@.connection_id == old(self)@.connection_id,
            final(self)@.category_counts == old(self)@.category_counts,
            final(self)@.disconnect_triggered == old(self)@.disconnect_triggered,
            final(self)@.disconnect_reason == old(self)@.disconnect_reason,
            final(self)@.has_last_strike == old(self)@.has_last_strike,
            old(self)@.disconnect_triggered ==> final(self)@.strikes == old(self)@.strikes,
            !old(self)@.has_last_strike ==> final(self)@.strikes == old(self)@.strikes,
            final(self)@.strikes == old(self)@.strikes || final(self)@.strikes
                == old(self)@.strikes - 1,
    {
        if self.disconnect_triggered {
            return;
        }
        let elapsed = match &self.last_strike_time {
            Some(t) => clock::secs_since(t),
            None => return,
        };
        self.decay_after(elapsed);
    }

    /// Strike decay once `elapsed_secs` seconds have passed since the last strike.
    ///
    /// One strike is forgiven when the disconnect has not been triggered, a strike
    /// has been recorded, at least the decay period has passed and the count is
    /// positive; the decay period then starts again.
    pub fn decay_after(&mut self, elapsed_secs: u64)
        requires
            old(self).wf(),
        ensures
            final(self).wf(),
            ({
                let forgive = !old(self)@.disconnect_triggered && old(self)@.has_last_strike
                    && elapsed_secs >= STRIKES_DECAY_SECS && old(self)@.strikes > 0;
                &&& final(self)@.strikes == if forgive {
                    (old(self)@.strikes - 1) as u32
                } else {
                    old(self)@.strikes
                }
                &&& final(self)@.connection_id == old(self)@.connection_id
                &&& final(self)@.category_counts == old(self)@.category_counts
                &&& final(self)@.disconnect_triggered == old(self)@.disconnect_triggered
                &&& final(self)@.disconnect_reason == old(self)@.disconnect_reason
                &&& final(self)@.has_last_strike == old(self)@.has_last_strike
            }),
    {
        if self.disconnect_triggered {
            return;
        }
        if self.last_strike_time.is_some() {
            if elapsed_secs >= STRIKES_DECAY_SECS as u64 && self.strikes > 0 {
                self.strikes = self.strikes.saturating_sub(1);
                self.last_strike_time = Some(clock::now());
            }
        }
    }

    /// Get current strike count
    pub fn get_strikes(&self) -> (n: u32)
        ensures
            n == self@.strikes,
    {
        self.strikes
    }

    /// Get strikes broken down by category
    pub fn get_strikes_by_category(&self) -> (c: &CategoryCounts)
        requires
            self.wf(),
        ensures
            c.wf(),
            c.counts() == self@.category_counts,
    {
        &self.categories
    }

    /// Check if connection should be disconnected
    pub fn should_disconnect(&self) -> (b: bool)
        ensures
            b == self@.disconnect_triggered,
    {
        self.disconnect_triggered
    }

    /// Get disconnect reason if should_disconnect is true
    pub fn disconnect_reason(&self) -> (r: Option<&str>)
        ensures
            match r {
                Some(s) => self@.disconnect_reason == Some(s@),
                None => self@.disconnect_reason is None,
            },
    {
        match &self.disconnect_reason {
            Some(s) => Some(s.as_str()),
            None => None,
        }
    }

    /// Get the connection ID this tracker is associated with
    pub fn connection_id(&self) -> (id: u64)
        ensures
            id == self@.connection_id,
    {
        self.connection_id
    }

    /// Reset the tracker to its initial state (keeping the connection ID).
    pub fn reset(&mut self)
        ensures
            final(self).wf(),
            final(self)@.connection_id == old(self)@.connection_id,
            final(self)@.strikes == 0,
            !final(self)@.has_last_strike,
            final(self)@.category_counts.len() == CATEGORY_COUNT,
            forall|i: int|
                0 <= i < CATEGORY_COUNT ==> #[trigger] final(self)@.category_counts[i] == 0,
            !final(self)@.disconnect_triggered,
            final(self)@.disconnect_reason is None,
    {
        self.strikes = 0;
        self.last_strike_time = None;
        self.categories.clear();
        self.disconnect_triggered = false;
        self.disconnect_reason = None;
    }
}

} // verus!
