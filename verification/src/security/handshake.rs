//! Handshake tracking: pending connections during the handshake, their
//! state machine, timeouts and per-source limits.

use vstd::prelude::*;

use crate::assoc::{has_key, keys_unique, lemma_absent, lemma_at, lemma_len, lemma_push, lemma_remove, lemma_update, to_map};
use crate::clock;
use crate::limits::{HANDSHAKE_TIMEOUT_SECS, MAX_CACHED_PAYLOAD_HASHES, MAX_PENDING_PER_SOURCE};
use crate::text::{concat, decimal, u64_to_decimal};

verus! {

/// Handshake state machine states
#[derive(Debug, Clone, Copy, PartialEq, Eq, Structural)]
pub enum HandshakeState {
    /// Waiting for Connect message
    AwaitingConnect,
    /// Waiting for ModSetResponse
    AwaitingModSet,
    /// Waiting for payload sync to complete
    AwaitingPayloadSync,
    /// Handshake complete
    Complete,
}

impl HandshakeState {
    /// The name of the state, as `Debug` prints it.
    pub open spec fn spec_name(self) -> Seq<char> {
        match self {
            HandshakeState::AwaitingConnect => "AwaitingConnect"@,
            HandshakeState::AwaitingModSet => "AwaitingModSet"@,
            HandshakeState::AwaitingPayloadSync => "AwaitingPayloadSync"@,
            HandshakeState::Complete => "Complete"@,
        }
    }

    /// The name of the state, as `Debug` prints it.
    pub fn name(&self) -> (s: &'static str)
        ensures
            s@ == self.spec_name(),
    {
        match self {
            HandshakeState::AwaitingConnect => "AwaitingConnect",
            HandshakeState::AwaitingModSet => "AwaitingModSet",
            HandshakeState::AwaitingPayloadSync => "AwaitingPayloadSync",
            HandshakeState::Complete => "Complete",
        }
    }
}

/// The transitions of the handshake: connect, then the mod set, then either
/// the payload sync and completion, or completion directly when no sync is needed.
pub open spec fn valid_transition(from: HandshakeState, to: HandshakeState) -> bool {
    ||| from == HandshakeState::AwaitingConnect && to == HandshakeState::AwaitingModSet
    ||| from == HandshakeState::AwaitingModSet && to == HandshakeState::AwaitingPayloadSync
    ||| from == HandshakeState::AwaitingModSet && to == HandshakeState::Complete
    ||| from == HandshakeState::AwaitingPayloadSync && to == HandshakeState::Complete
}

/// Whether the handshake may move from `from` to `to`.
pub fn is_valid_transition(from: HandshakeState, to: HandshakeState) -> (b: bool)
    ensures
        b == valid_transition(from, to),
{
    match (from, to) {
        (HandshakeState::AwaitingConnect, HandshakeState::AwaitingModSet) => true,
        (HandshakeState::AwaitingModSet, HandshakeState::AwaitingPayloadSync) => true,
        (HandshakeState::AwaitingModSet, HandshakeState::Complete) => true,
        (HandshakeState::AwaitingPayloadSync, HandshakeState::Complete) => true,
        _ => false,
    }
}

/// Errors that can occur during handshake tracking
#[derive(Debug, Clone, PartialEq, Eq, Structural)]
pub enum HandshakeError {
    /// Too many pending connections from this source
    TooManyPending,
    /// Invalid state transition attempted
    InvalidTransition { from: HandshakeState, to: HandshakeState },
    /// Handshake timed out
    Timeout,
    /// Too many cached payload hashes
    CacheHashLimitExceeded { count: usize },
    /// Connection not found
    NotFound,
}

impl HandshakeError {
    /// The message describing the error.
    pub open spec fn spec_message(self) -> Seq<char> {
        match self {
            HandshakeError::TooManyPending => "too many pending connections from this source"@,
            HandshakeError::InvalidTransition { from, to } => "invalid state transition from "@
                + from.spec_name() + " to "@ + to.spec_name(),
            HandshakeError::Timeout => "handshake timeout"@,
            HandshakeError::CacheHashLimitExceeded { count } => "cached hash count "@ + decimal(
                count as nat,
            ) + " exceeds limit "@ + decimal(MAX_CACHED_PAYLOAD_HASHES as nat),
            HandshakeError::NotFound => "connection not found in handshake tracker"@,
        }
    }

    /// The message describing the error.
    pub fn message(&self) -> (s: String)
        ensures
            s@ == self.spec_message(),
    {
        match self {
            HandshakeError::TooManyPending => crate::text::owned(
                "too many pending connections from this source",
            ),
            HandshakeError::InvalidTransition { from, to } => {
                let a = concat("invalid state transition from ", from.name());
                let b = concat(a.as_str(), " to ");
                concat(b.as_str(), to.name())
            },
            HandshakeError::Timeout => crate::text::owned("handshake timeout"),
            HandshakeError::CacheHashLimitExceeded { count } => {
                let n = u64_to_decimal(*count as u64);
                let a = concat("cached hash count ", n.as_str());
                let b = concat(a.as_str(), " exceeds limit ");
                let m = u64_to_decimal(MAX_CACHED_PAYLOAD_HASHES as u64);
                concat(b.as_str(), m.as_str())
            },
            HandshakeError::NotFound => crate::text::owned("connection not found in handshake tracker"),
        }
    }
}

/// A connection's source address as plain values: the IP version, the address
/// bits (an IPv4 address in the low 32 bits), the port, and for IPv6 the flow
/// information and scope.
#[derive(Debug, Clone, Copy, PartialEq, Eq, Hash, Structural)]
pub struct SourceAddr {
    pub is_v6: bool,
    pub ip: u128,
    pub port: u16,
    pub flowinfo: u32,
    pub scope_id: u32,
}

/// Pending handshake information
#[derive(Debug)]
struct PendingHandshake {
    source_addr: SourceAddr,
    start_time: std::time::Instant,
    state: HandshakeState,
    cached_hashes_count: usize,
}

/// What the tracker knows of a pending handshake.
pub struct PendingView {
    pub source_addr: SourceAddr,
    pub state: HandshakeState,
    pub cached_hashes_count: usize,
}

impl PendingHandshake {
    spec fn pv(&self) -> PendingView {
        PendingView {
            source_addr: self.source_addr,
            state: self.state,
            cached_hashes_count: self.cached_hashes_count,
        }
    }
}

/// The pending handshakes by connection id, as views.
spec fn pending_pairs(v: Seq<(u64, PendingHandshake)>) -> Seq<(u64, PendingView)> {
    v.map_values(|e: (u64, PendingHandshake)| (e.0, e.1.pv()))
}

/// Tracks pending handshakes for timeout and abuse detection
#[derive(Debug)]
pub struct HandshakeTracker {
    pending: Vec<(u64, PendingHandshake)>,
    per_source_count: Vec<(SourceAddr, usize)>,
}

/// The observable state of a [`HandshakeTracker`]: the pending handshakes by
/// connection id, and the number of pending handshakes counted per source.
pub struct HandshakeTrackerView {
    pub pending: Map<u64, PendingView>,
    pub counts: Map<SourceAddr, usize>,
}

/// The number of pending handshakes counted for a source.
pub open spec fn count_of(counts: Map<SourceAddr, usize>, addr: SourceAddr) -> usize {
    if counts.contains_key(addr) {
        counts[addr]
    } else {
        0
    }
}

/// The tracker after a handshake stops being tracked: its source's count goes
/// down by one, and a source with no pending handshake is forgotten.
pub open spec fn removed(t: HandshakeTrackerView, id: u64) -> HandshakeTrackerView {
    if t.pending.contains_key(id) {
        let a = t.pending[id].source_addr;
        let counts = if t.counts.contains_key(a) {
            let c = if t.counts[a] >= 1 {
                (t.counts[a] - 1) as usize
            } else {
                0usize
            };
            if c == 0 {
                t.counts.remove(a)
            } else {
                t.counts.insert(a, c)
            }
        } else {
            t.counts
        };
        HandshakeTrackerView { pending: t.pending.remove(id), counts }
    } else {
        t
    }
}

/// The tracker after connection `id` from `addr` starts its handshake.
pub open spec fn registered(t: HandshakeTrackerView, id: u64, addr: SourceAddr) -> HandshakeTrackerView {
    HandshakeTrackerView {
        pending: t.pending.insert(
            id,
            PendingView { source_addr: addr, state: HandshakeState::AwaitingConnect, cached_hashes_count: 0 },
        ),
        counts: t.counts.insert(addr, (count_of(t.counts, addr) + 1) as usize),
    }
}

/// The tracker after each of the listed handshakes stops being tracked, in order.
pub open spec fn removed_all(t: HandshakeTrackerView, ids: Seq<u64>) -> HandshakeTrackerView
    decreases ids.len(),
{
    if ids.len() == 0 {
        t
    } else {
        removed(removed_all(t, ids.drop_last()), ids.last())
    }
}

/// Whether a handshake pending for `age_ms` milliseconds has timed out.
pub open spec fn handshake_expired_at(age_ms: int) -> bool {
    age_ms >= HANDSHAKE_TIMEOUT_SECS as int * 1000
}

/// Whether `ids` holds exactly the pending handshakes that have timed out, with
/// each one's age in milliseconds given by `ages_ms`.
pub open spec fn expired_exactly(pending: Map<u64, PendingView>, ids: Seq<u64>, ages_ms: Map<u64, u64>) -> bool {
    forall|id: u64| #[trigger] pending.contains_key(id) ==> ages_ms.contains_key(id) && (ids.contains(id)
        <==> handshake_expired_at(ages_ms[id] as int))
}

/// A handshake times out after `HANDSHAKE_TIMEOUT_SECS` seconds: pending for
/// `secs` whole seconds and `ms` more milliseconds, it has timed out exactly
/// when `secs` has reached the timeout, and once timed out it stays so as it
/// ages.
pub proof fn law_handshake_timeout_in_seconds(secs: int, ms: int, a: int, b: int)
    requires
        0 <= ms < 1000,
        a <= b,
    ensures
        handshake_expired_at(secs * 1000 + ms) <==> secs >= HANDSHAKE_TIMEOUT_SECS,
        handshake_expired_at(a) ==> handshake_expired_at(b),
{
}

impl View for HandshakeTracker {
    type V = HandshakeTrackerView;

    closed spec fn view(&self) -> HandshakeTrackerView {
        HandshakeTrackerView {
            pending: to_map(pending_pairs(self.pending@)),
            counts: to_map(self.per_source_count@),
        }
    }
}

impl HandshakeTracker {
    /// The tracker's internal consistency: one entry per connection and per
    /// source, and every counted source with between one and
    /// `MAX_PENDING_PER_SOURCE` handshakes.
    pub open spec fn wf(&self) -> bool {
        &&& self.keys_ok()
        &&& forall|a: SourceAddr| #[trigger] self@.counts.contains_key(a) ==> 1 <= self@.counts[a] <= MAX_PENDING_PER_SOURCE
    }

    pub closed spec fn keys_ok(&self) -> bool {
        &&& keys_unique(pending_pairs(self.pending@))
        &&& keys_unique(self.per_source_count@)
    }

    /// Create a new handshake tracker
    pub fn new() -> (t: HandshakeTracker)
        ensures
            t.wf(),
            t@.pending == Map::<u64, PendingView>::empty(),
            t@.counts == Map::<SourceAddr, usize>::empty(),
    {
        let t = HandshakeTracker { pending: Vec::new(), per_source_count: Vec::new() };
        assert(pending_pairs(t.pending@) =~= Seq::empty());
        assert(t@.pending =~= Map::empty());
        assert(t@.counts =~= Map::empty());
        t
    }

    fn find_pending(&self, id: u64) -> (r: Option<usize>)
        requires
            self.keys_ok(),
        ensures
            match r {
                Some(i) => i < self.pending@.len() && self.pending@[i as int].0 == id && self@.pending.contains_key(id)
                    && self@.pending[id] == self.pending@[i as int].1.pv(),
                None => !self@.pending.contains_key(id),
            },
    {
        let mut i: usize = 0;
        while i < self.pending.len()
            invariant
                self.keys_ok(),
                i <= self.pending@.len(),
                forall|k: int| 0 <= k < i ==> self.pending@[k].0 != id,
            decreases self.pending@.len() - i,
        {
            if self.pending[i].0 == id {
                proof {
                    assert(pending_pairs(self.pending@)[i as int] == (id, self.pending@[i as int].1.pv()));
                    lemma_at(pending_pairs(self.pending@), i as int);
                }
                return Some(i);
            }
            i = i + 1;
        }
        proof {
            assert forall|k: int| 0 <= k < pending_pairs(self.pending@).len() implies pending_pairs(self.pending@)[k].0 != id by {
                assert(pending_pairs(self.pending@)[k].0 == self.pending@[k].0);
            }
            lemma_absent(pending_pairs(self.pending@), id);
        }
        None
    }

    fn find_source(&self, addr: SourceAddr) -> (r: Option<usize>)
        requires
            self.keys_ok(),
        ensures
            match r {
                Some(i) => i < self.per_source_count@.len() && self.per_source_count@[i as int].0 == addr
                    && self@.counts.contains_key(addr) && self@.counts[addr] == self.per_source_count@[i as int].1,
                None => !self@.counts.contains_key(addr) && !has_key(self.per_source_count@, addr),
            },
    {
        let mut i: usize = 0;
        while i < self.per_source_count.len()
            invariant
                self.keys_ok(),
                i <= self.per_source_count@.len(),
                forall|k: int| 0 <= k < i ==> self.per_source_count@[k].0 != addr,
            decreases self.per_source_count@.len() - i,
        {
            if self.per_source_count[i].0 == addr {
                proof {
                    lemma_at(self.per_source_count@, i as int);
                }
                return Some(i);
            }
            i = i + 1;
        }
        proof {
            lemma_absent(self.per_source_count@, addr);
        }
        None
    }

    /// Get current pending count for a source.
    pub fn pending_count(&self, source_addr: &SourceAddr) -> (n: usize)
        requires
            self.wf(),
        ensures
            n == count_of(self@.counts, *source_addr),
    {
        match self.find_source(*source_addr) {
            Some(i) => self.per_source_count[i].1,
            None => 0,
        }
    }

    /// Get total pending handshakes.
    pub fn total_pending(&self) -> (n: usize)
        requires
            self.wf(),
        ensures
            n == self@.pending.dom().len(),
    {
        proof {
            lemma_len(pending_pairs(self.pending@));
        }
        self.pending.len()
    }

    /// Get the state of a connection
    pub fn get_state(&self, connection_id: u64) -> (r: Option<HandshakeState>)
        requires
            self.wf(),
        ensures
            r == if self@.pending.contains_key(connection_id) {
                Some(self@.pending[connection_id].state)
            } else {
                None
            },
    {
        match self.find_pending(connection_id) {
            Some(i) => Some(self.pending[i].1.state),
            None => None,
        }
    }

    /// Update handshake state, refused for an unknown connection or a transition
    /// the handshake does not allow.
    pub fn update_state(&mut self, connection_id: u64, new_state: HandshakeState) -> (r: Result<(), HandshakeError>)
        requires
            old(self).wf(),
        ensures
            final(self).wf(),
            !old(self)@.pending.contains_key(connection_id) ==> {
                &&& r == Err::<(), HandshakeError>(HandshakeError::NotFound)
                &&& final(self)@ == old(self)@
            },
            old(self)@.pending.contains_key(connection_id) ==> {
                let p = old(self)@.pending[connection_id];
                if valid_transition(p.state, new_state) {
                    &&& r is Ok
                    &&& final(self)@.pending == old(self)@.pending.insert(
                        connection_id,
                        PendingView { state: new_state, ..p },
                    )
                    &&& final(self)@.counts == old(self)@.counts
                } else {
                    &&& r == Err::<(), HandshakeError>(
                        HandshakeError::InvalidTransition { from: p.state, to: new_state },
                    )
                    &&& final(self)@ == old(self)@
                }
            },
    {
        let i = match self.find_pending(connection_id) {
            Some(i) => i,
            None => {
                return Err(HandshakeError::NotFound);
            },
        };
        let from = self.pending[i].1.state;
        if !is_valid_transition(from, new_state) {
            return Err(HandshakeError::InvalidTransition { from, to: new_state });
        }
        let ghost ps = pending_pairs(self.pending@);
        let (id, mut entry) = self.pending.remove(i);
        entry.state = new_state;
        proof {
            assert(ps[i as int].0 == connection_id);
            lemma_update(ps, i as int, entry.pv());
        }
        self.pending.insert(i, (id, entry));
        assert(pending_pairs(self.pending@) =~= ps.update(i as int, (connection_id, entry.pv())));
        assert(self.keys_ok());
        assert(self@.counts == old(self)@.counts);
        Ok(())
    }

    /// Record cached hashes count from client, refused above
    /// `MAX_CACHED_PAYLOAD_HASHES` or for an unknown connection.
    pub fn set_cached_hashes_count(&mut self, connection_id: u64, count: usize) -> (r: Result<(), HandshakeError>)
        requires
            old(self).wf(),
        ensures
            final(self).wf(),
            count > MAX_CACHED_PAYLOAD_HASHES ==> {
                &&& r == Err::<(), HandshakeError>(HandshakeError::CacheHashLimitExceeded { count })
                &&& final(self)@ == old(self)@
            },
            count <= MAX_CACHED_PAYLOAD_HASHES && !old(self)@.pending.contains_key(connection_id) ==> {
                &&& r == Err::<(), HandshakeError>(HandshakeError::NotFound)
                &&& final(self)@ == old(self)@
            },
            count <= MAX_CACHED_PAYLOAD_HASHES && old(self)@.pending.contains_key(connection_id) ==> {
                &&& r is Ok
                &&& final(self)@.pending == old(self)@.pending.insert(
                    connection_id,
                    PendingView { cached_hashes_count: count, ..old(self)@.pending[connection_id] },
                )
                &&& final(self)@.counts == old(self)@.counts
            },
    {
        if count > MAX_CACHED_PAYLOAD_HASHES {
            return Err(HandshakeError::CacheHashLimitExceeded { count });
        }
        let i = match self.find_pending(connection_id) {
            Some(i) => i,
            None => {
                return Err(HandshakeError::NotFound);
            },
        };
        let ghost ps = pending_pairs(self.pending@);
        let (id, mut entry) = self.pending.remove(i);
        entry.cached_hashes_count = count;
        proof {
            assert(ps[i as int].0 == connection_id);
            lemma_update(ps, i as int, entry.pv());
        }
        self.pending.insert(i, (id, entry));
        assert(pending_pairs(self.pending@) =~= ps.update(i as int, (connection_id, entry.pv())));
        assert(self.keys_ok());
        assert(self@.counts == old(self)@.counts);
        Ok(())
    }

    /// Remove a connection from tracking
    fn remove(&mut self, connection_id: u64)
        requires
            old(self).wf(),
        ensures
            final(self).wf(),
            final(self)@ == removed(old(self)@, connection_id),
    {
        let i = match self.find_pending(connection_id) {
            Some(i) => i,
            None => {
                return;
            },
        };
        let ghost ps = pending_pairs(self.pending@);
        proof {
            assert(ps[i as int].0 == connection_id);
            lemma_remove(ps, i as int);
        }
        let (_, entry) = self.pending.remove(i);
        assert(pending_pairs(self.pending@) =~= ps.remove(i as int));
        assert(self.keys_ok());
        let addr = entry.source_addr;
        let ghost counts0 = self@.counts;
        assert(counts0 == old(self)@.counts);
        match self.find_source(addr) {
            None => {},
            Some(j) => {
                let ghost cs = self.per_source_count@;
                let c = self.per_source_count[j].1;
                let c1: usize = if c >= 1 {
                    c - 1
                } else {
                    0
                };
                if c1 == 0 {
                    proof {
                        lemma_remove(cs, j as int);
                    }
                    self.per_source_count.remove(j);
                    assert(self.keys_ok());
                    assert(self@.counts == counts0.remove(addr));
                } else {
                    proof {
                        lemma_update(cs, j as int, c1);
                    }
                    self.per_source_count.set(j, (addr, c1));
                    assert(self.keys_ok());
                    assert(self@.counts == counts0.insert(addr, c1));
                }
            },
        }
    }

    /// Mark handshake as complete and remove from tracking.
    pub fn complete(&mut self, connection_id: u64)
        requires
            old(self).wf(),
        ensures
            final(self).wf(),
            final(self)@ == removed(old(self)@, connection_id),
    {
        self.remove(connection_id);
    }

    /// Abort handshake and remove from tracking.
    pub fn abort(&mut self, connection_id: u64)
        requires
            old(self).wf(),
        ensures
            final(self).wf(),
            final(self)@ == removed(old(self)@, connection_id),
    {
        self.remove(connection_id);
    }

    /// Whether a handshake pending for `age_ms` milliseconds has timed out: it
    /// has once `HANDSHAKE_TIMEOUT_SECS` seconds have passed.
    pub fn handshake_expired(age_ms: u64) -> (b: bool)
        ensures
            b == handshake_expired_at(age_ms as int),
    {
        age_ms >= HANDSHAKE_TIMEOUT_SECS as u64 * 1000
    }

    /// Check all pending handshakes for timeout: those pending for
    /// `HANDSHAKE_TIMEOUT_SECS` or more are aborted, and their ids returned.
    /// Which ones have timed out depends on the clock.
    pub fn check_timeouts(&mut self) -> (timed_out: Vec<u64>)
        requires
            old(self).wf(),
        ensures
            final(self).wf(),
            timed_out@.no_duplicates(),
            forall|k: int| 0 <= k < timed_out@.len() ==> old(self)@.pending.contains_key(#[trigger] timed_out@[k]),
            exists|ages_ms: Map<u64, u64>| #[trigger] expired_exactly(old(self)@.pending, timed_out@, ages_ms),
            final(self)@ == removed_all(old(self)@, timed_out@),
    {
        let now = clock::now();
        let ghost ps = pending_pairs(self.pending@);
        let mut ids: Vec<u64> = Vec::new();
        let ghost mut idxs: Seq<int> = Seq::empty();
        let ghost mut ages: Map<u64, u64> = Map::empty();
        let mut i: usize = 0;
        while i < self.pending.len()
            invariant
                self.wf(),
                ps == pending_pairs(self.pending@),
                i <= self.pending@.len(),
                ids@.len() == idxs.len(),
                forall|k: int| 0 <= k < idxs.len() ==> 0 <= #[trigger] idxs[k] < i && ids@[k] == self.pending@[idxs[k]].0,
                forall|a: int, b: int| 0 <= a < b < idxs.len() ==> #[trigger] idxs[a] < #[trigger] idxs[b],
                forall|k: int| 0 <= k < i ==> ages.contains_key(#[trigger] ps[k].0) && (ids@.contains(ps[k].0)
                    <==> handshake_expired_at(ages[ps[k].0] as int)),
            decreases self.pending@.len() - i,
        {
            let age = clock::millis_between(&now, &self.pending[i].1.start_time);
            let expired = Self::handshake_expired(age);
            let ghost old_ids = ids@;
            let ghost old_ages = ages;
            let ghost key = ps[i as int].0;
            proof {
                assert(key == self.pending@[i as int].0);
                ages = ages.insert(key, age);
                assert forall|m: int| 0 <= m < old_ids.len() implies old_ids[m] != key by {
                    assert(old_ids[m] == ps[idxs[m]].0);
                    assert(idxs[m] != i);
                }
            }
            if expired {
                ids.push(self.pending[i].0);
                proof {
                    idxs = idxs.push(i as int);
                }
            }
            proof {
                assert(ids@.contains(key) <==> expired) by {
                    if expired {
                        assert(ids@[ids@.len() - 1] == key);
                    } else {
                        assert(ids@ == old_ids);
                    }
                }
                assert forall|k: int| 0 <= k < i + 1 implies ages.contains_key(#[trigger] ps[k].0) && (ids@.contains(
                    ps[k].0,
                ) <==> handshake_expired_at(ages[ps[k].0] as int)) by {
                    if k < i {
                        assert(ps[k].0 != key);
                        assert(ages[ps[k].0] == old_ages[ps[k].0]);
                        if expired {
                            assert(ids@ == old_ids.push(key));
                            assert(ids@.contains(ps[k].0) ==> old_ids.contains(ps[k].0)) by {
                                if ids@.contains(ps[k].0) {
                                    let m = choose|m: int| 0 <= m < ids@.len() && ids@[m] == ps[k].0;
                                    assert(m < old_ids.len());
                                    assert(old_ids[m] == ps[k].0);
                                }
                            }
                            if old_ids.contains(ps[k].0) {
                                let m = choose|m: int| 0 <= m < old_ids.len() && old_ids[m] == ps[k].0;
                                assert(ids@[m] == ps[k].0);
                            }
                        } else {
                            assert(ids@ == old_ids);
                        }
                    }
                }
            }
            i = i + 1;
        }
        proof {
            assert forall|id: u64| #[trigger] self@.pending.contains_key(id) implies ages.contains_key(id)
                && (ids@.contains(id) <==> handshake_expired_at(ages[id] as int)) by {
                assert(has_key(ps, id));
                let k = choose|k: int| 0 <= k < ps.len() && #[trigger] ps[k].0 == id;
                assert(ps[k].0 == id);
            }
            assert(expired_exactly(self@.pending, ids@, ages));
        }
        proof {
            assert forall|a: int, b: int| 0 <= a < ids@.len() && 0 <= b < ids@.len() && a != b implies ids@[a] != ids@[b] by {
                assert(ps[idxs[a]].0 == ids@[a]);
                assert(ps[idxs[b]].0 == ids@[b]);
                if a < b {
                    assert(idxs[a] < idxs[b]);
                } else {
                    assert(idxs[b] < idxs[a]);
                }
            }
            assert forall|k: int| 0 <= k < ids@.len() implies self@.pending.contains_key(#[trigger] ids@[k]) by {
                assert(ps[idxs[k]].0 == ids@[k]);
                lemma_at(ps, idxs[k]);
            }
        }
        let ghost t0 = self@;
        let mut k: usize = 0;
        while k < ids.len()
            invariant
                self.wf(),
                k <= ids@.len(),
                self@ == removed_all(t0, ids@.take(k as int)),
            decreases ids@.len() - k,
        {
            assert(ids@.take(k + 1).drop_last() =~= ids@.take(k as int));
            self.remove(ids[k]);
            k = k + 1;
        }
        assert(ids@.take(ids@.len() as int) =~= ids@);
        ids
    }

    /// Register a new pending handshake, refused when its source already has
    /// `MAX_PENDING_PER_SOURCE` pending.
    pub fn register(&mut self, connection_id: u64, source_addr: SourceAddr) -> (r: Result<(), HandshakeError>)
        requires
            old(self).wf(),
        ensures
            final(self).wf(),
            count_of(old(self)@.counts, source_addr) >= MAX_PENDING_PER_SOURCE ==> {
                &&& r == Err::<(), HandshakeError>(HandshakeError::TooManyPending)
                &&& final(self)@ == old(self)@
            },
            count_of(old(self)@.counts, source_addr) < MAX_PENDING_PER_SOURCE ==> {
                &&& r is Ok
                &&& final(self)@ == registered(old(self)@, connection_id, source_addr)
            },
    {
        let current = self.pending_count(&source_addr);
        if current >= MAX_PENDING_PER_SOURCE {
            return Err(HandshakeError::TooManyPending);
        }
        let entry = PendingHandshake {
            source_addr,
            start_time: clock::now(),
            state: HandshakeState::AwaitingConnect,
            cached_hashes_count: 0,
        };
        let ghost pv = entry.pv();
        let ghost ps = pending_pairs(self.pending@);
        match self.find_pending(connection_id) {
            Some(i) => {
                proof {
                    assert(ps[i as int].0 == connection_id);
                    lemma_update(ps, i as int, pv);
                }
                self.pending.set(i, (connection_id, entry));
                assert(pending_pairs(self.pending@) =~= ps.update(i as int, (connection_id, pv)));
            },
            None => {
                proof {
                    assert(!has_key(ps, connection_id));
                    lemma_push(ps, connection_id, pv);
                }
                self.pending.push((connection_id, entry));
                assert(pending_pairs(self.pending@) =~= ps.push((connection_id, pv)));
            },
        }
        let ghost cs = self.per_source_count@;
        match self.find_source(source_addr) {
            Some(i) => {
                proof {
                    lemma_update(cs, i as int, (current + 1) as usize);
                }
                self.per_source_count.set(i, (source_addr, current + 1));
            },
            None => {
                proof {
                    lemma_push(cs, source_addr, 1usize);
                }
                self.per_source_count.push((source_addr, 1));
            },
        }
        Ok(())
    }
}

} // verus!

verus! {

/// A handshake that starts and then completes (or is aborted) leaves the
/// tracker as it was: the connection is no longer pending and its source's
/// count is back where it was.
pub proof fn law_register_then_complete_restores(t: HandshakeTrackerView, id: u64, addr: SourceAddr)
    requires
        forall|a: SourceAddr| #[trigger] t.counts.contains_key(a) ==> 1 <= t.counts[a] <= MAX_PENDING_PER_SOURCE,
        !t.pending.contains_key(id),
        count_of(t.counts, addr) < MAX_PENDING_PER_SOURCE,
    ensures
        removed(registered(t, id, addr), id) == t,
{
    let r = removed(registered(t, id, addr), id);
    assert(r.pending =~= t.pending);
    assert(r.counts =~= t.counts);
}

/// A source never has more than `MAX_PENDING_PER_SOURCE` handshakes counted:
/// registering one more is refused at the limit, and below it the count stays
/// within the limit.
pub proof fn law_per_source_cap(t: HandshakeTrackerView, id: u64, addr: SourceAddr)
    requires
        count_of(t.counts, addr) < MAX_PENDING_PER_SOURCE,
    ensures
        count_of(registered(t, id, addr).counts, addr) <= MAX_PENDING_PER_SOURCE,
{
}

} // verus!
