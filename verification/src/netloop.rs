//! Server network loop security: connection admission, per-packet checks and
//! connection upkeep.
//!
//! Each packet from a client goes through a size check, decoding and rate
//! limiting. Violations are counted as strikes on the client's security
//! context, and enough strikes disconnect it. Decoding, the connections'
//! sockets and writing the security log are the caller's: the loop is told what
//! a packet decoded to, and records the events worth logging.

use vstd::prelude::*;

use crate::assoc::{has_key, keys_unique, lemma_absent, lemma_at, lemma_push, lemma_remove, lemma_update, to_map};
use crate::limits::MAX_PACKET_BYTES;
use crate::security::handshake::{
    count_of, registered, removed, removed_all, HandshakeError, HandshakeTracker, HandshakeTrackerView, SourceAddr,
};
use crate::security::observability::{bump, SecurityMetrics, SecurityMetricsView};
use crate::security::rate_limiter::{limiter_step, RateLimitedMessageType};
use crate::security::strikes::StrikeCategory;
use crate::security::{message_class, strike_step, ClientMessageKind, SecurityContext, SecurityContextView};
use crate::text::owned;

verus! {

/// What a packet decoded to: a client message, or a decode error with its
/// description.
#[derive(Debug, Clone)]
pub enum Decoded {
    Message(ClientMessageKind),
    Error(String),
}

/// Result of processing a packet from a client
#[derive(Debug, Clone, PartialEq, Eq)]
pub enum ProcessResult {
    /// Message was accepted
    Accepted,
    /// Message was dropped (rate limited, invalid, etc.) but connection continues
    Dropped,
    /// Connection should be terminated
    Disconnect { reason: String },
}

/// A security event worth logging.
#[derive(Debug, Clone)]
pub enum NetEvent {
    /// A packet past the size limit ended a connection
    PacketTooLarge { from: SourceAddr, len: usize },
    /// A packet could not be decoded
    DecodeError { from: SourceAddr, error: String },
    /// Rate limiting ended a connection
    RateLimitExceeded { from: SourceAddr },
    /// A connection was refused at admission
    ConnectionRejected { from: SourceAddr, error: HandshakeError },
}

impl NetEvent {
    /// The log category of the event.
    pub fn category(&self) -> (c: &'static str)
        ensures
            c@ == match self {
                NetEvent::PacketTooLarge { .. } => "size"@,
                NetEvent::DecodeError { .. } => "decode"@,
                NetEvent::RateLimitExceeded { .. } => "rate"@,
                NetEvent::ConnectionRejected { .. } => "handshake"@,
            },
    {
        match self {
            NetEvent::PacketTooLarge { .. } => "size",
            NetEvent::DecodeError { .. } => "decode",
            NetEvent::RateLimitExceeded { .. } => "rate",
            NetEvent::ConnectionRejected { .. } => "handshake",
        }
    }
}

/// What a security event says.
pub enum NetEventView {
    PacketTooLarge { from: SourceAddr, len: usize },
    DecodeError { from: SourceAddr, error: Seq<char> },
    RateLimitExceeded { from: SourceAddr },
    ConnectionRejected { from: SourceAddr, error: HandshakeError },
}

impl View for NetEvent {
    type V = NetEventView;

    open spec fn view(&self) -> NetEventView {
        match self {
            NetEvent::PacketTooLarge { from, len } => NetEventView::PacketTooLarge { from: *from, len: *len },
            NetEvent::DecodeError { from, error } => NetEventView::DecodeError { from: *from, error: error@ },
            NetEvent::RateLimitExceeded { from } => NetEventView::RateLimitExceeded { from: *from },
            NetEvent::ConnectionRejected { from, error } => NetEventView::ConnectionRejected {
                from: *from,
                error: *error,
            },
        }
    }
}

/// Server network state with security integration
pub struct ServerNetLoop {
    /// Connected addresses, each once
    connections: Vec<SourceAddr>,
    /// Per-connection security contexts
    security_contexts: Vec<(SourceAddr, SecurityContext)>,
    /// Global handshake tracker
    handshake_tracker: HandshakeTracker,
    /// Security metrics
    metrics: SecurityMetrics,
    /// Security events not yet logged
    events: Vec<NetEvent>,
    /// Next connection ID counter
    next_connection_id: u64,
}

/// The observable state of a [`ServerNetLoop`].
pub struct NetLoopView {
    pub connections: Set<SourceAddr>,
    pub contexts: Map<SourceAddr, SecurityContextView>,
    pub tracker: HandshakeTrackerView,
    pub metrics: SecurityMetricsView,
    pub events: Seq<NetEventView>,
    pub next_connection_id: u64,
}

/// The security contexts, keyed by address.
pub open spec fn context_pairs(v: Seq<(SourceAddr, SecurityContext)>) -> Seq<(SourceAddr, SecurityContextView)> {
    v.map_values(|e: (SourceAddr, SecurityContext)| (e.0, e.1@))
}

/// The views of a list of events.
pub open spec fn event_views(v: Seq<NetEvent>) -> Seq<NetEventView> {
    v.map_values(|e: NetEvent| e@)
}

/// The id handed out after `id`: the next one, skipping zero when it wraps.
pub open spec fn next_id(id: u64) -> u64 {
    if id == u64::MAX {
        1
    } else {
        (id + 1) as u64
    }
}

/// The metrics after one more invalid message.
pub open spec fn with_invalid(m: SecurityMetricsView) -> SecurityMetricsView {
    SecurityMetricsView { invalid_messages: bump(m.invalid_messages), ..m }
}

/// The metrics after one more rate-limited message.
pub open spec fn with_rate_limited(m: SecurityMetricsView) -> SecurityMetricsView {
    SecurityMetricsView { rate_limited: bump(m.rate_limited), ..m }
}

/// The metrics after one more disconnect for strikes in `category`.
pub open spec fn with_disconnect(m: SecurityMetricsView, category: StrikeCategory) -> SecurityMetricsView {
    SecurityMetricsView {
        disconnects: bump(m.disconnects),
        by_category: m.by_category.update(category.index(), bump(m.by_category[category.index()])),
        ..m
    }
}

/// The metrics after `n` more handshake timeouts.
pub open spec fn with_timeouts(m: SecurityMetricsView, n: nat) -> SecurityMetricsView
    decreases n,
{
    if n == 0 {
        m
    } else {
        let p = with_timeouts(m, (n - 1) as nat);
        SecurityMetricsView { handshake_timeouts: bump(p.handshake_timeouts), ..p }
    }
}

/// A security context as a fresh connection starts with: its id, no strike,
/// and a full rate limiter.
pub open spec fn fresh_context(c: SecurityContextView, id: u64) -> bool {
    &&& c.connection_id == id
    &&& c.strikes.connection_id == id
    &&& c.strikes.strikes == 0
    &&& !c.strikes.has_last_strike
    &&& c.strikes.category_counts.len() == crate::security::strikes::CATEGORY_COUNT
    &&& forall|i: int| 0 <= i < crate::security::strikes::CATEGORY_COUNT ==> #[trigger] c.strikes.category_counts[i] == 0
    &&& !c.strikes.disconnect_triggered
    &&& c.strikes.disconnect_reason is None
    &&& crate::security::rate_limiter::fresh_limiter(
        c.limiter,
        crate::limits::GLOBAL_MSG_PER_SEC,
        crate::limits::GLOBAL_MSG_PER_SEC,
    )
}

/// Whether one more strike in `category` can be counted on a context.
pub open spec fn can_strike(c: SecurityContextView, category: StrikeCategory) -> bool {
    !c.strikes.disconnect_triggered ==> c.strikes.category_counts[category.index()] < u32::MAX
}

/// A context after one more strike in `category`: the strikes move on, the
/// rest stays.
pub open spec fn struck(c0: SecurityContextView, c1: SecurityContextView, category: StrikeCategory) -> bool {
    &&& c1.connection_id == c0.connection_id
    &&& c1.limiter == c0.limiter
    &&& strike_step(c0.strikes, c1.strikes, category, c1.strikes.disconnect_triggered)
}

/// The reason a context was disconnected, or `dflt` when none is recorded.
pub open spec fn reason_or(c: SecurityContextView, dflt: Seq<char>) -> Seq<char> {
    match c.strikes.disconnect_reason {
        Some(r) => r,
        None => dflt,
    }
}

/// The loop after the connection of `addr` is removed: its context goes, its
/// handshake stops being tracked, and it is no longer connected.
pub open spec fn disconnected(n: NetLoopView, addr: SourceAddr) -> NetLoopView {
    NetLoopView {
        contexts: n.contexts.remove(addr),
        tracker: if n.contexts.contains_key(addr) {
            removed(n.tracker, n.contexts[addr].connection_id)
        } else {
            n.tracker
        },
        connections: n.connections.remove(addr),
        ..n
    }
}

/// A context after strikes decay: the strikes may go down by one, nothing
/// else changes, and a disconnected context keeps its strikes.
pub open spec fn decayed(c0: SecurityContextView, c1: SecurityContextView) -> bool {
    &&& c1.connection_id == c0.connection_id
    &&& c1.limiter == c0.limiter
    &&& c1.strikes.connection_id == c0.strikes.connection_id
    &&& c1.strikes.category_counts == c0.strikes.category_counts
    &&& c1.strikes.disconnect_triggered == c0.strikes.disconnect_triggered
    &&& c1.strikes.disconnect_reason == c0.strikes.disconnect_reason
    &&& c1.strikes.has_last_strike == c0.strikes.has_last_strike
    &&& c0.strikes.disconnect_triggered ==> c1.strikes.strikes == c0.strikes.strikes
    &&& (c1.strikes.strikes == c0.strikes.strikes || c1.strikes.strikes == c0.strikes.strikes - 1)
}

proof fn lemma_removed_shrinks(t: HandshakeTrackerView, id: u64)
    ensures
        removed(t, id).pending.dom().subset_of(t.pending.dom()),
{
}

proof fn lemma_removed_all_shrinks(t: HandshakeTrackerView, ids: Seq<u64>)
    ensures
        removed_all(t, ids).pending.dom().subset_of(t.pending.dom()),
    decreases ids.len(),
{
    if ids.len() > 0 {
        lemma_removed_all_shrinks(t, ids.drop_last());
        lemma_removed_shrinks(removed_all(t, ids.drop_last()), ids.last());
    }
}

impl View for ServerNetLoop {
    type V = NetLoopView;

    closed spec fn view(&self) -> NetLoopView {
        NetLoopView {
            connections: self.connections@.to_set(),
            contexts: to_map(context_pairs(self.security_contexts@)),
            tracker: self.handshake_tracker@,
            metrics: self.metrics@,
            events: event_views(self.events@),
            next_connection_id: self.next_connection_id,
        }
    }
}

impl ServerNetLoop {
    /// The loop's internal consistency: each address connected once and with
    /// at most one context, and every part well formed.
    pub closed spec fn wf(&self) -> bool {
        &&& self.connections@.no_duplicates()
        &&& keys_unique(context_pairs(self.security_contexts@))
        &&& forall|i: int| 0 <= i < self.security_contexts@.len() ==> (#[trigger] self.security_contexts@[i]).1.wf()
        &&& self.handshake_tracker.wf()
        &&& self.metrics.wf()
    }

    /// Create a new server network loop
    pub fn new() -> (n: ServerNetLoop)
        ensures
            n.wf(),
            n@.connections == Set::<SourceAddr>::empty(),
            n@.contexts == Map::<SourceAddr, SecurityContextView>::empty(),
            n@.tracker.pending == Map::<u64, crate::security::handshake::PendingView>::empty(),
            n@.tracker.counts == Map::<SourceAddr, usize>::empty(),
            n@.metrics.is_zero(),
            n@.events == Seq::<NetEventView>::empty(),
            n@.next_connection_id == 1,
    {
        ServerNetLoop::with_metrics(SecurityMetrics::new())
    }

    /// Create a loop that counts into the given metrics.
    pub fn with_metrics(metrics: SecurityMetrics) -> (n: ServerNetLoop)
        requires
            metrics.wf(),
        ensures
            n.wf(),
            n@.connections == Set::<SourceAddr>::empty(),
            n@.contexts == Map::<SourceAddr, SecurityContextView>::empty(),
            n@.tracker.pending == Map::<u64, crate::security::handshake::PendingView>::empty(),
            n@.tracker.counts == Map::<SourceAddr, usize>::empty(),
            n@.metrics == metrics@,
            n@.events == Seq::<NetEventView>::empty(),
            n@.next_connection_id == 1,
    {
        let n = ServerNetLoop {
            connections: Vec::new(),
            security_contexts: Vec::new(),
            handshake_tracker: HandshakeTracker::new(),
            metrics,
            events: Vec::new(),
            next_connection_id: 1,
        };
        assert(context_pairs(n.security_contexts@) =~= Seq::empty());
        assert(n@.contexts =~= Map::empty());
        assert(n@.connections =~= Set::empty());
        assert(n@.events =~= Seq::empty());
        n
    }

    fn find_context(&self, addr: SourceAddr) -> (r: Option<usize>)
        requires
            self.wf(),
        ensures
            match r {
                Some(i) => i < self.security_contexts@.len() && self.security_contexts@[i as int].0 == addr
                    && self@.contexts.contains_key(addr) && self@.contexts[addr]
                    == self.security_contexts@[i as int].1@,
                None => !self@.contexts.contains_key(addr) && !has_key(context_pairs(self.security_contexts@), addr),
            },
    {
        let ghost ps = context_pairs(self.security_contexts@);
        let mut i: usize = 0;
        while i < self.security_contexts.len()
            invariant
                self.wf(),
                ps == context_pairs(self.security_contexts@),
                i <= self.security_contexts@.len(),
                forall|k: int| 0 <= k < i ==> self.security_contexts@[k].0 != addr,
            decreases self.security_contexts@.len() - i,
        {
            if self.security_contexts[i].0 == addr {
                proof {
                    lemma_at(ps, i as int);
                }
                return Some(i);
            }
            i = i + 1;
        }
        proof {
            assert forall|k: int| 0 <= k < ps.len() implies ps[k].0 != addr by {
                assert(ps[k].0 == self.security_contexts@[k].0);
            }
            lemma_absent(ps, addr);
        }
        None
    }

    fn find_connection(&self, addr: SourceAddr) -> (r: Option<usize>)
        ensures
            match r {
                Some(i) => i < self.connections@.len() && self.connections@[i as int] == addr,
                None => !self@.connections.contains(addr),
            },
    {
        let mut i: usize = 0;
        while i < self.connections.len()
            invariant
                i <= self.connections@.len(),
                forall|k: int| 0 <= k < i ==> self.connections@[k] != addr,
            decreases self.connections@.len() - i,
        {
            if self.connections[i] == addr {
                return Some(i);
            }
            i = i + 1;
        }
        None
    }

    /// Replace the context at `i` with `ctx`, for the same address.
    fn put_context(&mut self, i: usize, addr: SourceAddr, ctx: SecurityContext)
        requires
            old(self).wf(),
            i < old(self).security_contexts@.len(),
            old(self).security_contexts@[i as int].0 == addr,
            ctx.wf(),
        ensures
            final(self).wf(),
            final(self)@ == (NetLoopView { contexts: old(self)@.contexts.insert(addr, ctx@), ..old(self)@ }),
    {
        let ghost ps = context_pairs(self.security_contexts@);
        proof {
            assert(ps[i as int].0 == addr);
            lemma_update(ps, i as int, ctx@);
        }
        self.security_contexts.set(i, (addr, ctx));
        assert(context_pairs(self.security_contexts@) =~= ps.update(i as int, (addr, ctx@)));
    }

    /// Take out the context at `i`, leaving a placeholder in its slot that
    /// [`ServerNetLoop::put_context`] replaces.
    fn take_context(&mut self, i: usize) -> (r: (SourceAddr, SecurityContext))
        requires
            old(self).wf(),
            i < old(self).security_contexts@.len(),
        ensures
            r == old(self).security_contexts@[i as int],
            final(self).security_contexts@ == old(self).security_contexts@.remove(i as int),
            final(self).connections == old(self).connections,
            final(self).handshake_tracker == old(self).handshake_tracker,
            final(self).metrics == old(self).metrics,
            final(self).events == old(self).events,
            final(self).next_connection_id == old(self).next_connection_id,
    {
        self.security_contexts.remove(i)
    }

    /// Add a new connection with a fresh security context, refused when its
    /// source has too many pending handshakes.
    pub fn add_connection(&mut self, addr: SourceAddr) -> (r: Result<u64, &'static str>)
        requires
            old(self).wf(),
        ensures
            final(self).wf(),
            count_of(old(self)@.tracker.counts, addr) >= crate::limits::MAX_PENDING_PER_SOURCE ==> {
                &&& r matches Err(e) && e@ == "too many pending connections"@
                &&& final(self)@ == (NetLoopView {
                    events: old(self)@.events.push(
                        NetEventView::ConnectionRejected { from: addr, error: HandshakeError::TooManyPending },
                    ),
                    ..old(self)@
                })
            },
            count_of(old(self)@.tracker.counts, addr) < crate::limits::MAX_PENDING_PER_SOURCE ==> {
                let id = old(self)@.next_connection_id;
                &&& r == Ok::<u64, &'static str>(id)
                &&& final(self)@.tracker == registered(old(self)@.tracker, id, addr)
                &&& final(self)@.connections == old(self)@.connections.insert(addr)
                &&& final(self)@.contexts.contains_key(addr)
                &&& fresh_context(final(self)@.contexts[addr], id)
                &&& final(self)@.contexts.remove(addr) == old(self)@.contexts.remove(addr)
                &&& final(self)@.metrics == old(self)@.metrics
                &&& final(self)@.events == old(self)@.events
                &&& final(self)@.next_connection_id == next_id(id)
            },
    {
        let connection_id = self.next_connection_id;
        if let Err(e) = self.handshake_tracker.register(connection_id, addr) {
            self.push_event(NetEvent::ConnectionRejected { from: addr, error: e });
            return Err("too many pending connections");
        }
        if self.find_connection(addr).is_none() {
            let ghost cs = self.connections@;
            self.connections.push(addr);
            proof {
                assert(self.connections@.no_duplicates()) by {
                    assert forall|a: int, b: int| 0 <= a < self.connections@.len() && 0 <= b < self.connections@.len() && a != b implies self.connections@[a] != self.connections@[b] by {
                        if a < cs.len() && b < cs.len() {
                        } else if a < cs.len() {
                            assert(cs.contains(cs[a]));
                        } else {
                            assert(cs.contains(cs[b]));
                        }
                    }
                }
                assert forall|x: SourceAddr| self.connections@.to_set().contains(x) <==> cs.to_set().insert(addr).contains(x) by {
                    if self.connections@.to_set().contains(x) {
                        let k = choose|k: int| 0 <= k < self.connections@.len() && self.connections@[k] == x;
                        if k < cs.len() {
                            assert(cs[k] == x);
                        }
                    }
                    if cs.to_set().contains(x) {
                        let k = choose|k: int| 0 <= k < cs.len() && cs[k] == x;
                        assert(self.connections@[k] == x);
                    }
                    if x == addr {
                        assert(self.connections@[cs.len() as int] == x);
                    }
                }
                assert(self.connections@.to_set() =~= cs.to_set().insert(addr));
            }
        } else {
            assert(self@.connections.insert(addr) =~= self@.connections);
        }
        let ctx = SecurityContext::new(connection_id);
        match self.find_context(addr) {
            Some(i) => {
                self.put_context(i, addr, ctx);
            },
            None => {
                let ghost ps = context_pairs(self.security_contexts@);
                proof {
                    lemma_push(ps, addr, ctx@);
                }
                self.security_contexts.push((addr, ctx));
                assert(context_pairs(self.security_contexts@) =~= ps.push((addr, ctx@)));
                proof {
                    assert forall|k: int| 0 <= k < self.security_contexts@.len() implies (#[trigger] self.security_contexts@[k]).1.wf() by {
                        if k < ps.len() {
                        }
                    }
                }
            },
        }
        assert(self@.contexts.remove(addr) =~= old(self)@.contexts.remove(addr));
        self.next_connection_id = self.next_connection_id.wrapping_add(1);
        if self.next_connection_id == 0 {
            self.next_connection_id = 1;
        }
        Ok(connection_id)
    }

    /// Remove the context of `addr`, if any, and hand it back.
    fn forget_context(&mut self, addr: SourceAddr) -> (r: Option<SecurityContext>)
        requires
            old(self).wf(),
        ensures
            final(self).wf(),
            final(self)@ == (NetLoopView { contexts: old(self)@.contexts.remove(addr), ..old(self)@ }),
            match r {
                Some(c) => old(self)@.contexts.contains_key(addr) && c@ == old(self)@.contexts[addr],
                None => !old(self)@.contexts.contains_key(addr),
            },
    {
        match self.find_context(addr) {
            Some(i) => {
                let ghost ps = context_pairs(self.security_contexts@);
                proof {
                    lemma_remove(ps, i as int);
                }
                let (_, ctx) = self.take_context(i);
                assert(context_pairs(self.security_contexts@) =~= ps.remove(i as int));
                proof {
                    assert forall|k: int| 0 <= k < self.security_contexts@.len() implies (#[trigger] self.security_contexts@[k]).1.wf() by {
                        let k1 = if k < i { k } else { k + 1 };
                        assert(self.security_contexts@[k] == old(self).security_contexts@[k1]);
                    }
                }
                Some(ctx)
            },
            None => {
                assert(self@.contexts.remove(addr) =~= self@.contexts);
                None
            },
        }
    }

    /// Remove `addr` from the connected addresses.
    fn forget_connection(&mut self, addr: SourceAddr)
        requires
            old(self).wf(),
        ensures
            final(self).wf(),
            final(self)@ == (NetLoopView { connections: old(self)@.connections.remove(addr), ..old(self)@ }),
    {
        match self.find_connection(addr) {
            Some(j) => {
                let ghost cs = self.connections@;
                self.connections.remove(j);
                proof {
                    assert(self.connections@ =~= cs.remove(j as int));
                    assert(self.connections@.no_duplicates()) by {
                        assert forall|a: int, b: int| 0 <= a < self.connections@.len() && 0 <= b < self.connections@.len() && a != b implies self.connections@[a] != self.connections@[b] by {
                            let a1 = if a < j { a } else { a + 1 };
                            let b1 = if b < j { b } else { b + 1 };
                            assert(self.connections@[a] == cs[a1]);
                            assert(self.connections@[b] == cs[b1]);
                        }
                    }
                    assert forall|x: SourceAddr| self.connections@.to_set().contains(x) <==> cs.to_set().remove(addr).contains(x) by {
                        if self.connections@.to_set().contains(x) {
                            let k = choose|k: int| 0 <= k < self.connections@.len() && self.connections@[k] == x;
                            let k1 = if k < j { k } else { k + 1 };
                            assert(cs[k1] == x);
                            assert(k1 != j);
                        }
                        if cs.to_set().remove(addr).contains(x) {
                            let k = choose|k: int| 0 <= k < cs.len() && cs[k] == x;
                            assert(k != j);
                            let k0 = if k < j { k } else { k - 1 };
                            assert(self.connections@[k0] == x);
                        }
                    }
                    assert(self.connections@.to_set() =~= cs.to_set().remove(addr));
                }
            },
            None => {
                assert(self@.connections.remove(addr) =~= self@.connections);
            },
        }
    }

    /// Remove a connection and cleanup security state
    pub fn remove_connection(&mut self, addr: &SourceAddr)
        requires
            old(self).wf(),
        ensures
            final(self).wf(),
            final(self)@ == disconnected(old(self)@, *addr),
    {
        let addr = *addr;
        if let Some(ctx) = self.forget_context(addr) {
            self.handshake_tracker.abort(ctx.connection_id());
        }
        self.forget_connection(addr);
    }

    /// Complete handshake for a connection
    pub fn complete_handshake(&mut self, addr: &SourceAddr)
        requires
            old(self).wf(),
        ensures
            final(self).wf(),
            final(self)@ == if old(self)@.contexts.contains_key(*addr) {
                NetLoopView {
                    tracker: removed(old(self)@.tracker, old(self)@.contexts[*addr].connection_id),
                    ..old(self)@
                }
            } else {
                old(self)@
            },
    {
        if let Some(i) = self.find_context(*addr) {
            let id = self.security_contexts[i].1.connection_id();
            self.handshake_tracker.complete(id);
        }
    }

    /// Count a strike in `category` on the context at `i`.
    fn strike_at(&mut self, i: usize, addr: SourceAddr, category: StrikeCategory) -> (d: bool)
        requires
            old(self).wf(),
            i < old(self).security_contexts@.len(),
            old(self).security_contexts@[i as int].0 == addr,
            can_strike(old(self)@.contexts[addr], category),
        ensures
            final(self).wf(),
            final(self)@.contexts.contains_key(addr),
            final(self)@ == (NetLoopView {
                contexts: old(self)@.contexts.insert(addr, final(self)@.contexts[addr]),
                ..old(self)@
            }),
            struck(old(self)@.contexts[addr], final(self)@.contexts[addr], category),
            d == final(self)@.contexts[addr].strikes.disconnect_triggered,
            final(self).security_contexts@.len() == old(self).security_contexts@.len(),
            final(self).security_contexts@[i as int].0 == addr,
            final(self).security_contexts@[i as int].1@ == final(self)@.contexts[addr],
    {
        let ghost ps = context_pairs(self.security_contexts@);
        let ghost old_seq = self.security_contexts@;
        proof {
            lemma_at(ps, i as int);
        }
        let (a, mut ctx) = self.take_context(i);
        let d = ctx.record_strike(category);
        proof {
            lemma_update(ps, i as int, ctx@);
        }
        self.security_contexts.insert(i, (a, ctx));
        assert(self.security_contexts@ =~= old_seq.update(i as int, (a, ctx)));
        assert(context_pairs(self.security_contexts@) =~= ps.update(i as int, (addr, ctx@)));
        proof {
            assert forall|k: int| 0 <= k < self.security_contexts@.len() implies (#[trigger] self.security_contexts@[k]).1.wf() by {
                if k != i {
                    assert(self.security_contexts@[k] == old_seq[k]);
                }
            }
        }
        d
    }

    /// Check the rate limit of the context at `i` for a message of kind `t`.
    fn rate_check_at(&mut self, i: usize, addr: SourceAddr, t: RateLimitedMessageType) -> (ok: bool)
        requires
            old(self).wf(),
            i < old(self).security_contexts@.len(),
            old(self).security_contexts@[i as int].0 == addr,
            can_strike(old(self)@.contexts[addr], StrikeCategory::RateExceeded),
            old(self)@.contexts[addr].limiter.blocked_count < u64::MAX,
        ensures
            final(self).wf(),
            final(self)@.contexts.contains_key(addr),
            final(self)@ == (NetLoopView {
                contexts: old(self)@.contexts.insert(addr, final(self)@.contexts[addr]),
                ..old(self)@
            }),
            ({
                let c0 = old(self)@.contexts[addr];
                let c1 = final(self)@.contexts[addr];
                &&& c1.connection_id == c0.connection_id
                &&& exists|eg: u64, et: u64| limiter_step(c0.limiter, c1.limiter, t, eg, et, ok)
                &&& ok ==> c1.strikes == c0.strikes
                &&& !ok ==> strike_step(c0.strikes, c1.strikes, StrikeCategory::RateExceeded, c1.strikes.disconnect_triggered)
            }),
            final(self).security_contexts@.len() == old(self).security_contexts@.len(),
            final(self).security_contexts@[i as int].0 == addr,
            final(self).security_contexts@[i as int].1@ == final(self)@.contexts[addr],
    {
        let ghost ps = context_pairs(self.security_contexts@);
        let ghost old_seq = self.security_contexts@;
        proof {
            lemma_at(ps, i as int);
        }
        let (a, mut ctx) = self.take_context(i);
        let ok = ctx.check_rate_limit(t);
        proof {
            lemma_update(ps, i as int, ctx@);
        }
        self.security_contexts.insert(i, (a, ctx));
        assert(self.security_contexts@ =~= old_seq.update(i as int, (a, ctx)));
        assert(context_pairs(self.security_contexts@) =~= ps.update(i as int, (addr, ctx@)));
        proof {
            assert forall|k: int| 0 <= k < self.security_contexts@.len() implies (#[trigger] self.security_contexts@[k]).1.wf() by {
                if k != i {
                    assert(self.security_contexts@[k] == old_seq[k]);
                }
            }
        }
        ok
    }

    /// The disconnect reason of the context at `i`, or `dflt`.
    fn reason_at(&self, i: usize, dflt: &str) -> (r: String)
        requires
            self.wf(),
            i < self.security_contexts@.len(),
        ensures
            r@ == reason_or(self.security_contexts@[i as int].1@, dflt@),
    {
        match self.security_contexts[i].1.disconnect_reason() {
            Some(s) => owned(s),
            None => owned(dflt),
        }
    }

    /// Record a security violation for a connection: a strike in `category`,
    /// and the disconnect reason when it ends the connection.
    pub fn record_violation(&mut self, addr: &SourceAddr, category: StrikeCategory) -> (r: Option<String>)
        requires
            old(self).wf(),
            old(self)@.contexts.contains_key(*addr) ==> can_strike(old(self)@.contexts[*addr], category),
        ensures
            final(self).wf(),
            !old(self)@.contexts.contains_key(*addr) ==> r is None && final(self)@ == old(self)@,
            old(self)@.contexts.contains_key(*addr) ==> {
                let c1 = final(self)@.contexts[*addr];
                let d = c1.strikes.disconnect_triggered;
                &&& final(self)@.contexts.contains_key(*addr)
                &&& struck(old(self)@.contexts[*addr], c1, category)
                &&& final(self)@ == (NetLoopView {
                    contexts: old(self)@.contexts.insert(*addr, c1),
                    metrics: if d {
                        with_disconnect(old(self)@.metrics, category)
                    } else {
                        old(self)@.metrics
                    },
                    ..old(self)@
                })
                &&& match r {
                    Some(s) => d && c1.strikes.disconnect_reason == Some(s@),
                    None => !d,
                }
            },
    {
        let addr = *addr;
        let i = match self.find_context(addr) {
            Some(i) => i,
            None => {
                return None;
            },
        };
        if self.strike_at(i, addr, category) {
            self.metrics.record_disconnect(category);
            proof {
                self.security_contexts@[i as int].1.lemma_reason_iff_triggered();
            }
            return match self.security_contexts[i].1.disconnect_reason() {
                Some(s) => Some(owned(s)),
                None => None,
            };
        }
        None
    }

    /// Check the size of a packet before decoding it: a packet over
    /// `MAX_PACKET_BYTES` counts as an invalid message and a size violation
    /// strike, and is dropped or ends the connection. `None` when the size is
    /// acceptable.
    pub fn reject_oversized(&mut self, from: &SourceAddr, len: usize) -> (r: Option<ProcessResult>)
        requires
            old(self).wf(),
            old(self)@.contexts.contains_key(*from) ==> can_strike(old(self)@.contexts[*from], StrikeCategory::SizeViolation),
        ensures
            final(self).wf(),
            len <= MAX_PACKET_BYTES ==> r is None && final(self)@ == old(self)@,
            len > MAX_PACKET_BYTES && !old(self)@.contexts.contains_key(*from) ==> {
                &&& r == Some(ProcessResult::Dropped)
                &&& final(self)@ == (NetLoopView { metrics: with_invalid(old(self)@.metrics), ..old(self)@ })
            },
            len > MAX_PACKET_BYTES && old(self)@.contexts.contains_key(*from) ==> {
                let c1 = final(self)@.contexts[*from];
                let d = c1.strikes.disconnect_triggered;
                &&& final(self)@.contexts.contains_key(*from)
                &&& struck(old(self)@.contexts[*from], c1, StrikeCategory::SizeViolation)
                &&& final(self)@ == (NetLoopView {
                    contexts: old(self)@.contexts.insert(*from, c1),
                    metrics: if d {
                        with_disconnect(with_invalid(old(self)@.metrics), StrikeCategory::SizeViolation)
                    } else {
                        with_invalid(old(self)@.metrics)
                    },
                    events: if d {
                        old(self)@.events.push(NetEventView::PacketTooLarge { from: *from, len })
                    } else {
                        old(self)@.events
                    },
                    ..old(self)@
                })
                &&& d ==> (r matches Some(ProcessResult::Disconnect { reason }) && reason@ == reason_or(c1, "size violation"@))
                &&& !d ==> r == Some(ProcessResult::Dropped)
            },
    {
        if len <= MAX_PACKET_BYTES {
            return None;
        }
        let from = *from;
        self.metrics.record_invalid_message();
        let i = match self.find_context(from) {
            Some(i) => i,
            None => {
                return Some(ProcessResult::Dropped);
            },
        };
        if self.strike_at(i, from, StrikeCategory::SizeViolation) {
            let reason = self.reason_at(i, "size violation");
            self.metrics.record_disconnect(StrikeCategory::SizeViolation);
            self.push_event(NetEvent::PacketTooLarge { from, len });
            return Some(ProcessResult::Disconnect { reason });
        }
        Some(ProcessResult::Dropped)
    }

    /// Process what a packet of acceptable size decoded to: a decode error
    /// counts as an invalid message and a strike, and is logged; a message is
    /// rate limited, and a refused one counts as rate limited and may end the
    /// connection. A client without a context is not limited.
    pub fn process_decoded(&mut self, from: &SourceAddr, decoded: Decoded) -> (r: ProcessResult)
        requires
            old(self).wf(),
            old(self)@.contexts.contains_key(*from) ==> match decoded {
                Decoded::Error(_) => can_strike(old(self)@.contexts[*from], StrikeCategory::DecodeError),
                Decoded::Message(_) => can_strike(old(self)@.contexts[*from], StrikeCategory::RateExceeded)
                    && old(self)@.contexts[*from].limiter.blocked_count < u64::MAX,
            },
        ensures
            final(self).wf(),
            match decoded {
                Decoded::Error(e) => if !old(self)@.contexts.contains_key(*from) {
                    &&& r == ProcessResult::Dropped
                    &&& final(self)@ == (NetLoopView {
                        metrics: with_invalid(old(self)@.metrics),
                        events: old(self)@.events.push(NetEventView::DecodeError { from: *from, error: e@ }),
                        ..old(self)@
                    })
                } else {
                    let c1 = final(self)@.contexts[*from];
                    let d = c1.strikes.disconnect_triggered;
                    &&& final(self)@.contexts.contains_key(*from)
                    &&& struck(old(self)@.contexts[*from], c1, StrikeCategory::DecodeError)
                    &&& final(self)@ == (NetLoopView {
                        contexts: old(self)@.contexts.insert(*from, c1),
                        metrics: if d {
                            with_disconnect(with_invalid(old(self)@.metrics), StrikeCategory::DecodeError)
                        } else {
                            with_invalid(old(self)@.metrics)
                        },
                        events: old(self)@.events.push(NetEventView::DecodeError { from: *from, error: e@ }),
                        ..old(self)@
                    })
                    &&& d ==> (r matches ProcessResult::Disconnect { reason } && reason@ == reason_or(c1, "decode error"@))
                    &&& !d ==> r == ProcessResult::Dropped
                },
                Decoded::Message(k) => if !old(self)@.contexts.contains_key(*from) {
                    r == ProcessResult::Accepted && final(self)@ == old(self)@
                } else {
                    let c0 = old(self)@.contexts[*from];
                    let c1 = final(self)@.contexts[*from];
                    let d = c1.strikes.disconnect_triggered;
                    &&& final(self)@.contexts.contains_key(*from)
                    &&& c1.connection_id == c0.connection_id
                    &&& exists|eg: u64, et: u64, ok: bool| #[trigger] limiter_step(c0.limiter, c1.limiter, message_class(k), eg, et, ok)
                        && (ok <==> r == ProcessResult::Accepted)
                    &&& r == ProcessResult::Accepted ==> {
                        &&& c1.strikes == c0.strikes
                        &&& final(self)@ == (NetLoopView { contexts: old(self)@.contexts.insert(*from, c1), ..old(self)@ })
                    }
                    &&& r != ProcessResult::Accepted ==> {
                        &&& strike_step(c0.strikes, c1.strikes, StrikeCategory::RateExceeded, d)
                        &&& final(self)@ == (NetLoopView {
                            contexts: old(self)@.contexts.insert(*from, c1),
                            metrics: if d {
                                with_disconnect(with_rate_limited(old(self)@.metrics), StrikeCategory::RateExceeded)
                            } else {
                                with_rate_limited(old(self)@.metrics)
                            },
                            events: if d {
                                old(self)@.events.push(NetEventView::RateLimitExceeded { from: *from })
                            } else {
                                old(self)@.events
                            },
                            ..old(self)@
                        })
                        &&& d ==> (r matches ProcessResult::Disconnect { reason } && reason@ == reason_or(c1, "rate limit exceeded"@))
                        &&& !d ==> r == ProcessResult::Dropped
                    }
                },
            },
    {
        let from = *from;
        match decoded {
            Decoded::Error(e) => {
                self.metrics.record_invalid_message();
                match self.find_context(from) {
                    None => {
                        self.push_event(NetEvent::DecodeError { from, error: e });
                        ProcessResult::Dropped
                    },
                    Some(i) => {
                        if self.strike_at(i, from, StrikeCategory::DecodeError) {
                            let reason = self.reason_at(i, "decode error");
                            self.metrics.record_disconnect(StrikeCategory::DecodeError);
                            self.push_event(NetEvent::DecodeError { from, error: e });
                            ProcessResult::Disconnect { reason }
                        } else {
                            self.push_event(NetEvent::DecodeError { from, error: e });
                            ProcessResult::Dropped
                        }
                    },
                }
            },
            Decoded::Message(k) => {
                let t = SecurityContext::classify_message(&k);
                let i = match self.find_context(from) {
                    Some(i) => i,
                    None => {
                        return ProcessResult::Accepted;
                    },
                };
                if self.rate_check_at(i, from, t) {
                    return ProcessResult::Accepted;
                }
                self.metrics.record_rate_limited();
                if self.security_contexts[i].1.should_disconnect() {
                    let reason = self.reason_at(i, "rate limit exceeded");
                    self.metrics.record_disconnect(StrikeCategory::RateExceeded);
                    self.push_event(NetEvent::RateLimitExceeded { from });
                    return ProcessResult::Disconnect { reason };
                }
                ProcessResult::Dropped
            },
        }
    }

    /// Handle a message that has already passed the packet checks, as the
    /// legacy path does: a client with a context is rate limited first, and a
    /// refused message counts as rate limited and is dropped without any
    /// disconnect; an accepted disconnect message removes the connection and
    /// its context, leaving its handshake tracked.
    pub fn handle_message(&mut self, from: &SourceAddr, msg: &ClientMessageKind)
        requires
            old(self).wf(),
            old(self)@.contexts.contains_key(*from) ==> can_strike(old(self)@.contexts[*from], StrikeCategory::RateExceeded)
                && old(self)@.contexts[*from].limiter.blocked_count < u64::MAX,
        ensures
            final(self).wf(),
            !old(self)@.contexts.contains_key(*from) ==> final(self)@ == if *msg == ClientMessageKind::Disconnect {
                NetLoopView { connections: old(self)@.connections.remove(*from), ..old(self)@ }
            } else {
                old(self)@
            },
            old(self)@.contexts.contains_key(*from) ==> exists|c1: SecurityContextView, eg: u64, et: u64, ok: bool| {
                &&& #[trigger] limiter_step(old(self)@.contexts[*from].limiter, c1.limiter, message_class(*msg), eg, et, ok)
                &&& c1.connection_id == old(self)@.contexts[*from].connection_id
                &&& ok ==> c1.strikes == old(self)@.contexts[*from].strikes && final(self)@ == if *msg == ClientMessageKind::Disconnect {
                    NetLoopView {
                        connections: old(self)@.connections.remove(*from),
                        contexts: old(self)@.contexts.remove(*from),
                        ..old(self)@
                    }
                } else {
                    NetLoopView { contexts: old(self)@.contexts.insert(*from, c1), ..old(self)@ }
                }
                &&& !ok ==> strike_step(old(self)@.contexts[*from].strikes, c1.strikes, StrikeCategory::RateExceeded, c1.strikes.disconnect_triggered)
                    && final(self)@ == (NetLoopView {
                    contexts: old(self)@.contexts.insert(*from, c1),
                    metrics: with_rate_limited(old(self)@.metrics),
                    ..old(self)@
                })
            },
    {
        let from = *from;
        let is_disconnect = *msg == ClientMessageKind::Disconnect;
        let kind = SecurityContext::classify_message(msg);
        if let Some(i) = self.find_context(from) {
            let ok = self.rate_check_at(i, from, kind);
            let ghost c1 = self@.contexts[from];
            if !ok {
                self.metrics.record_rate_limited();
                return;
            }
            if is_disconnect {
                let _ = self.forget_context(from);
                self.forget_connection(from);
                assert(self@.contexts =~= old(self)@.contexts.remove(from));
            }
            return;
        }
        if is_disconnect {
            self.forget_connection(from);
        }
    }

    /// Update all connections: handshakes that timed out are dropped and
    /// counted, the connections found timed out (`timed_out`) are removed, and
    /// every remaining connection's strikes decay.
    pub fn update(&mut self, timed_out: &Vec<SourceAddr>)
        requires
            old(self).wf(),
        ensures
            final(self).wf(),
            final(self)@.connections == old(self)@.connections.difference(timed_out@.to_set()),
            final(self)@.contexts.dom() == old(self)@.contexts.dom().difference(timed_out@.to_set()),
            forall|a: SourceAddr| #[trigger] final(self)@.contexts.contains_key(a) ==> decayed(old(self)@.contexts[a], final(self)@.contexts[a]),
            exists|n: nat| final(self)@.metrics == #[trigger] with_timeouts(old(self)@.metrics, n),
            final(self)@.tracker.pending.dom().subset_of(old(self)@.tracker.pending.dom()),
            final(self)@.events == old(self)@.events,
            final(self)@.next_connection_id == old(self)@.next_connection_id,
    {
        let ghost n0 = self@;
        let expired = self.handshake_tracker.check_timeouts();
        proof {
            lemma_removed_all_shrinks(n0.tracker, expired@);
        }
        let mut k: usize = 0;
        while k < expired.len()
            invariant
                self.wf(),
                k <= expired@.len(),
                self@ == (NetLoopView { metrics: with_timeouts(n0.metrics, k as nat), tracker: self@.tracker, ..n0 }),
                self@.tracker.pending.dom().subset_of(n0.tracker.pending.dom()),
            decreases expired@.len() - k,
        {
            self.metrics.record_handshake_timeout();
            k = k + 1;
        }
        let ghost m1 = self@.metrics;
        let ghost d0 = self@.tracker.pending.dom();
        let ghost gone = timed_out@;
        let mut j: usize = 0;
        while j < timed_out.len()
            invariant
                self.wf(),
                j <= gone.len(),
                gone == timed_out@,
                self@.metrics == m1,
                self@.events == n0.events,
                self@.next_connection_id == n0.next_connection_id,
                self@.connections == n0.connections.difference(gone.take(j as int).to_set()),
                self@.contexts.dom() == n0.contexts.dom().difference(gone.take(j as int).to_set()),
                forall|a: SourceAddr| #[trigger] self@.contexts.contains_key(a) ==> self@.contexts[a] == n0.contexts[a],
                self@.tracker.pending.dom().subset_of(n0.tracker.pending.dom()),
            decreases gone.len() - j,
        {
            let ghost before = self@;
            let addr = timed_out[j];
            self.remove_connection(&addr);
            proof {
                if before.contexts.contains_key(addr) {
                    lemma_removed_shrinks(before.tracker, before.contexts[addr].connection_id);
                }
                let s1 = gone.take(j + 1).to_set();
                let s0 = gone.take(j as int).to_set();
                let t1 = gone.take(j + 1);
                let t0 = gone.take(j as int);
                assert(s1 =~= s0.insert(addr)) by {
                    assert(t1 =~= t0.push(addr));
                    assert forall|x: SourceAddr| s1.contains(x) <==> s0.insert(addr).contains(x) by {
                        if s1.contains(x) {
                            let q = choose|q: int| 0 <= q < t1.len() && #[trigger] t1[q] == x;
                            if q < j {
                                assert(t0[q] == x);
                            }
                        }
                        if s0.contains(x) {
                            let q = choose|q: int| 0 <= q < t0.len() && #[trigger] t0[q] == x;
                            assert(t1[q] == x);
                        }
                        if x == addr {
                            assert(t1[j as int] == x);
                        }
                    }
                }
                assert(self@.connections =~= n0.connections.difference(s1));
                assert(self@.contexts.dom() =~= n0.contexts.dom().difference(s1));
            }
            j = j + 1;
        }
        assert(gone.take(gone.len() as int) =~= gone);
        let ghost pre = context_pairs(self.security_contexts@);
        let ghost mid = self@;
        let mut i: usize = 0;
        while i < self.security_contexts.len()
            invariant
                self.wf(),
                i <= self.security_contexts@.len(),
                self@ == (NetLoopView { contexts: self@.contexts, ..mid }),
                context_pairs(self.security_contexts@).len() == pre.len(),
                forall|q: int| 0 <= q < pre.len() ==> #[trigger] context_pairs(self.security_contexts@)[q].0 == pre[q].0,
                forall|q: int| 0 <= q < i ==> decayed(pre[q].1, #[trigger] context_pairs(self.security_contexts@)[q].1),
                forall|q: int| i <= q < pre.len() ==> #[trigger] context_pairs(self.security_contexts@)[q] == pre[q],
            decreases self.security_contexts@.len() - i,
        {
            let ghost ps = context_pairs(self.security_contexts@);
            let ghost old_seq = self.security_contexts@;
            let (a, mut ctx) = self.take_context(i);
            ctx.decay();
            proof {
                lemma_update(ps, i as int, ctx@);
            }
            self.security_contexts.insert(i, (a, ctx));
            assert(self.security_contexts@ =~= old_seq.update(i as int, (a, ctx)));
            assert(context_pairs(self.security_contexts@) =~= ps.update(i as int, (a, ctx@)));
            proof {
                assert forall|q: int| 0 <= q < self.security_contexts@.len() implies (#[trigger] self.security_contexts@[q]).1.wf() by {
                    if q != i {
                        assert(self.security_contexts@[q] == old_seq[q]);
                    }
                }
            }
            i = i + 1;
        }
        proof {
            let cur = context_pairs(self.security_contexts@);
            assert forall|a: SourceAddr| #[trigger] self@.contexts.contains_key(a) implies decayed(mid.contexts[a], self@.contexts[a]) by {
                let q = choose|q: int| 0 <= q < cur.len() && #[trigger] cur[q].0 == a;
                crate::assoc::lemma_at(cur, q);
                assert(pre[q].0 == a);
                crate::assoc::lemma_at(pre, q);
            }
            assert forall|a: SourceAddr| self@.contexts.contains_key(a) <==> mid.contexts.contains_key(a) by {
                if self@.contexts.contains_key(a) {
                    let q = choose|q: int| 0 <= q < cur.len() && #[trigger] cur[q].0 == a;
                    assert(pre[q].0 == a);
                }
                if mid.contexts.contains_key(a) {
                    let q = choose|q: int| 0 <= q < pre.len() && #[trigger] pre[q].0 == a;
                    assert(cur[q].0 == a);
                }
            }
            assert(self@.contexts.dom() =~= mid.contexts.dom());
        }
    }

    /// Get connection count
    pub fn connection_count(&self) -> (n: usize)
        requires
            self.wf(),
        ensures
            n == self@.connections.len(),
    {
        proof {
            self.connections@.unique_seq_to_set();
        }
        self.connections.len()
    }

    /// Check if address is connected
    pub fn is_connected(&self, addr: &SourceAddr) -> (b: bool)
        ensures
            b == self@.connections.contains(*addr),
    {
        self.find_connection(*addr).is_some()
    }

    /// Get security context for an address
    pub fn get_security_context(&self, addr: &SourceAddr) -> (r: Option<&SecurityContext>)
        requires
            self.wf(),
        ensures
            match r {
                Some(c) => self@.contexts.contains_key(*addr) && c@ == self@.contexts[*addr] && c.wf(),
                None => !self@.contexts.contains_key(*addr),
            },
    {
        match self.find_context(*addr) {
            Some(i) => Some(&self.security_contexts[i].1),
            None => None,
        }
    }

    /// Get reference to the security metrics
    pub fn metrics(&self) -> (m: &SecurityMetrics)
        ensures
            m@ == self@.metrics,
    {
        &self.metrics
    }

    /// Get reference to handshake tracker
    pub fn handshake_tracker(&self) -> (t: &HandshakeTracker)
        ensures
            t@ == self@.tracker,
    {
        &self.handshake_tracker
    }

    /// Take the security events not yet logged, oldest first.
    pub fn drain_events(&mut self) -> (events: Vec<NetEvent>)
        ensures
            event_views(events@) == old(self)@.events,
            final(self)@ == (NetLoopView { events: Seq::empty(), ..old(self)@ }),
            final(self).wf() == old(self).wf(),
    {
        let mut events: Vec<NetEvent> = Vec::new();
        std::mem::swap(&mut events, &mut self.events);
        assert(event_views(self.events@) =~= Seq::empty());
        events
    }

    fn push_event(&mut self, e: NetEvent)
        ensures
            final(self)@ == (NetLoopView { events: old(self)@.events.push(e@), ..old(self)@ }),
            final(self).wf() == old(self).wf(),
    {
        let ghost es = event_views(self.events@);
        self.events.push(e);
        assert(event_views(self.events@) =~= es.push(e@));
    }
}

impl Default for ServerNetLoop {
    fn default() -> (n: ServerNetLoop)
        ensures
            n.wf(),
            n@.connections == Set::<SourceAddr>::empty(),
            n@.contexts == Map::<SourceAddr, SecurityContextView>::empty(),
            n@.metrics.is_zero(),
            n@.events == Seq::<NetEventView>::empty(),
            n@.next_connection_id == 1,
    {
        ServerNetLoop::new()
    }
}

} // verus!
