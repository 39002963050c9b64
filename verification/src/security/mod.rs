//! Protection against protocol abuse: strike tracking, rate limiting,
//! handshake supervision and security metrics.
//!
//! Each client connection has one [`SecurityContext`], which bundles a
//! [`StrikeTracker`] for accumulating violations and a [`RateLimiter`] for
//! message rate enforcement.

pub mod handshake;
pub mod observability;
pub mod rate_limiter;
pub mod strikes;

pub use handshake::{HandshakeError, HandshakeState};
pub use observability::{MetricsSnapshot, RateLimitedLogger, SecurityMetrics};
pub use rate_limiter::{RateLimitedMessageType, RateLimiter, RateLimiterConfig, TokenBucket};
pub use strikes::{StrikeCategory, StrikeTracker};

use vstd::prelude::*;

use rate_limiter::{RateLimiterView, limiter_step};
use strikes::StrikeTrackerView;

verus! {

/// Which client message a packet holds, without its contents.
#[derive(Debug, Clone, Copy, PartialEq, Eq, Structural)]
pub enum ClientMessageKind {
    Connect,
    Disconnect,
    Input,
    SnapshotAck,
    BlockEdit,
    ReadyToggle,
    TrainingReset,
    TrainingStatsRequest,
    SelectHotbarSlot,
    UseActiveItem,
    CraftRequest,
    BuyRequest,
    BalanceRequest,
    ShopListRequest,
    RenameRequest,
    ChatSend,
}

/// The rate-limit category of a client message: block edits, chat and item
/// use have their own limits, every other message only the global one.
pub open spec fn message_class(k: ClientMessageKind) -> RateLimitedMessageType {
    match k {
        ClientMessageKind::BlockEdit => RateLimitedMessageType::BlockEdit,
        ClientMessageKind::ChatSend => RateLimitedMessageType::Chat,
        ClientMessageKind::UseActiveItem => RateLimitedMessageType::Attack,
        _ => RateLimitedMessageType::Global,
    }
}

/// The observable state of a [`SecurityContext`].
pub struct SecurityContextView {
    pub connection_id: u64,
    pub strikes: StrikeTrackerView,
    pub limiter: RateLimiterView,
}

/// Per-connection security context bundling all security state.
///
/// This is the primary interface for security checks in the network loop.
/// Each connection should have exactly one SecurityContext.
#[derive(Debug)]
pub struct SecurityContext {
    /// Connection identifier for logging
    connection_id: u64,
    /// Strike tracker for violation accumulation
    strikes: StrikeTracker,
    /// Rate limiter for message frequency
    rate_limiter: RateLimiter,
}

impl View for SecurityContext {
    type V = SecurityContextView;

    closed spec fn view(&self) -> SecurityContextView {
        SecurityContextView {
            connection_id: self.connection_id,
            strikes: self.strikes@,
            limiter: self.rate_limiter@,
        }
    }
}

/// `post` follows `pre` by one strike in `category`, as
/// [`StrikeTracker::record_strike`] states it, with outcome `disconnect`.
pub open spec fn strike_step(
    pre: StrikeTrackerView,
    post: StrikeTrackerView,
    category: StrikeCategory,
    disconnect: bool,
) -> bool {
    &&& disconnect == post.disconnect_triggered
    &&& pre.disconnect_triggered ==> post == pre
    &&& !pre.disconnect_triggered ==> {
        &&& post.connection_id == pre.connection_id
        &&& post.strikes == pre.strikes + 1
        &&& post.has_last_strike
        &&& post.category_counts == pre.category_counts.update(
            category.index(),
            (pre.category_counts[category.index()] + 1) as u32,
        )
        &&& post.disconnect_triggered == (post.strikes >= crate::limits::STRIKES_BEFORE_DISCONNECT)
        &&& post.disconnect_reason == if post.disconnect_triggered {
            Some(strikes::disconnect_message(category, post.strikes as nat))
        } else {
            None
        }
    }
}

/// `post` follows `pre` by one decay, as [`StrikeTracker::decay`] states it:
/// at most one strike is forgiven, never after the disconnect, and nothing else
/// changes.
pub open spec fn decay_step(pre: StrikeTrackerView, post: StrikeTrackerView) -> bool {
    &&& post.connection_id == pre.connection_id
    &&& post.category_counts == pre.category_counts
    &&& post.disconnect_triggered == pre.disconnect_triggered
    &&& post.disconnect_reason == pre.disconnect_reason
    &&& post.has_last_strike == pre.has_last_strike
    &&& pre.disconnect_triggered ==> post.strikes == pre.strikes
    &&& (post.strikes == pre.strikes || post.strikes == pre.strikes - 1)
}

/// `post` follows `pre` by one strike, in some category, or by one decay.
pub open spec fn tracker_step(pre: StrikeTrackerView, post: StrikeTrackerView) -> bool {
    ||| exists|category: StrikeCategory, disconnect: bool| strike_step(pre, post, category, disconnect)
    ||| decay_step(pre, post)
}

impl SecurityContext {
    /// Both parts of the context are well formed.
    pub open spec fn wf(&self) -> bool {
        &&& self.strikes_spec().wf()
        &&& self.limiter_spec().wf()
    }

    /// The context's strike tracker.
    pub closed spec fn strikes_spec(&self) -> StrikeTracker {
        self.strikes
    }

    /// The context's rate limiter.
    pub closed spec fn limiter_spec(&self) -> RateLimiter {
        self.rate_limiter
    }

    /// Whether one more strike in `category` can be counted without the
    /// per-category counter overflowing.
    pub open spec fn can_record(&self, category: StrikeCategory) -> bool {
        !self@.strikes.disconnect_triggered ==> self@.strikes.category_counts[category.index()]
            < u32::MAX
    }

    /// Create a new security context for a connection.
    pub fn new(connection_id: u64) -> (c: SecurityContext)
        ensures
            c.wf(),
            c@.connection_id == connection_id,
            c@.strikes.connection_id == connection_id,
            c@.strikes.strikes == 0,
            !c@.strikes.has_last_strike,
            c@.strikes.category_counts.len() == strikes::CATEGORY_COUNT,
            forall|i: int|
                0 <= i < strikes::CATEGORY_COUNT ==> #[trigger] c@.strikes.category_counts[i] == 0,
            !c@.strikes.disconnect_triggered,
            c@.strikes.disconnect_reason is None,
            rate_limiter::fresh_limiter(
                c@.limiter,
                crate::limits::GLOBAL_MSG_PER_SEC,
                crate::limits::GLOBAL_MSG_PER_SEC,
            ),
    {
        let c = SecurityContext {
            connection_id,
            strikes: StrikeTracker::new(connection_id),
            rate_limiter: RateLimiter::new(),
        };
        assert(c.strikes_spec() == c.strikes);
        c
    }

    /// A disconnect reason is recorded exactly when the disconnect has been
    /// triggered.
    pub proof fn lemma_reason_iff_triggered(&self)
        requires
            self.wf(),
        ensures
            self@.strikes.disconnect_triggered <==> self@.strikes.disconnect_reason is Some,
    {
        self.strikes.lemma_reason_iff_triggered();
    }

    /// Whether one more strike in `category` can be counted.
    pub fn can_record_strike(&self, category: StrikeCategory) -> (b: bool)
        requires
            self.wf(),
        ensures
            b == self.can_record(category),
    {
        if self.strikes.should_disconnect() {
            return true;
        }
        match self.strikes.get_strikes_by_category().get(&category) {
            Some(n) => n < u32::MAX,
            None => true,
        }
    }

    /// Whether one more rate-limited message can be counted.
    pub fn can_count_blocked(&self) -> (b: bool)
        ensures
            b == (self@.limiter.blocked_count < u64::MAX),
    {
        self.rate_limiter.blocked_count() < u64::MAX
    }

    /// Check if a client message is allowed by rate limiting, by its category.
    pub fn check_message_rate(&mut self, msg: &ClientMessageKind) -> (ok: bool)
        requires
            old(self).wf(),
            old(self)@.limiter.blocked_count < u64::MAX,
            old(self).can_record(StrikeCategory::RateExceeded),
        ensures
            final(self).wf(),
            final(self)@.connection_id == old(self)@.connection_id,
            exists|eg: u64, et: u64|
                limiter_step(old(self)@.limiter, final(self)@.limiter, message_class(*msg), eg, et, ok),
            ok ==> final(self)@.strikes == old(self)@.strikes,
            !ok ==> exists|d: bool|
                strike_step(
                    old(self)@.strikes,
                    final(self)@.strikes,
                    StrikeCategory::RateExceeded,
                    d,
                ),
    {
        let t = Self::classify_message(msg);
        self.check_rate_limit(t)
    }

    /// Classify a client message into a rate limit category.
    pub fn classify_message(msg: &ClientMessageKind) -> (t: RateLimitedMessageType)
        ensures
            t == message_class(*msg),
    {
        match msg {
            ClientMessageKind::BlockEdit => RateLimitedMessageType::BlockEdit,
            ClientMessageKind::ChatSend => RateLimitedMessageType::Chat,
            ClientMessageKind::UseActiveItem => RateLimitedMessageType::Attack,
            _ => RateLimitedMessageType::Global,
        }
    }

    /// Check if a message is allowed by rate limiting.
    ///
    /// If rate limited, automatically records a `RateExceeded` strike.
    /// Returns `true` if message is allowed, `false` if rate limited.
    pub fn check_rate_limit(&mut self, msg_type: RateLimitedMessageType) -> (ok: bool)
        requires
            old(self).wf(),
            old(self)@.limiter.blocked_count < u64::MAX,
            old(self).can_record(StrikeCategory::RateExceeded),
        ensures
            final(self).wf(),
            final(self)@.connection_id == old(self)@.connection_id,
            exists|eg: u64, et: u64|
                limiter_step(old(self)@.limiter, final(self)@.limiter, msg_type, eg, et, ok),
            ok ==> final(self)@.strikes == old(self)@.strikes,
            !ok ==> exists|d: bool|
                strike_step(
                    old(self)@.strikes,
                    final(self)@.strikes,
                    StrikeCategory::RateExceeded,
                    d,
                ),
    {
        let ghost pre = self.rate_limiter@;
        let ok = self.rate_limiter.try_consume(msg_type);
        let ghost (eg, et) = choose|eg: u64, et: u64|
            limiter_step(pre, self.rate_limiter@, msg_type, eg, et, ok);
        if !ok {
            let d = self.strikes.record_strike(StrikeCategory::RateExceeded);
            assert(strike_step(old(self)@.strikes, self@.strikes, StrikeCategory::RateExceeded, d));
        }
        assert(limiter_step(old(self)@.limiter, self@.limiter, msg_type, eg, et, ok));
        ok
    }

    /// Record a decode error and return whether to disconnect.
    pub fn record_decode_error(&mut self) -> (d: bool)
        requires
            old(self).wf(),
            old(self).can_record(StrikeCategory::DecodeError),
        ensures
            final(self).wf(),
            final(self)@.connection_id == old(self)@.connection_id,
            final(self)@.limiter == old(self)@.limiter,
            strike_step(old(self)@.strikes, final(self)@.strikes, StrikeCategory::DecodeError, d),
    {
        self.strikes.record_strike(StrikeCategory::DecodeError)
    }

    /// Record a size violation and return whether to disconnect.
    pub fn record_size_violation(&mut self) -> (d: bool)
        requires
            old(self).wf(),
            old(self).can_record(StrikeCategory::SizeViolation),
        ensures
            final(self).wf(),
            final(self)@.connection_id == old(self)@.connection_id,
            final(self)@.limiter == old(self)@.limiter,
            strike_step(old(self)@.strikes, final(self)@.strikes, StrikeCategory::SizeViolation, d),
    {
        self.strikes.record_strike(StrikeCategory::SizeViolation)
    }

    /// Record a handshake abuse and return whether to disconnect.
    pub fn record_handshake_abuse(&mut self) -> (d: bool)
        requires
            old(self).wf(),
            old(self).can_record(StrikeCategory::HandshakeAbuse),
        ensures
            final(self).wf(),
            final(self)@.connection_id == old(self)@.connection_id,
            final(self)@.limiter == old(self)@.limiter,
            strike_step(old(self)@.strikes, final(self)@.strikes, StrikeCategory::HandshakeAbuse, d),
    {
        self.strikes.record_strike(StrikeCategory::HandshakeAbuse)
    }

    /// Record a payload sync abuse and return whether to disconnect.
    pub fn record_payload_sync_abuse(&mut self) -> (d: bool)
        requires
            old(self).wf(),
            old(self).can_record(StrikeCategory::PayloadSyncAbuse),
        ensures
            final(self).wf(),
            final(self)@.connection_id == old(self)@.connection_id,
            final(self)@.limiter == old(self)@.limiter,
            strike_step(
                old(self)@.strikes,
                final(self)@.strikes,
                StrikeCategory::PayloadSyncAbuse,
                d,
            ),
    {
        self.strikes.record_strike(StrikeCategory::PayloadSyncAbuse)
    }

    /// Record a hash mismatch and return whether to disconnect.
    pub fn record_hash_mismatch(&mut self) -> (d: bool)
        requires
            old(self).wf(),
            old(self).can_record(StrikeCategory::HashMismatch),
        ensures
            final(self).wf(),
            final(self)@.connection_id == old(self)@.connection_id,
            final(self)@.limiter == old(self)@.limiter,
            strike_step(old(self)@.strikes, final(self)@.strikes, StrikeCategory::HashMismatch, d),
    {
        self.strikes.record_strike(StrikeCategory::HashMismatch)
    }

    /// Record a parser abuse and return whether to disconnect.
    pub fn record_parser_abuse(&mut self) -> (d: bool)
        requires
            old(self).wf(),
            old(self).can_record(StrikeCategory::ParserAbuse),
        ensures
            final(self).wf(),
            final(self)@.connection_id == old(self)@.connection_id,
            final(self)@.limiter == old(self)@.limiter,
            strike_step(old(self)@.strikes, final(self)@.strikes, StrikeCategory::ParserAbuse, d),
    {
        self.strikes.record_strike(StrikeCategory::ParserAbuse)
    }

    /// Record a strike with the given category and return whether to disconnect.
    pub fn record_strike(&mut self, category: StrikeCategory) -> (d: bool)
        requires
            old(self).wf(),
            old(self).can_record(category),
        ensures
            final(self).wf(),
            final(self)@.connection_id == old(self)@.connection_id,
            final(self)@.limiter == old(self)@.limiter,
            strike_step(old(self)@.strikes, final(self)@.strikes, category, d),
    {
        self.strikes.record_strike(category)
    }

    /// Check if connection should be disconnected due to violations.
    pub fn should_disconnect(&self) -> (b: bool)
        ensures
            b == self@.strikes.disconnect_triggered,
    {
        self.strikes.should_disconnect()
    }

    /// Get the reason for disconnect if applicable.
    pub fn disconnect_reason(&self) -> (r: Option<&str>)
        ensures
            match r {
                Some(s) => self@.strikes.disconnect_reason == Some(s@),
                None => self@.strikes.disconnect_reason is None,
            },
    {
        self.strikes.disconnect_reason()
    }

    /// Apply time-based decay to strikes. Call periodically (e.g., once per second).
    pub fn decay(&mut self)
        requires
            old(self).wf(),
        ensures
            final(self).wf(),
            final(self)@.connection_id == old(self)@.connection_id,
            final(self)@.limiter == old(self)@.limiter,
            final(self)@.strikes.connection_id == old(self)@.strikes.connection_id,
            final(self)@.strikes.category_counts == old(self)@.strikes.category_counts,
            final(self)@.strikes.disconnect_triggered == old(self)@.strikes.disconnect_triggered,
            final(self)@.strikes.disconnect_reason == old(self)@.strikes.disconnect_reason,
            final(self)@.strikes.has_last_strike == old(self)@.strikes.has_last_strike,
            old(self)@.strikes.disconnect_triggered ==> final(self)@.strikes.strikes
                == old(self)@.strikes.strikes,
            !old(self)@.strikes.has_last_strike ==> final(self)@.strikes.strikes == old(self)@.strikes.strikes,
            final(self)@.strikes.strikes == old(self)@.strikes.strikes
                || final(self)@.strikes.strikes == old(self)@.strikes.strikes - 1,
    {
        self.strikes.decay();
    }

    /// Get current strike count.
    pub fn strike_count(&self) -> (n: u32)
        ensures
            n == self@.strikes.strikes,
    {
        self.strikes.get_strikes()
    }

    /// Get the connection ID.
    pub fn connection_id(&self) -> (id: u64)
        ensures
            id == self@.connection_id,
    {
        self.connection_id
    }

    /// Get the number of rate-limited messages.
    pub fn rate_limited_count(&self) -> (n: u64)
        ensures
            n == self@.limiter.blocked_count,
    {
        self.rate_limiter.blocked_count()
    }

    /// Get reference to the strike tracker.
    pub fn strikes(&self) -> (t: &StrikeTracker)
        ensures
            t@ == self@.strikes,
            t == self.strikes_spec(),
    {
        &self.strikes
    }

    /// Get mutable reference to the strike tracker.
    pub fn strikes_mut(&mut self) -> (t: &mut StrikeTracker)
        ensures
            *t == old(self).strikes_spec(),
            final(self).strikes_spec() == *final(t),
            final(self).limiter_spec() == old(self).limiter_spec(),
            final(self)@.connection_id == old(self)@.connection_id,
    {
        &mut self.strikes
    }

    /// Get reference to the rate limiter.
    pub fn rate_limiter(&self) -> (l: &RateLimiter)
        ensures
            l@ == self@.limiter,
            l == self.limiter_spec(),
    {
        &self.rate_limiter
    }

    /// Get mutable reference to the rate limiter.
    pub fn rate_limiter_mut(&mut self) -> (l: &mut RateLimiter)
        ensures
            *l == old(self).limiter_spec(),
            final(self).limiter_spec() == *final(l),
            final(self).strikes_spec() == old(self).strikes_spec(),
            final(self)@.connection_id == old(self)@.connection_id,
    {
        &mut self.rate_limiter
    }
}

} // verus!

verus! {

proof fn lemma_strikes_count_up(views: Seq<StrikeTrackerView>, cats: Seq<StrikeCategory>, k: int)
    requires
        views.len() == crate::limits::STRIKES_BEFORE_DISCONNECT + 1,
        cats.len() == crate::limits::STRIKES_BEFORE_DISCONNECT,
        views[0].strikes == 0,
        !views[0].disconnect_triggered,
        forall|j: int|
            0 <= j < crate::limits::STRIKES_BEFORE_DISCONNECT ==> strike_step(
                #[trigger] views[j],
                views[j + 1],
                cats[j],
                views[j + 1].disconnect_triggered,
            ),
        0 <= k <= crate::limits::STRIKES_BEFORE_DISCONNECT,
    ensures
        views[k].strikes == k,
        k < crate::limits::STRIKES_BEFORE_DISCONNECT ==> !views[k].disconnect_triggered,
        k == crate::limits::STRIKES_BEFORE_DISCONNECT ==> views[k].disconnect_triggered,
    decreases k,
{
    if k > 0 {
        lemma_strikes_count_up(views, cats, k - 1);
        assert(strike_step(views[k - 1], views[k], cats[k - 1], views[k].disconnect_triggered));
    }
}

/// Strikes lead to a disconnect exactly at the threshold: from a tracker with
/// no strike, the first `STRIKES_BEFORE_DISCONNECT - 1` strikes leave the
/// connection up, and the next one disconnects it.
pub proof fn law_threshold_strikes_disconnect(views: Seq<StrikeTrackerView>, cats: Seq<StrikeCategory>)
    requires
        views.len() == crate::limits::STRIKES_BEFORE_DISCONNECT + 1,
        cats.len() == crate::limits::STRIKES_BEFORE_DISCONNECT,
        views[0].strikes == 0,
        !views[0].disconnect_triggered,
        forall|j: int|
            0 <= j < crate::limits::STRIKES_BEFORE_DISCONNECT ==> strike_step(
                #[trigger] views[j],
                views[j + 1],
                cats[j],
                views[j + 1].disconnect_triggered,
            ),
    ensures
        views.last().disconnect_triggered,
        forall|k: int| 0 <= k < crate::limits::STRIKES_BEFORE_DISCONNECT ==> !(#[trigger] views[k]).disconnect_triggered,
{
    lemma_strikes_count_up(views, cats, crate::limits::STRIKES_BEFORE_DISCONNECT as int);
    assert forall|k: int| 0 <= k < crate::limits::STRIKES_BEFORE_DISCONNECT implies !(#[trigger] views[k]).disconnect_triggered by {
        lemma_strikes_count_up(views, cats, k);
    }
}

proof fn lemma_tracker_run(views: Seq<StrikeTrackerView>, k: int)
    requires
        views.len() >= 1,
        views[0].strikes == 0,
        !views[0].disconnect_triggered,
        forall|j: int| 0 <= j < views.len() - 1 ==> tracker_step(#[trigger] views[j], views[j + 1]),
        0 <= k < views.len(),
    ensures
        views[k].strikes <= crate::limits::STRIKES_BEFORE_DISCONNECT,
        views[k].disconnect_triggered <==> views[k].strikes == crate::limits::STRIKES_BEFORE_DISCONNECT,
        forall|j: int| 0 <= j <= k && (#[trigger] views[j]).disconnect_triggered ==> {
            &&& views[k].disconnect_triggered
            &&& views[k].strikes == views[j].strikes
        },
    decreases k,
{
    if k > 0 {
        lemma_tracker_run(views, k - 1);
        assert(tracker_step(views[k - 1], views[k]));
    }
}

/// Over any run of strikes and decays from a tracker with no strike, the
/// strike count never passes the threshold, the connection is to be
/// disconnected exactly when the count is at the threshold, and once it is,
/// it stays so and the count never changes again.
pub proof fn law_tracker_run_invariant(views: Seq<StrikeTrackerView>)
    requires
        views.len() >= 1,
        views[0].strikes == 0,
        !views[0].disconnect_triggered,
        forall|j: int| 0 <= j < views.len() - 1 ==> tracker_step(#[trigger] views[j], views[j + 1]),
    ensures
        forall|k: int| 0 <= k < views.len() ==> {
            &&& (#[trigger] views[k]).strikes <= crate::limits::STRIKES_BEFORE_DISCONNECT
            &&& views[k].disconnect_triggered <==> views[k].strikes
                == crate::limits::STRIKES_BEFORE_DISCONNECT
        },
        forall|j: int, k: int| 0 <= j <= k < views.len() && (#[trigger] views[j]).disconnect_triggered ==> {
            &&& (#[trigger] views[k]).disconnect_triggered
            &&& views[k].strikes == views[j].strikes
        },
{
    assert forall|k: int| 0 <= k < views.len() implies {
        &&& (#[trigger] views[k]).strikes <= crate::limits::STRIKES_BEFORE_DISCONNECT
        &&& views[k].disconnect_triggered <==> views[k].strikes == crate::limits::STRIKES_BEFORE_DISCONNECT
    } by {
        lemma_tracker_run(views, k);
    }
    assert forall|j: int, k: int| 0 <= j <= k < views.len() && (#[trigger] views[j]).disconnect_triggered implies {
        &&& (#[trigger] views[k]).disconnect_triggered
        &&& views[k].strikes == views[j].strikes
    } by {
        lemma_tracker_run(views, k);
    }
}

/// A disconnect is permanent: a strike on a disconnected connection changes
/// nothing and reports the disconnect again.
pub proof fn law_disconnect_is_permanent(
    pre: StrikeTrackerView,
    post: StrikeTrackerView,
    category: StrikeCategory,
    d: bool,
)
    requires
        pre.disconnect_triggered,
        strike_step(pre, post, category, d),
    ensures
        post == pre,
        d,
{
}

/// A strike that disconnects names its category and the strike count in the
/// reason.
pub proof fn law_disconnect_reason_names_category(
    pre: StrikeTrackerView,
    post: StrikeTrackerView,
    category: StrikeCategory,
)
    requires
        !pre.disconnect_triggered,
        strike_step(pre, post, category, true),
    ensures
        post.disconnect_reason == Some(strikes::disconnect_message(category, post.strikes as nat)),
        post.strikes >= crate::limits::STRIKES_BEFORE_DISCONNECT,
{
}

} // verus!
