//! Rate limiting: token buckets that allow bursts up to a capacity while
//! enforcing an average message rate.

use vstd::prelude::*;

use crate::clock;
use crate::limits::{
    EXPENSIVE_MSG_PER_SEC, GLOBAL_MSG_PER_SEC, MOD_CHANNEL_REFILL_PER_SEC, MOD_CHANNEL_TOKENS,
};

verus! {

/// Message types that can be rate limited
#[derive(Debug, Clone, Copy, PartialEq, Eq, Hash, Structural)]
pub enum RateLimitedMessageType {
    /// Global rate limit (all messages)
    Global,
    /// Mod channel messages
    ModChannel,
    /// Block edit messages
    BlockEdit,
    /// Chat messages
    Chat,
    /// Attack/combat messages
    Attack,
}

/// The observable state of a [`TokenBucket`].
pub struct TokenBucketView {
    pub capacity: u32,
    pub tokens: u32,
    pub refill_rate: u32,
}

/// Tokens earned by a bucket refilling at `rate` tokens per second during
/// `elapsed_ns` nanoseconds (whole tokens only).
pub open spec fn refill_amount(elapsed_ns: u64, rate: u32) -> nat {
    ((elapsed_ns as nat) * (rate as nat) / 1_000_000_000) as nat
}

/// The token count of `b` after a refill covering `elapsed_ns` nanoseconds:
/// earned tokens are added, up to the capacity.
pub open spec fn refilled(b: TokenBucketView, elapsed_ns: u64) -> u32 {
    let earned = refill_amount(elapsed_ns, b.refill_rate);
    if earned > 0 {
        if b.tokens + earned > b.capacity {
            b.capacity
        } else {
            (b.tokens + earned) as u32
        }
    } else {
        b.tokens
    }
}

/// `post` is `pre` after an attempt to take `n` tokens, `elapsed_ns`
/// nanoseconds after the last refill, with outcome `ok`.
pub open spec fn consume_step(
    pre: TokenBucketView,
    post: TokenBucketView,
    elapsed_ns: u64,
    n: u32,
    ok: bool,
) -> bool {
    let avail = refilled(pre, elapsed_ns);
    &&& post.capacity == pre.capacity
    &&& post.refill_rate == pre.refill_rate
    &&& ok == (avail >= n)
    &&& post.tokens == if ok { (avail - n) as u32 } else { avail }
}

/// `post` is `pre` after a refill covering `elapsed_ns` nanoseconds.
pub open spec fn refill_step(pre: TokenBucketView, post: TokenBucketView, elapsed_ns: u64) -> bool {
    &&& post.capacity == pre.capacity
    &&& post.refill_rate == pre.refill_rate
    &&& post.tokens == refilled(pre, elapsed_ns)
}

/// The product of an elapsed time and a refill rate fits in 96 bits.
proof fn lemma_refill_product_bound(elapsed_ns: u64, rate: u32)
    ensures
        (elapsed_ns as nat) * (rate as nat) <= 0xffff_ffff_ffff_ffff_ffff_ffffnat,
        (elapsed_ns as u128) * (rate as u128) == (elapsed_ns as nat) * (rate as nat),
{
    assert((elapsed_ns as nat) * (rate as nat) <= 0xffff_ffff_ffff_ffffnat * 0xffff_ffffnat)
        by (nonlinear_arith);
}

/// The nanoseconds the clock shows since `t`, saturated to `u64`.
fn elapsed_since(t: &std::time::Instant) -> u64 {
    let n = clock::nanos_since(t);
    if n > u64::MAX as u128 {
        u64::MAX
    } else {
        n as u64
    }
}

/// Token bucket for rate limiting
///
/// Tokens are consumed for each message and refilled over time.
/// Allows bursts up to capacity while enforcing average rate.
#[derive(Debug)]
pub struct TokenBucket {
    capacity: u32,
    tokens: u32,
    refill_rate: u32,
    last_refill: std::time::Instant,
}

impl View for TokenBucket {
    type V = TokenBucketView;

    closed spec fn view(&self) -> TokenBucketView {
        TokenBucketView {
            capacity: self.capacity,
            tokens: self.tokens,
            refill_rate: self.refill_rate,
        }
    }
}

impl Clone for TokenBucket {
    /// A copy of the bucket, last refill time included.
    fn clone(&self) -> (c: TokenBucket)
        ensures
            c@ == self@,
    {
        TokenBucket {
            capacity: self.capacity,
            tokens: self.tokens,
            refill_rate: self.refill_rate,
            last_refill: self.last_refill,
        }
    }
}

impl TokenBucket {
    /// A bucket never holds more tokens than its capacity.
    pub open spec fn wf(&self) -> bool {
        self@.tokens <= self@.capacity
    }

    /// Create a new token bucket, full.
    pub fn new(capacity: u32, refill_rate: u32) -> (b: TokenBucket)
        ensures
            b.wf(),
            b@.capacity == capacity,
            b@.tokens == capacity,
            b@.refill_rate == refill_rate,
    {
        TokenBucket { capacity, tokens: capacity, refill_rate, last_refill: clock::now() }
    }

    /// The tokens a refill covering `elapsed_ns` nanoseconds would leave, and
    /// whether at least one token is earned in that time.
    fn tokens_after(&self, elapsed_ns: u64) -> (r: (u32, bool))
        requires
            self.wf(),
        ensures
            r.0 == refilled(self@, elapsed_ns),
            r.1 == (refill_amount(elapsed_ns, self@.refill_rate) > 0),
            self@.tokens <= r.0 <= self@.capacity,
    {
        proof {
            lemma_refill_product_bound(elapsed_ns, self.refill_rate);
        }
        let product: u128 = (elapsed_ns as u128) * (self.refill_rate as u128);
        let earned: u128 = product / 1_000_000_000;
        if earned > 0 {
            let sum: u128 = self.tokens as u128 + earned;
            if sum > self.capacity as u128 {
                (self.capacity, true)
            } else {
                (sum as u32, true)
            }
        } else {
            (self.tokens, false)
        }
    }

    /// Refill as if `elapsed_ns` nanoseconds had passed since the last refill.
    ///
    /// When at least one token is earned the refill clock restarts.
    pub fn refill_after(&mut self, elapsed_ns: u64)
        requires
            old(self).wf(),
        ensures
            final(self).wf(),
            refill_step(old(self)@, final(self)@, elapsed_ns),
    {
        let (t, earned) = self.tokens_after(elapsed_ns);
        if earned {
            self.tokens = t;
            self.last_refill = clock::now();
        }
    }

    /// Attempt to take `n` tokens, `elapsed_ns` nanoseconds after the last refill.
    ///
    /// Returns `true` and removes the tokens when the refilled bucket holds at
    /// least `n`; otherwise keeps the refilled tokens and returns `false`.
    pub fn try_consume_n_after(&mut self, n: u32, elapsed_ns: u64) -> (ok: bool)
        requires
            old(self).wf(),
        ensures
            final(self).wf(),
            consume_step(old(self)@, final(self)@, elapsed_ns, n, ok),
    {
        self.refill_after(elapsed_ns);
        if self.tokens >= n {
            self.tokens = self.tokens - n;
            true
        } else {
            false
        }
    }

    /// Attempt to consume a token.
    ///
    /// Returns `true` if successful, `false` if rate limited.
    pub fn try_consume(&mut self) -> (ok: bool)
        requires
            old(self).wf(),
        ensures
            final(self).wf(),
            exists|e: u64| consume_step(old(self)@, final(self)@, e, 1, ok),
            old(self)@.tokens >= 1 ==> ok,
            ok ==> final(self)@.tokens + 1 >= old(self)@.tokens,
            !ok ==> final(self)@.tokens == 0,
    {
        self.try_consume_n(1)
    }

    /// Attempt to consume N tokens.
    ///
    /// Returns `true` if successful, `false` if rate limited. The bucket is first
    /// refilled for the time since the last refill, which the clock decides.
    pub fn try_consume_n(&mut self, n: u32) -> (ok: bool)
        requires
            old(self).wf(),
        ensures
            final(self).wf(),
            exists|e: u64| consume_step(old(self)@, final(self)@, e, n, ok),
            old(self)@.tokens >= n ==> ok,
            ok ==> final(self)@.tokens + n >= old(self)@.tokens,
            !ok ==> final(self)@.tokens < n,
    {
        let elapsed = elapsed_since(&self.last_refill);
        self.try_consume_n_after(n, elapsed)
    }

    /// Whether taking `n` tokens would succeed `elapsed_ns` nanoseconds after the
    /// last refill.
    pub fn would_allow_n_after(&self, n: u32, elapsed_ns: u64) -> (b: bool)
        requires
            self.wf(),
        ensures
            b == (refilled(self@, elapsed_ns) >= n),
    {
        self.tokens_after(elapsed_ns).0 >= n
    }

    /// Check if consuming would succeed without actually consuming.
    pub fn would_allow(&self) -> (b: bool)
        requires
            self.wf(),
        ensures
            exists|e: u64| b == (refilled(self@, e) >= 1),
            self@.tokens >= 1 ==> b,
    {
        self.would_allow_n(1)
    }

    /// Check if consuming N tokens would succeed.
    pub fn would_allow_n(&self, n: u32) -> (b: bool)
        requires
            self.wf(),
        ensures
            exists|e: u64| b == (refilled(self@, e) >= n),
            self@.tokens >= n ==> b,
            n > self@.capacity ==> !b,
    {
        let elapsed = elapsed_since(&self.last_refill);
        self.would_allow_n_after(n, elapsed)
    }

    /// Get current token count (after refill)
    pub fn tokens(&mut self) -> (t: u32)
        requires
            old(self).wf(),
        ensures
            final(self).wf(),
            exists|e: u64| refill_step(old(self)@, final(self)@, e),
            t == final(self)@.tokens,
            old(self)@.tokens <= t <= old(self)@.capacity,
    {
        let elapsed = elapsed_since(&self.last_refill);
        self.refill_after(elapsed);
        self.tokens
    }

    /// Get current token count without refilling
    pub fn tokens_raw(&self) -> (t: u32)
        ensures
            t == self@.tokens,
    {
        self.tokens
    }

    /// Reset bucket to full capacity
    pub fn reset(&mut self)
        ensures
            final(self).wf(),
            final(self)@.capacity == old(self)@.capacity,
            final(self)@.refill_rate == old(self)@.refill_rate,
            final(self)@.tokens == old(self)@.capacity,
    {
        self.tokens = self.capacity;
        self.last_refill = clock::now();
    }

    /// Add back one token taken by a message that was refused elsewhere, up to
    /// the capacity.
    fn refund_one(&mut self)
        requires
            old(self).wf(),
        ensures
            final(self).wf(),
            final(self)@.capacity == old(self)@.capacity,
            final(self)@.refill_rate == old(self)@.refill_rate,
            final(self)@.tokens == if old(self)@.tokens + 1 > old(self)@.capacity {
                old(self)@.capacity
            } else {
                (old(self)@.tokens + 1) as u32
            },
    {
        if self.tokens < self.capacity {
            self.tokens = self.tokens + 1;
        }
    }
}

/// The observable state of a [`RateLimiter`].
pub struct RateLimiterView {
    pub global: TokenBucketView,
    pub mod_channel: TokenBucketView,
    pub block_edit: TokenBucketView,
    pub chat: TokenBucketView,
    pub attack: TokenBucketView,
    pub blocked_count: u64,
}

impl RateLimiterView {
    /// The per-type bucket that governs `t` (the global bucket for `Global`).
    pub open spec fn bucket(self, t: RateLimitedMessageType) -> TokenBucketView {
        match t {
            RateLimitedMessageType::Global => self.global,
            RateLimitedMessageType::ModChannel => self.mod_channel,
            RateLimitedMessageType::BlockEdit => self.block_edit,
            RateLimitedMessageType::Chat => self.chat,
            RateLimitedMessageType::Attack => self.attack,
        }
    }

    /// Every per-type bucket other than the one of `t` is the same in `a` and `b`.
    pub open spec fn others_unchanged(a: Self, b: Self, t: RateLimitedMessageType) -> bool {
        &&& t != RateLimitedMessageType::ModChannel ==> b.mod_channel == a.mod_channel
        &&& t != RateLimitedMessageType::BlockEdit ==> b.block_edit == a.block_edit
        &&& t != RateLimitedMessageType::Chat ==> b.chat == a.chat
        &&& t != RateLimitedMessageType::Attack ==> b.attack == a.attack
    }
}

/// Whether a message of type `t` passes the limiter `v` when the global bucket
/// is consulted `eg` and the type's bucket `et` nanoseconds after their last
/// refills: the global bucket, and for any other type its own bucket, must hold
/// a token after refilling.
pub open spec fn allows(v: RateLimiterView, t: RateLimitedMessageType, eg: u64, et: u64) -> bool {
    refilled(v.global, eg) >= 1 && (t == RateLimitedMessageType::Global || refilled(v.bucket(t), et)
        >= 1)
}

/// The refund that puts back the global token of a message refused by its type.
pub open spec fn refund(b: TokenBucketView) -> TokenBucketView {
    TokenBucketView {
        capacity: b.capacity,
        tokens: if b.tokens + 1 > b.capacity { b.capacity } else { (b.tokens + 1) as u32 },
        refill_rate: b.refill_rate,
    }
}

/// `post` is `pre` after a rate-limit check of a message of type `t` with
/// outcome `ok`, where the global bucket is consulted `eg` nanoseconds and the
/// type's bucket `et` nanoseconds after their last refills.
///
/// The global bucket is checked first; a message it refuses is blocked. Any
/// other type is then checked against its own bucket; when that refuses, the
/// global token is refunded and the message is blocked.
pub open spec fn limiter_step(
    pre: RateLimiterView,
    post: RateLimiterView,
    t: RateLimitedMessageType,
    eg: u64,
    et: u64,
    ok: bool,
) -> bool {
    let g_ok = refilled(pre.global, eg) >= 1;
    let g_after = TokenBucketView {
        capacity: pre.global.capacity,
        tokens: if g_ok { (refilled(pre.global, eg) - 1) as u32 } else { refilled(pre.global, eg) },
        refill_rate: pre.global.refill_rate,
    };
    if !g_ok {
        &&& !ok
        &&& post.global == g_after
        &&& RateLimiterView::others_unchanged(pre, post, RateLimitedMessageType::Global)
        &&& post.blocked_count == pre.blocked_count + 1
    } else if t == RateLimitedMessageType::Global {
        &&& ok
        &&& post.global == g_after
        &&& RateLimiterView::others_unchanged(pre, post, t)
        &&& post.blocked_count == pre.blocked_count
    } else {
        let t_ok = refilled(pre.bucket(t), et) >= 1;
        &&& ok == t_ok
        &&& consume_step(pre.bucket(t), post.bucket(t), et, 1, t_ok)
        &&& RateLimiterView::others_unchanged(pre, post, t)
        &&& post.global == if t_ok { g_after } else { refund(g_after) }
        &&& post.blocked_count == if t_ok { pre.blocked_count as int } else { pre.blocked_count + 1 }
    }
}

/// Per-connection rate limiter with global and per-type buckets
#[derive(Debug)]
pub struct RateLimiter {
    global: TokenBucket,
    mod_channel: TokenBucket,
    block_edit: TokenBucket,
    chat: TokenBucket,
    attack: TokenBucket,
    blocked_count: u64,
}

impl View for RateLimiter {
    type V = RateLimiterView;

    closed spec fn view(&self) -> RateLimiterView {
        RateLimiterView {
            global: self.global@,
            mod_channel: self.mod_channel@,
            block_edit: self.block_edit@,
            chat: self.chat@,
            attack: self.attack@,
            blocked_count: self.blocked_count,
        }
    }
}

/// The buckets of a limiter built with the default configuration: the given
/// global bucket, the mod channel, block edit (20 burst, 10/sec), chat
/// (10 burst, 2/sec) and attack buckets, all full, with nothing blocked.
pub open spec fn fresh_limiter(v: RateLimiterView, global_capacity: u32, global_refill: u32) -> bool {
    &&& v.global == TokenBucketView { capacity: global_capacity, tokens: global_capacity, refill_rate: global_refill }
    &&& v.mod_channel == TokenBucketView {
        capacity: MOD_CHANNEL_TOKENS,
        tokens: MOD_CHANNEL_TOKENS,
        refill_rate: MOD_CHANNEL_REFILL_PER_SEC,
    }
    &&& v.block_edit == TokenBucketView { capacity: 20, tokens: 20, refill_rate: 10 }
    &&& v.chat == TokenBucketView { capacity: 10, tokens: 10, refill_rate: 2 }
    &&& v.attack == TokenBucketView {
        capacity: EXPENSIVE_MSG_PER_SEC,
        tokens: EXPENSIVE_MSG_PER_SEC,
        refill_rate: EXPENSIVE_MSG_PER_SEC,
    }
    &&& v.blocked_count == 0
}

impl RateLimiter {
    /// Every bucket holds at most its capacity.
    pub open spec fn wf(&self) -> bool {
        &&& self@.global.tokens <= self@.global.capacity
        &&& self@.mod_channel.tokens <= self@.mod_channel.capacity
        &&& self@.block_edit.tokens <= self@.block_edit.capacity
        &&& self@.chat.tokens <= self@.chat.capacity
        &&& self@.attack.tokens <= self@.attack.capacity
    }

    /// Create a new rate limiter with default configuration
    pub fn new() -> (l: RateLimiter)
        ensures
            l.wf(),
            fresh_limiter(l@, GLOBAL_MSG_PER_SEC, GLOBAL_MSG_PER_SEC),
    {
        RateLimiter {
            global: TokenBucket::new(GLOBAL_MSG_PER_SEC, GLOBAL_MSG_PER_SEC),
            mod_channel: TokenBucket::new(MOD_CHANNEL_TOKENS, MOD_CHANNEL_REFILL_PER_SEC),
            block_edit: TokenBucket::new(20, 10),
            chat: TokenBucket::new(10, 2),
            attack: TokenBucket::new(EXPENSIVE_MSG_PER_SEC, EXPENSIVE_MSG_PER_SEC),
            blocked_count: 0,
        }
    }

    /// Create with custom configuration
    pub fn with_config(config: RateLimiterConfig) -> (l: RateLimiter)
        ensures
            l.wf(),
            fresh_limiter(l@, config.global_capacity, config.global_refill),
    {
        let mut limiter = Self::new();
        limiter.global = TokenBucket::new(config.global_capacity, config.global_refill);
        limiter
    }

    /// Check one message against the buckets, with the elapsed times given.
    ///
    /// `global_elapsed_ns` and `type_elapsed_ns` are the nanoseconds since the
    /// last refill of the global bucket and of the message type's bucket.
    pub fn try_consume_after(
        &mut self,
        msg_type: RateLimitedMessageType,
        global_elapsed_ns: u64,
        type_elapsed_ns: u64,
    ) -> (ok: bool)
        requires
            old(self).wf(),
            old(self)@.blocked_count < u64::MAX,
        ensures
            final(self).wf(),
            limiter_step(old(self)@, final(self)@, msg_type, global_elapsed_ns, type_elapsed_ns, ok),
    {
        if !self.global.try_consume_n_after(1, global_elapsed_ns) {
            self.blocked_count = self.blocked_count + 1;
            return false;
        }
        let type_ok = match msg_type {
            RateLimitedMessageType::Global => true,
            RateLimitedMessageType::ModChannel => self.mod_channel.try_consume_n_after(1, type_elapsed_ns),
            RateLimitedMessageType::BlockEdit => self.block_edit.try_consume_n_after(1, type_elapsed_ns),
            RateLimitedMessageType::Chat => self.chat.try_consume_n_after(1, type_elapsed_ns),
            RateLimitedMessageType::Attack => self.attack.try_consume_n_after(1, type_elapsed_ns),
        };
        if !type_ok {
            // Refund global token since per-type failed
            self.global.refund_one();
            self.blocked_count = self.blocked_count + 1;
            return false;
        }
        true
    }

    /// Milliseconds since the last refill of the bucket of `msg_type`.
    fn elapsed_for(&self, msg_type: RateLimitedMessageType) -> u64 {
        match msg_type {
            RateLimitedMessageType::Global => elapsed_since(&self.global.last_refill),
            RateLimitedMessageType::ModChannel => elapsed_since(&self.mod_channel.last_refill),
            RateLimitedMessageType::BlockEdit => elapsed_since(&self.block_edit.last_refill),
            RateLimitedMessageType::Chat => elapsed_since(&self.chat.last_refill),
            RateLimitedMessageType::Attack => elapsed_since(&self.attack.last_refill),
        }
    }

    /// Attempt to consume a token for the given message type.
    ///
    /// Checks both global and per-type limits.
    /// Returns `true` if allowed, `false` if rate limited.
    pub fn try_consume(&mut self, msg_type: RateLimitedMessageType) -> (ok: bool)
        requires
            old(self).wf(),
            old(self)@.blocked_count < u64::MAX,
        ensures
            final(self).wf(),
            exists|eg: u64, et: u64| limiter_step(old(self)@, final(self)@, msg_type, eg, et, ok),
            limiter_event_step(old(self)@, final(self)@, LimiterEvent::Consume { allowed: ok }),
    {
        let eg = elapsed_since(&self.global.last_refill);
        let et = self.elapsed_for(msg_type);
        let ghost pre = self@;
        let ok = self.try_consume_after(msg_type, eg, et);
        assert(limiter_step(pre, self@, msg_type, eg, et, ok));
        let ghost ev = LimiterEvent::Consume { allowed: ok };
        assert(ev matches LimiterEvent::Consume { allowed } && allowed == ok);
        assert(limiter_event_step(pre, self@, ev));
        ok
    }

    /// Whether a message of `msg_type` would be allowed, with the elapsed times given.
    pub fn would_allow_after(
        &self,
        msg_type: RateLimitedMessageType,
        global_elapsed_ns: u64,
        type_elapsed_ns: u64,
    ) -> (b: bool)
        requires
            self.wf(),
        ensures
            b == allows(self@, msg_type, global_elapsed_ns, type_elapsed_ns),
    {
        if !self.global.would_allow_n_after(1, global_elapsed_ns) {
            return false;
        }
        match msg_type {
            RateLimitedMessageType::Global => true,
            RateLimitedMessageType::ModChannel => self.mod_channel.would_allow_n_after(1, type_elapsed_ns),
            RateLimitedMessageType::BlockEdit => self.block_edit.would_allow_n_after(1, type_elapsed_ns),
            RateLimitedMessageType::Chat => self.chat.would_allow_n_after(1, type_elapsed_ns),
            RateLimitedMessageType::Attack => self.attack.would_allow_n_after(1, type_elapsed_ns),
        }
    }

    /// Check if a message would be allowed without consuming tokens.
    pub fn would_allow(&self, msg_type: RateLimitedMessageType) -> (b: bool)
        requires
            self.wf(),
        ensures
            exists|eg: u64, et: u64| b == #[trigger] allows(self@, msg_type, eg, et),
    {
        let eg = elapsed_since(&self.global.last_refill);
        let et = self.elapsed_for(msg_type);
        let b = self.would_allow_after(msg_type, eg, et);
        assert(b == allows(self@, msg_type, eg, et));
        b
    }

    /// Get current token count for a bucket (after refilling it)
    pub fn tokens(&mut self, msg_type: RateLimitedMessageType) -> (t: u32)
        requires
            old(self).wf(),
        ensures
            final(self).wf(),
            final(self)@.blocked_count == old(self)@.blocked_count,
            limiter_event_step(old(self)@, final(self)@, LimiterEvent::Observe),
            exists|e: u64| refill_step(old(self)@.bucket(msg_type), final(self)@.bucket(msg_type), e),
            msg_type != RateLimitedMessageType::Global ==> final(self)@.global == old(self)@.global,
            RateLimiterView::others_unchanged(old(self)@, final(self)@, msg_type),
            t == final(self)@.bucket(msg_type).tokens,
    {
        let e = self.elapsed_for(msg_type);
        match msg_type {
            RateLimitedMessageType::Global => self.global.refill_after(e),
            RateLimitedMessageType::ModChannel => self.mod_channel.refill_after(e),
            RateLimitedMessageType::BlockEdit => self.block_edit.refill_after(e),
            RateLimitedMessageType::Chat => self.chat.refill_after(e),
            RateLimitedMessageType::Attack => self.attack.refill_after(e),
        }
        assert(refill_step(old(self)@.bucket(msg_type), self@.bucket(msg_type), e));
        match msg_type {
            RateLimitedMessageType::Global => self.global.tokens,
            RateLimitedMessageType::ModChannel => self.mod_channel.tokens,
            RateLimitedMessageType::BlockEdit => self.block_edit.tokens,
            RateLimitedMessageType::Chat => self.chat.tokens,
            RateLimitedMessageType::Attack => self.attack.tokens,
        }
    }

    /// Get total blocked message count
    pub fn blocked_count(&self) -> (n: u64)
        ensures
            n == self@.blocked_count,
    {
        self.blocked_count
    }

    /// Reset all buckets to full capacity
    pub fn reset(&mut self)
        ensures
            final(self).wf(),
            final(self)@.blocked_count == 0,
            limiter_event_step(old(self)@, final(self)@, LimiterEvent::Reset),
            final(self)@.global == (TokenBucketView { tokens: old(self)@.global.capacity, ..old(self)@.global }),
            final(self)@.mod_channel == (TokenBucketView { tokens: old(self)@.mod_channel.capacity, ..old(self)@.mod_channel }),
            final(self)@.block_edit == (TokenBucketView { tokens: old(self)@.block_edit.capacity, ..old(self)@.block_edit }),
            final(self)@.chat == (TokenBucketView { tokens: old(self)@.chat.capacity, ..old(self)@.chat }),
            final(self)@.attack == (TokenBucketView { tokens: old(self)@.attack.capacity, ..old(self)@.attack }),
    {
        self.global.reset();
        self.mod_channel.reset();
        self.block_edit.reset();
        self.chat.reset();
        self.attack.reset();
        self.blocked_count = 0;
    }
}

/// Configuration for rate limiter
#[derive(Debug, Clone, Copy)]
pub struct RateLimiterConfig {
    pub global_capacity: u32,
    pub global_refill: u32,
}

impl RateLimiterConfig {
    /// The default configuration: the global limit for both capacity and refill.
    pub fn default_config() -> (c: RateLimiterConfig)
        ensures
            c.global_capacity == GLOBAL_MSG_PER_SEC,
            c.global_refill == GLOBAL_MSG_PER_SEC,
    {
        RateLimiterConfig { global_capacity: GLOBAL_MSG_PER_SEC, global_refill: GLOBAL_MSG_PER_SEC }
    }
}

impl Default for RateLimiterConfig {
    fn default() -> (c: RateLimiterConfig)
        ensures
            c.global_capacity == GLOBAL_MSG_PER_SEC,
            c.global_refill == GLOBAL_MSG_PER_SEC,
    {
        Self::default_config()
    }
}

impl Default for RateLimiter {
    fn default() -> (l: RateLimiter)
        ensures
            l.wf(),
            fresh_limiter(l@, GLOBAL_MSG_PER_SEC, GLOBAL_MSG_PER_SEC),
    {
        Self::new()
    }
}

} // verus!

verus! {

/// A bucket never holds more than its capacity, and a refused request takes
/// nothing: the bucket only refills.
pub proof fn law_bucket_bounded(pre: TokenBucketView, post: TokenBucketView, elapsed_ns: u64, n: u32, ok: bool)
    requires
        pre.tokens <= pre.capacity,
        consume_step(pre, post, elapsed_ns, n, ok),
    ensures
        post.tokens <= post.capacity,
        !ok ==> post.tokens == refilled(pre, elapsed_ns),
        ok ==> post.tokens + n == refilled(pre, elapsed_ns),
        refilled(pre, elapsed_ns) >= pre.tokens,
{
}

/// The limiter counts exactly the refused messages, and a message refused by
/// its own bucket costs no global token.
pub proof fn law_limiter_counts_refusals(
    pre: RateLimiterView,
    post: RateLimiterView,
    t: RateLimitedMessageType,
    eg: u64,
    et: u64,
    ok: bool,
)
    requires
        pre.global.tokens <= pre.global.capacity,
        limiter_step(pre, post, t, eg, et, ok),
    ensures
        post.blocked_count == pre.blocked_count + if ok { 0int } else { 1int },
        ok == allows(pre, t, eg, et),
        !ok && refilled(pre.global, eg) >= 1 ==> post.global.tokens == refilled(pre.global, eg),
{
}

/// The number of refusals among the outcomes `oks`.
pub open spec fn refusals(oks: Seq<bool>) -> nat
    decreases oks.len(),
{
    if oks.len() == 0 {
        0
    } else {
        refusals(oks.drop_last()) + if oks.last() { 0nat } else { 1nat }
    }
}

/// Over any run of consumes, the blocked count grows by exactly the number of
/// refused messages: a limiter that starts (or is reset) at zero counts the
/// refusals since then.
pub proof fn law_blocked_count_counts_refusals(
    states: Seq<RateLimiterView>,
    types: Seq<RateLimitedMessageType>,
    global_elapsed: Seq<u64>,
    type_elapsed: Seq<u64>,
    oks: Seq<bool>,
)
    requires
        states.len() == oks.len() + 1,
        types.len() == oks.len(),
        global_elapsed.len() == oks.len(),
        type_elapsed.len() == oks.len(),
        forall|i: int|
            0 <= i < oks.len() ==> #[trigger] limiter_step(
                states[i],
                states[i + 1],
                types[i],
                global_elapsed[i],
                type_elapsed[i],
                oks[i],
            ),
    ensures
        states.last().blocked_count == states[0].blocked_count + refusals(oks),
    decreases oks.len(),
{
    if oks.len() > 0 {
        let n = oks.len() - 1;
        assert(limiter_step(states[n], states[n + 1], types[n], global_elapsed[n], type_elapsed[n], oks[n]));
        law_blocked_count_counts_refusals(
            states.drop_last(),
            types.drop_last(),
            global_elapsed.drop_last(),
            type_elapsed.drop_last(),
            oks.drop_last(),
        );
    }
}

/// One call on a limiter as seen from outside: a consume with its outcome, an
/// observation (`would_allow`, `tokens`, `blocked_count`), or a reset.
pub enum LimiterEvent {
    Consume { allowed: bool },
    Observe,
    Reset,
}

/// `post` follows `pre` by the call `event`, as the limiter's methods state it.
pub open spec fn limiter_event_step(pre: RateLimiterView, post: RateLimiterView, event: LimiterEvent) -> bool {
    match event {
        LimiterEvent::Consume { allowed } => exists|t: RateLimitedMessageType, eg: u64, et: u64|
            #[trigger] limiter_step(pre, post, t, eg, et, allowed),
        LimiterEvent::Observe => post.blocked_count == pre.blocked_count,
        LimiterEvent::Reset => post.blocked_count == 0,
    }
}

/// The blocked count after `events`, starting from `start`: the refusals
/// since the latest reset, on top of `start` when there was none.
pub open spec fn blocked_after(start: nat, events: Seq<LimiterEvent>) -> nat
    decreases events.len(),
{
    if events.len() == 0 {
        start
    } else {
        match events.last() {
            LimiterEvent::Consume { allowed } => blocked_after(start, events.drop_last())
                + if allowed { 0nat } else { 1nat },
            LimiterEvent::Observe => blocked_after(start, events.drop_last()),
            LimiterEvent::Reset => 0,
        }
    }
}

/// Over any run of consumes, observations and resets, the blocked count is
/// the number of refused consumes since the latest reset (on top of the count
/// the run started from, when there was no reset); a limiter starts at zero.
pub proof fn law_blocked_count_since_reset(states: Seq<RateLimiterView>, events: Seq<LimiterEvent>)
    requires
        states.len() == events.len() + 1,
        forall|i: int| 0 <= i < events.len() ==> #[trigger] limiter_event_step(states[i], states[i + 1], events[i]),
    ensures
        states.last().blocked_count == blocked_after(states[0].blocked_count as nat, events),
    decreases events.len(),
{
    if events.len() > 0 {
        let n = events.len() - 1;
        assert(limiter_event_step(states[n], states[n + 1], events[n]));
        law_blocked_count_since_reset(states.drop_last(), events.drop_last());
        assert(states.drop_last().last() == states[n]);
    }
}

/// A bucket that has waited at least one refill period (1/rate seconds, that
/// is `elapsed_ns * rate >= 1_000_000_000`) since its last refill holds a token,
/// however empty it was; waiting longer never yields fewer tokens, and never
/// more than the capacity.
pub proof fn law_refill_after_one_period(b: TokenBucketView, e1: u64, e2: u64)
    requires
        b.tokens <= b.capacity,
        b.capacity >= 1,
        (e1 as int) * (b.refill_rate as int) >= 1_000_000_000,
        e1 <= e2,
    ensures
        refilled(b, e1) >= 1,
        refilled(b, e2) >= refilled(b, e1),
        refilled(b, e2) <= b.capacity,
        refilled(b, e1) >= b.tokens,
{
    let r = b.refill_rate as int;
    assert((e1 as int) * r <= (e2 as int) * r) by (nonlinear_arith)
        requires e1 <= e2, r >= 0;
    vstd::arithmetic::div_mod::lemma_div_is_ordered(1_000_000_000, (e1 as int) * r, 1_000_000_000);
    vstd::arithmetic::div_mod::lemma_div_is_ordered((e1 as int) * r, (e2 as int) * r, 1_000_000_000);
    assert(refill_amount(e1, b.refill_rate) >= 1);
    assert(refill_amount(e2, b.refill_rate) >= refill_amount(e1, b.refill_rate));
}

/// A global message is allowed once the global bucket has waited one refill
/// period since its last refill, whatever it held before: a limiter emptied by
/// a burst recovers with time. Before a whole token has been earned, an
/// emptied global bucket refuses every message.
pub proof fn law_global_recovers_after_one_period(v: RateLimiterView, eg: u64, et: u64)
    requires
        v.global.tokens <= v.global.capacity,
        v.global.capacity >= 1,
    ensures
        (eg as int) * (v.global.refill_rate as int) >= 1_000_000_000 ==> allows(
            v,
            RateLimitedMessageType::Global,
            eg,
            et,
        ),
        v.global.tokens == 0 && (eg as int) * (v.global.refill_rate as int) < 1_000_000_000
            ==> forall|t: RateLimitedMessageType| !#[trigger] allows(v, t, eg, et),
{
    if (eg as int) * (v.global.refill_rate as int) >= 1_000_000_000 {
        law_refill_after_one_period(v.global, eg, eg);
    }
    if (eg as int) * (v.global.refill_rate as int) < 1_000_000_000 {
        assert(((eg as int) * (v.global.refill_rate as int)) / 1_000_000_000 == 0);
    }
}

} // verus!
