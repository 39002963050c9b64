//! Allocation reuse: a buffer that is cleared instead of reallocated, and a
//! bounded pool of buffers.

use vstd::prelude::*;

verus! {

/// Calls `Vec::with_capacity` for a byte buffer. Nothing is claimed beyond
/// what vstd states of it (the vector is empty): the capacity granted is the
/// allocator's choice.
fn byte_buffer_with_capacity(capacity: usize) -> (v: Vec<u8>)
    ensures
        v@ == Seq::<u8>::empty(),
{
    Vec::with_capacity(capacity)
}

/// Calls `Vec::with_capacity` for a byte buffer and reads the capacity granted
/// with `Vec::capacity`. The standard library documents that the vector is empty
/// and can hold at least `capacity` bytes without reallocating; how much more the
/// allocator gave is not stated.
#[verifier::external_body]
fn allocate_bytes(capacity: usize) -> (r: (Vec<u8>, usize))
    ensures
        r.0@ == Seq::<u8>::empty(),
        r.1 >= capacity,
{
    let buffer: Vec<u8> = Vec::with_capacity(capacity);
    let granted = buffer.capacity();
    (buffer, granted)
}

/// Reusable buffer for reducing allocations
///
/// A simple wrapper around Vec<u8> that clears instead of reallocating.
pub struct ReusableBuffer {
    buffer: Vec<u8>,
    /// The capacity of `buffer`, as last read; forgotten while the vector is
    /// handed out, since its holder may reallocate it.
    allocated: Ghost<Option<nat>>,
    /// Peak usage for monitoring
    peak_size: usize,
}

/// The observable state of a [`ReusableBuffer`].
pub struct ReusableBufferView {
    pub contents: Seq<u8>,
    pub peak_size: usize,
    /// The vector's capacity, where the buffer knows it.
    pub capacity: Option<nat>,
}

impl View for ReusableBuffer {
    type V = ReusableBufferView;

    closed spec fn view(&self) -> ReusableBufferView {
        ReusableBufferView {
            contents: self.buffer@,
            peak_size: self.peak_size,
            capacity: self.allocated@,
        }
    }
}

impl ReusableBuffer {
    /// Create a new reusable buffer with initial capacity
    pub fn new(initial_capacity: usize) -> (b: ReusableBuffer)
        ensures
            b@.contents == Seq::<u8>::empty(),
            b@.peak_size == 0,
            b@.capacity matches Some(k) && k >= initial_capacity,
    {
        let (buffer, granted) = allocate_bytes(initial_capacity);
        ReusableBuffer { buffer, allocated: Ghost(Some(granted as nat)), peak_size: 0 }
    }

    /// Create with default capacity (4KB)
    pub fn with_default_capacity() -> (b: ReusableBuffer)
        ensures
            b@.contents == Seq::<u8>::empty(),
            b@.peak_size == 0,
            b@.capacity matches Some(k) && k >= 4096,
    {
        Self::new(4096)
    }

    /// Clear the buffer for reuse (no reallocation): the capacity is kept, and
    /// known again if the vector had been handed out.
    pub fn clear(&mut self)
        ensures
            final(self)@.contents == Seq::<u8>::empty(),
            final(self)@.peak_size == old(self)@.peak_size,
            final(self)@.capacity is Some,
            old(self)@.capacity is Some ==> final(self)@.capacity == old(self)@.capacity,
    {
        self.buffer.clear();
        let kept = self.read_capacity();
        self.allocated = Ghost(Some(kept as nat));
    }

    /// Get mutable access to the underlying buffer; what the caller leaves in
    /// it becomes the buffer's contents. Its holder may reallocate it, so the
    /// capacity is no longer known.
    pub fn as_mut_vec(&mut self) -> (v: &mut Vec<u8>)
        ensures
            v@ == old(self)@.contents,
            final(self)@.contents == final(v)@,
            final(self)@.peak_size == old(self)@.peak_size,
            final(self)@.capacity is None,
    {
        self.allocated = Ghost(None);
        &mut self.buffer
    }

    /// Get the buffer contents as a slice
    pub fn as_slice(&self) -> (s: &[u8])
        ensures
            s@ == self@.contents,
    {
        self.buffer.as_slice()
    }

    /// Get current length
    pub fn len(&self) -> (n: usize)
        ensures
            n == self@.contents.len(),
    {
        self.buffer.len()
    }

    /// Check if empty
    pub fn is_empty(&self) -> (b: bool)
        ensures
            b == (self@.contents.len() == 0),
    {
        self.buffer.len() == 0
    }

    /// Calls `Vec::capacity` on the buffer's vector. The standard library
    /// documents that the capacity is never below the length and that
    /// `Vec::clear` leaves it unchanged; the capacity recorded is the one last
    /// read, and the vector is not reallocated while the buffer holds it, so the
    /// two agree wherever the buffer knows its capacity.
    #[verifier::external_body]
    fn read_capacity(&self) -> (c: usize)
        ensures
            c >= self@.contents.len(),
            self@.capacity matches Some(k) ==> c == k,
    {
        self.buffer.capacity()
    }

    /// Get capacity: never less than the length, and the known capacity where
    /// the buffer knows it.
    pub fn capacity(&self) -> (c: usize)
        ensures
            c >= self@.contents.len(),
            self@.capacity matches Some(k) ==> c == k,
    {
        self.read_capacity()
    }

    /// Update peak tracking after use
    pub fn update_peak(&mut self)
        ensures
            final(self)@.contents == old(self)@.contents,
            final(self)@.capacity == old(self)@.capacity,
            final(self)@.peak_size == if old(self)@.contents.len() > old(self)@.peak_size {
                old(self)@.contents.len() as usize
            } else {
                old(self)@.peak_size
            },
    {
        if self.buffer.len() > self.peak_size {
            self.peak_size = self.buffer.len();
        }
    }

    /// Get peak usage
    pub fn peak_size(&self) -> (n: usize)
        ensures
            n == self@.peak_size,
    {
        self.peak_size
    }
}

impl Default for ReusableBuffer {
    fn default() -> (b: ReusableBuffer)
        ensures
            b@.contents == Seq::<u8>::empty(),
            b@.peak_size == 0,
            b@.capacity matches Some(k) && k >= 4096,
    {
        Self::with_default_capacity()
    }
}

/// Buffer pool statistics
#[derive(Debug, Clone, Copy)]
pub struct BufferPoolStats {
    /// Buffers currently available
    pub available: usize,
    /// Buffers currently checked out
    pub checked_out: usize,
    /// Peak buffers in use
    pub peak_in_use: usize,
    /// Maximum pool size
    pub max_size: usize,
}

/// The observable state of a [`BufferPool`].
pub struct BufferPoolView {
    pub available: nat,
    pub max_size: usize,
    pub default_capacity: usize,
    pub checked_out: usize,
    pub peak_in_use: usize,
}

/// Buffer pool for mesh data
///
/// Pre-allocates buffers and reuses them to reduce allocation pressure.
#[derive(Debug)]
pub struct BufferPool {
    /// Available buffers
    available: Vec<Vec<u8>>,
    /// Maximum pool size
    max_size: usize,
    /// Default buffer capacity
    default_capacity: usize,
    /// Buffers checked out
    checked_out: usize,
    /// Peak buffers in use
    peak_in_use: usize,
}

impl View for BufferPool {
    type V = BufferPoolView;

    closed spec fn view(&self) -> BufferPoolView {
        BufferPoolView {
            available: self.available@.len(),
            max_size: self.max_size,
            default_capacity: self.default_capacity,
            checked_out: self.checked_out,
            peak_in_use: self.peak_in_use,
        }
    }
}

impl BufferPool {
    /// The pool never holds more than its maximum, the peak is never below the
    /// number of buffers out, and every pooled buffer is empty.
    pub closed spec fn wf(&self) -> bool {
        &&& self.available@.len() <= self.max_size
        &&& self.checked_out <= self.peak_in_use
        &&& forall|i: int| 0 <= i < self.available@.len() ==> #[trigger] self.available@[i]@.len() == 0
    }

    /// What a well-formed pool guarantees: it never holds more than its
    /// maximum, and the peak is never below the number of buffers out.
    pub proof fn lemma_bounds(&self)
        requires
            self.wf(),
        ensures
            self@.available <= self@.max_size,
            self@.checked_out <= self@.peak_in_use,
    {
    }

    /// Create a new buffer pool
    pub fn new(max_size: usize, default_capacity: usize) -> (p: BufferPool)
        ensures
            p.wf(),
            p@ == (BufferPoolView {
                available: 0,
                max_size,
                default_capacity,
                checked_out: 0,
                peak_in_use: 0,
            }),
    {
        BufferPool {
            available: Vec::with_capacity(max_size),
            max_size,
            default_capacity,
            checked_out: 0,
            peak_in_use: 0,
        }
    }

    /// Create with default settings (16 buffers, 8KB each)
    pub fn with_defaults() -> (p: BufferPool)
        ensures
            p.wf(),
            p@ == (BufferPoolView {
                available: 0,
                max_size: 16,
                default_capacity: 8192,
                checked_out: 0,
                peak_in_use: 0,
            }),
    {
        Self::new(16, 8192)
    }

    /// Get a buffer from the pool (or create new if empty); the buffer is empty.
    pub fn checkout(&mut self) -> (buf: Vec<u8>)
        requires
            old(self).wf(),
            old(self)@.checked_out < usize::MAX,
        ensures
            final(self).wf(),
            buf@.len() == 0,
            final(self)@ == checkout_model(old(self)@),
            pool_event_step(old(self)@, final(self)@, PoolEvent::Checkout),
    {
        self.checked_out = self.checked_out + 1;
        if self.checked_out > self.peak_in_use {
            self.peak_in_use = self.checked_out;
        }
        match self.available.pop() {
            Some(mut buf) => {
                buf.clear();
                buf
            },
            None => byte_buffer_with_capacity(self.default_capacity),
        }
    }

    /// Return a buffer to the pool; it is kept, emptied, only while the pool
    /// has room, and dropped otherwise.
    pub fn checkin(&mut self, buffer: Vec<u8>)
        requires
            old(self).wf(),
        ensures
            final(self).wf(),
            final(self)@ == checkin_model(old(self)@),
            pool_event_step(old(self)@, final(self)@, PoolEvent::Checkin),
    {
        let mut buffer = buffer;
        self.checked_out = self.checked_out.saturating_sub(1);
        if self.available.len() < self.max_size {
            buffer.clear();
            self.available.push(buffer);
        }
    }

    /// Get pool statistics
    pub fn stats(&self) -> (s: BufferPoolStats)
        requires
            self.wf(),
        ensures
            s.available == self@.available,
            s.checked_out == self@.checked_out,
            s.peak_in_use == self@.peak_in_use,
            s.max_size == self@.max_size,
            s.available <= s.max_size,
            s.checked_out <= s.peak_in_use,
    {
        BufferPoolStats {
            available: self.available.len(),
            checked_out: self.checked_out,
            peak_in_use: self.peak_in_use,
            max_size: self.max_size,
        }
    }

    /// Pre-warm the pool with up to `count` new buffers, never past the maximum.
    pub fn prewarm(&mut self, count: usize)
        requires
            old(self).wf(),
        ensures
            final(self).wf(),
            final(self)@ == prewarm_model(old(self)@, count),
            pool_event_step(old(self)@, final(self)@, PoolEvent::Prewarm { count }),
    {
        let room = self.max_size - self.available.len();
        let count = if count < room {
            count
        } else {
            room
        };
        let mut i: usize = 0;
        let ghost start = self.available@.len();
        while i < count
            invariant
                self.wf(),
                i <= count,
                count <= self.max_size - start,
                self.available@.len() == start + i,
                self.max_size == old(self).max_size,
                self.default_capacity == old(self).default_capacity,
                self.checked_out == old(self).checked_out,
                self.peak_in_use == old(self).peak_in_use,
            decreases count - i,
        {
            let buf = byte_buffer_with_capacity(self.default_capacity);
            self.available.push(buf);
            i = i + 1;
        }
    }
}

/// The pool after a checkout: a pooled buffer is taken if there is one, and
/// one more buffer is out.
pub open spec fn checkout_model(p: BufferPoolView) -> BufferPoolView {
    BufferPoolView {
        available: if p.available > 0 { (p.available - 1) as nat } else { 0 },
        checked_out: (p.checked_out + 1) as usize,
        peak_in_use: if p.checked_out + 1 > p.peak_in_use {
            (p.checked_out + 1) as usize
        } else {
            p.peak_in_use
        },
        ..p
    }
}

/// The pool after a checkin: the buffer is pooled while there is room, and
/// one fewer buffer is out.
pub open spec fn checkin_model(p: BufferPoolView) -> BufferPoolView {
    BufferPoolView {
        available: if p.available < p.max_size { p.available + 1 } else { p.available },
        checked_out: if p.checked_out > 0 { (p.checked_out - 1) as usize } else { 0 },
        ..p
    }
}

/// The pool after pre-warming with `count` buffers, capped at the maximum.
pub open spec fn prewarm_model(p: BufferPoolView, count: usize) -> BufferPoolView {
    BufferPoolView {
        available: if p.available + count > p.max_size { p.max_size as nat } else { (p.available + count) as nat },
        ..p
    }
}

/// A buffer checked out and straight back in leaves the same number of
/// buffers out and the same number pooled (one, if the pool was empty and has
/// room), and the peak covers the buffer that was out.
pub proof fn law_checkout_checkin_restores(p: BufferPoolView)
    requires
        p.checked_out < usize::MAX,
        p.available <= p.max_size,
    ensures
        checkin_model(checkout_model(p)).checked_out == p.checked_out,
        p.available > 0 ==> checkin_model(checkout_model(p)).available == p.available,
        p.available == 0 && p.max_size > 0 ==> checkin_model(checkout_model(p)).available == 1,
        checkin_model(checkout_model(p)).peak_in_use >= p.checked_out + 1,
{
}

/// Neither checkins nor pre-warming ever fill the pool beyond its maximum.
pub proof fn law_pool_bounded(p: BufferPoolView, count: usize)
    requires
        p.available <= p.max_size,
    ensures
        checkin_model(p).available <= p.max_size,
        prewarm_model(p, count).available <= p.max_size,
        checkout_model(p).available <= p.max_size,
{
}

/// One call on a pool, as [`BufferPool`]'s methods state it.
pub enum PoolEvent {
    Checkout,
    Checkin,
    Prewarm { count: usize },
}

/// `post` follows `pre` by the call `event` (a checkout only while the count
/// of buffers out can still grow).
pub open spec fn pool_event_step(pre: BufferPoolView, post: BufferPoolView, event: PoolEvent) -> bool {
    match event {
        PoolEvent::Checkout => pre.checked_out < usize::MAX && post == checkout_model(pre),
        PoolEvent::Checkin => post == checkin_model(pre),
        PoolEvent::Prewarm { count } => post == prewarm_model(pre, count),
    }
}

proof fn lemma_pool_run(states: Seq<BufferPoolView>, events: Seq<PoolEvent>, k: int)
    requires
        states.len() == events.len() + 1,
        states[0].available <= states[0].max_size,
        states[0].checked_out <= states[0].peak_in_use,
        forall|i: int| 0 <= i < events.len() ==> pool_event_step(#[trigger] states[i], states[i + 1], events[i]),
        0 <= k < states.len(),
    ensures
        states[k].available <= states[k].max_size,
        states[k].max_size == states[0].max_size,
        states[k].checked_out <= states[k].peak_in_use,
    decreases k,
{
    if k > 0 {
        lemma_pool_run(states, events, k - 1);
        assert(pool_event_step(states[k - 1], states[k], events[k - 1]));
    }
}

/// Over any run of checkouts, checkins and pre-warming from a pool whose
/// statistics are consistent (a new pool's are), the pool never holds more
/// than its maximum, the maximum never changes, and the peak is never below
/// the number of buffers out.
pub proof fn law_pool_run_bounds(states: Seq<BufferPoolView>, events: Seq<PoolEvent>)
    requires
        states.len() == events.len() + 1,
        states[0].available <= states[0].max_size,
        states[0].checked_out <= states[0].peak_in_use,
        forall|i: int| 0 <= i < events.len() ==> pool_event_step(#[trigger] states[i], states[i + 1], events[i]),
    ensures
        forall|k: int| 0 <= k < states.len() ==> {
            &&& (#[trigger] states[k]).available <= states[k].max_size
            &&& states[k].max_size == states[0].max_size
            &&& states[k].checked_out <= states[k].peak_in_use
        },
{
    assert forall|k: int| 0 <= k < states.len() implies {
        &&& (#[trigger] states[k]).available <= states[k].max_size
        &&& states[k].max_size == states[0].max_size
        &&& states[k].checked_out <= states[k].peak_in_use
    } by {
        lemma_pool_run(states, events, k);
    }
}

} // verus!
