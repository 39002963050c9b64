//! Game event buffering for replication.
//!
//! The buffer keeps the most recent `MAX_EVENTS` events with the tick they
//! happened at, oldest first.

use vstd::prelude::*;

use crate::protocol::Tick;

verus! {

/// Maximum events to buffer
pub const MAX_EVENTS: usize = 256;

/// Whether tick `a` comes after tick `b`.
pub open spec fn newer(a: Tick, b: Tick) -> bool {
    a.0 > b.0
}

/// Event with tick info
#[derive(Debug, Clone)]
pub struct TimedEvent<E> {
    pub tick: Tick,
    pub event: E,
}

/// Buffer for game events pending replication
#[derive(Debug)]
pub struct EventBuffer<E> {
    events: Vec<TimedEvent<E>>,
}

/// The buffered events, oldest first, with their ticks.
pub open spec fn timed<E>(v: Seq<TimedEvent<E>>) -> Seq<(Tick, E)> {
    v.map_values(|e: TimedEvent<E>| (e.tick, e.event))
}

/// The events behind a list of references.
pub open spec fn deref_all<E>(v: Seq<&E>) -> Seq<E> {
    v.map_values(|r: &E| *r)
}

/// The events buffered after `tick`, oldest first.
pub open spec fn since<E>(s: Seq<(Tick, E)>, tick: Tick) -> Seq<E>
    decreases s.len(),
{
    if s.len() == 0 {
        Seq::empty()
    } else if newer(s.last().0, tick) {
        since(s.drop_last(), tick).push(s.last().1)
    } else {
        since(s.drop_last(), tick)
    }
}

/// The number of leading events older than `tick`.
pub open spec fn older_prefix<E>(s: Seq<(Tick, E)>, tick: Tick) -> nat
    decreases s.len(),
{
    if s.len() == 0 {
        0
    } else if newer(tick, s[0].0) {
        1 + older_prefix(s.drop_first(), tick)
    } else {
        0
    }
}

/// The buffer after an event is pushed: appended, the oldest dropped first
/// when the buffer is full.
pub open spec fn pushed<E>(s: Seq<(Tick, E)>, tick: Tick, event: E) -> Seq<(Tick, E)> {
    if s.len() >= MAX_EVENTS {
        s.drop_first().push((tick, event))
    } else {
        s.push((tick, event))
    }
}

impl<E> View for EventBuffer<E> {
    type V = Seq<(Tick, E)>;

    closed spec fn view(&self) -> Seq<(Tick, E)> {
        timed(self.events@)
    }
}

impl<E> EventBuffer<E> {
    /// Create a new event buffer
    pub fn new() -> (b: EventBuffer<E>)
        ensures
            b@ == Seq::<(Tick, E)>::empty(),
    {
        let b = EventBuffer { events: Vec::new() };
        assert(b@ =~= Seq::<(Tick, E)>::empty());
        b
    }

    /// Push an event, dropping the oldest when the buffer is full.
    pub fn push(&mut self, tick: Tick, event: E)
        ensures
            final(self)@ == pushed(old(self)@, tick, event),
    {
        let ghost s0 = self@;
        if self.events.len() >= MAX_EVENTS {
            self.events.remove(0);
            assert(self@ =~= s0.drop_first());
        }
        let ghost s1 = self@;
        self.events.push(TimedEvent { tick, event });
        assert(self@ =~= s1.push((tick, event)));
    }

    /// Get events since a specific tick
    pub fn events_since(&self, since_tick: Tick) -> (v: Vec<&E>)
        ensures
            deref_all(v@) == since(self@, since_tick),
    {
        let ghost s = self@;
        let mut v: Vec<&E> = Vec::new();
        let mut i: usize = 0;
        while i < self.events.len()
            invariant
                s == self@,
                i <= self.events@.len(),
                deref_all(v@) == since(s.take(i as int), since_tick),
            decreases self.events@.len() - i,
        {
            assert(s.take(i + 1).drop_last() =~= s.take(i as int));
            assert(s[i as int] == (self.events@[i as int].tick, self.events@[i as int].event));
            let ghost v0 = v@;
            if self.events[i].tick.0 > since_tick.0 {
                v.push(&self.events[i].event);
                assert(deref_all(v@) =~= deref_all(v0).push(self.events@[i as int].event));
            }
            i = i + 1;
        }
        assert(s.take(s.len() as int) =~= s);
        v
    }

    /// Get all pending events
    pub fn all_events(&self) -> (v: Vec<&E>)
        ensures
            v@.len() == self@.len(),
            forall|k: int| 0 <= k < v@.len() ==> *v@[k] == self@[k].1,
    {
        let mut v: Vec<&E> = Vec::new();
        let mut i: usize = 0;
        while i < self.events.len()
            invariant
                i <= self.events@.len(),
                v@.len() == i,
                forall|k: int| 0 <= k < i ==> *v@[k] == self@[k].1,
            decreases self.events@.len() - i,
        {
            v.push(&self.events[i].event);
            i = i + 1;
        }
        v
    }

    /// Clear events older than a tick
    pub fn prune(&mut self, older_than: Tick)
        ensures
            final(self)@ == old(self)@.skip(older_prefix(old(self)@, older_than) as int),
    {
        let ghost s0 = self@;
        let ghost mut dropped: nat = 0;
        while self.events.len() > 0 && older_than.0 > self.events[0].tick.0
            invariant
                dropped <= s0.len(),
                self@ == s0.skip(dropped as int),
                older_prefix(s0, older_than) == dropped + older_prefix(self@, older_than),
            decreases self.events@.len(),
        {
            let ghost s = self@;
            assert(s[0].0 == self.events@[0].tick);
            self.events.remove(0);
            assert(self@ =~= s.drop_first());
            proof {
                dropped = dropped + 1;
                assert(s0.skip(dropped as int) =~= s.drop_first());
            }
        }
        proof {
            if self@.len() > 0 {
                assert(self@[0].0 == self.events@[0].tick);
            }
        }
    }

    /// Clear all events
    pub fn clear(&mut self)
        ensures
            final(self)@ == Seq::<(Tick, E)>::empty(),
    {
        self.events.clear();
        assert(self@ =~= Seq::<(Tick, E)>::empty());
    }

    /// Get event count
    pub fn len(&self) -> (n: usize)
        ensures
            n == self@.len(),
    {
        self.events.len()
    }

    /// Check if empty
    pub fn is_empty(&self) -> (b: bool)
        ensures
            b == (self@.len() == 0),
    {
        self.events.len() == 0
    }
}

/// The buffer never holds more than `MAX_EVENTS` events, and a push keeps the
/// newest event last.
pub proof fn law_buffer_bounded<E>(s: Seq<(Tick, E)>, tick: Tick, event: E)
    requires
        s.len() <= MAX_EVENTS,
    ensures
        pushed(s, tick, event).len() <= MAX_EVENTS,
        pushed(s, tick, event).last() == (tick, event),
{
}

/// After pruning, no remaining event at the front is older than the prune tick,
/// and only events older than it were dropped.
pub proof fn law_prune_drops_only_older<E>(s: Seq<(Tick, E)>, tick: Tick)
    ensures
        older_prefix(s, tick) <= s.len(),
        forall|k: int| 0 <= k < older_prefix(s, tick) ==> newer(tick, #[trigger] s[k].0),
        older_prefix(s, tick) < s.len() ==> !newer(tick, s[older_prefix(s, tick) as int].0),
    decreases s.len(),
{
    if s.len() > 0 && newer(tick, s[0].0) {
        law_prune_drops_only_older(s.drop_first(), tick);
        assert forall|k: int| 0 <= k < older_prefix(s, tick) implies newer(tick, #[trigger] s[k].0) by {
            if k > 0 {
                assert(s[k] == s.drop_first()[k - 1]);
            }
        }
        if older_prefix(s, tick) < s.len() {
            assert(s[older_prefix(s, tick) as int] == s.drop_first()[older_prefix(s.drop_first(), tick) as int]);
        }
    }
}

} // verus!
