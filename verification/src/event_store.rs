//! The event store: an append-only log that numbers its events and replays
//! them in order.

use vstd::prelude::*;
use crate::message::BoxedEvent;

verus! {

/// Append-only event log with replay capability.
pub struct EventStore<E> {
    events: Vec<BoxedEvent<E>>,
    sequence: u64,
}

impl<E> View for EventStore<E> {
    type V = Seq<E>;

    closed spec fn view(&self) -> Seq<E> {
        self.events@.map_values(|b: BoxedEvent<E>| b@)
    }
}

impl<E> EventStore<E> {
    /// The sequence counter always equals the number of stored events.
    #[verifier::type_invariant]
    spec fn counted(self) -> bool {
        self.sequence == self.events@.len()
    }

    /// The stored handle of the event at position `i`.
    pub closed spec fn stored(&self, i: int) -> BoxedEvent<E> {
        self.events@[i]
    }

    pub fn new() -> (r: Self)
        ensures
            r@ == Seq::<E>::empty(),
    {
        EventStore { events: Vec::new(), sequence: 0 }
    }

    /// Appends an event and returns its sequence number: its position in
    /// the log, counted from 1.
    pub fn append(&mut self, event: E) -> (r: u64)
        requires
            old(self)@.len() < u64::MAX,
        ensures
            final(self)@ == old(self)@.push(event),
            r == final(self)@.len(),
    {
        let mut store = EventStore::new();
        std::mem::swap(&mut store, self);
        proof {
            use_type_invariant(&store);
        }
        let EventStore { mut events, sequence } = store;
        let n = sequence + 1;
        let ghost before = events@;
        events.push(BoxedEvent::new(event));
        proof {
            assert(events@.map_values(|b: BoxedEvent<E>| b@) =~= before.map_values(
                |b: BoxedEvent<E>| b@,
            ).push(event));
        }
        *self = EventStore { events, sequence: n };
        n
    }

    /// Total number of stored events.
    pub fn len(&self) -> (r: usize)
        ensures
            r == self@.len(),
    {
        self.events.len()
    }

    pub fn is_empty(&self) -> (r: bool)
        ensures
            r == (self@.len() == 0),
    {
        self.events.len() == 0
    }

    /// Replays the events from position `start` (inclusive) on: `f` gets
    /// each position with its event, in log order. `f` need not accept
    /// positions before `start`, so none is handed to it. The contract names
    /// the calls that returned; a call of `f` returns nothing, so their order,
    /// and that each position is handed over once, is left unsaid and follows
    /// the loop.
    pub fn replay_from<F: Fn(usize, &BoxedEvent<E>)>(&self, start: usize, f: F)
        requires
            forall|i: usize, ev: BoxedEvent<E>| start <= i ==> call_requires(f, (i, &ev)),
        ensures
            forall|i: int|
                start <= i < self@.len() ==> #[trigger] self.stored(i)@ == self@[i]
                    && call_ensures(f, (i as usize, &self.stored(i)), ()),
    {
        let mut i: usize = start;
        while i < self.events.len()
            invariant
                forall|j: usize, ev: BoxedEvent<E>| start <= j ==> call_requires(f, (j, &ev)),
                start <= i,
                forall|j: int|
                    start <= j < i && j < self.events@.len() ==> call_ensures(
                        f,
                        (j as usize, &#[trigger] self.events@[j]),
                        (),
                    ),
            decreases self.events@.len() - i,
        {
            f(i, &self.events[i]);
            i = i + 1;
        }
    }

    /// Replays all events.
    pub fn replay_all<F: Fn(usize, &BoxedEvent<E>)>(&self, f: F)
        requires
            forall|i: usize, ev: BoxedEvent<E>| call_requires(f, (i, &ev)),
        ensures
            forall|i: int|
                0 <= i < self@.len() ==> #[trigger] self.stored(i)@ == self@[i]
                    && call_ensures(f, (i as usize, &self.stored(i)), ()),
    {
        let ghost g = f;
        self.replay_from(0, f);
        assert forall|i: int| 0 <= i < self@.len() implies #[trigger] self.stored(i)@ == self@[i]
            && call_ensures(g, (i as usize, &self.stored(i)), ()) by {
            assert(0 <= i);
        }
    }

    /// Empties the store and restarts the numbering.
    pub fn clear(&mut self)
        ensures
            final(self)@ == Seq::<E>::empty(),
    {
        *self = EventStore::new();
    }
}

impl<E> Default for EventStore<E> {
    fn default() -> (r: Self)
        ensures
            r@ == Seq::<E>::empty(),
    {
        Self::new()
    }
}

} // verus!
