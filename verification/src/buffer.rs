//! The buffer of pending events: producers append, the flush cycle extracts batches.

use vstd::prelude::*;
use crate::batching::{batch_of, count_accepted, lemma_accepted_len, remainder_of, within_ceilings};
use crate::event::{
    distinct_sequences, event_views, strictly_ascending, Event, EventData, LogEvent,
};
use crate::sorting::{
    arrange, lemma_ascending_distinct_is_strict, lemma_same_events, lemma_sort_events, sort_events,
};

verus! {

/// Pending events and the counter that numbers insertions.
pub struct LogBuffer {
    buffer: Vec<Event>,
    counter: u64,
}

impl View for LogBuffer {
    type V = Seq<EventData>;

    /// The pending events, in the order in which the buffer stores them.
    closed spec fn view(&self) -> Seq<EventData> {
        event_views(self.buffer@)
    }
}

impl LogBuffer {
    /// The sequence that the next appended event receives.
    pub closed spec fn counter(&self) -> nat {
        self.counter as nat
    }

    /// No two pending events share an insertion sequence, and each was numbered
    /// before the counter reached its present value.
    #[verifier::type_invariant]
    pub open spec fn well_formed(self) -> bool {
        &&& distinct_sequences(self@)
        &&& forall|i: int| 0 <= i < self@.len() ==> (#[trigger] self@[i]).sequence < self.counter()
    }

    /// An empty buffer whose first event will get sequence 0.
    pub fn new() -> (buffer: Self)
        ensures
            buffer@ == Seq::<EventData>::empty(),
            buffer.counter() == 0,
    {
        LogBuffer { buffer: Vec::new(), counter: 0 }
    }

    /// The sequence that the next appended event receives.
    pub fn next_sequence(&self) -> (next: u64)
        ensures
            next == self.counter(),
    {
        self.counter
    }

    /// The number of pending events.
    pub fn len(&self) -> (len: usize)
        ensures
            len == self@.len(),
    {
        self.buffer.len()
    }

    /// Appends the event under the current value of the counter and advances the counter.
    pub fn add_event(&mut self, event: LogEvent)
        requires
            old(self).counter() < u64::MAX,
        ensures
            final(self)@ == old(self)@.push(
                EventData {
                    message: event.message@,
                    timestamp: event.timestamp as int,
                    sequence: old(self).counter(),
                },
            ),
            final(self).counter() == old(self).counter() + 1,
    {
        proof {
            use_type_invariant(&*self);
        }
        let sequence = self.counter;
        let mut events: Vec<Event> = Vec::new();
        core::mem::swap(&mut events, &mut self.buffer);
        self.counter = sequence + 1;
        let ghost before = event_views(events@);
        events.push(Event { message: event.message, timestamp: event.timestamp, sequence });
        assert(event_views(events@) =~= before.push(events@.last()@));
        self.buffer = events;
    }

    /// Takes the next batch out of the buffer: the pending events are arranged by
    /// timestamp and insertion sequence, the longest head of that arrangement that
    /// stays under both ceilings is returned, and the rest stays pending.
    pub fn get_subset_to_publish(&mut self) -> (batch: Vec<Event>)
        ensures
            event_views(batch@) == batch_of(old(self)@),
            final(self)@ == remainder_of(old(self)@),
            final(self).counter() == old(self).counter(),
            strictly_ascending(event_views(batch@)),
            within_ceilings(event_views(batch@)),
    {
        proof {
            use_type_invariant(&*self);
        }
        let ghost pending = self@;
        let mut events: Vec<Event> = Vec::new();
        core::mem::swap(&mut events, &mut self.buffer);
        arrange(&mut events);
        let accepted = count_accepted(&events);
        let ghost sorted = event_views(events@);
        proof {
            lemma_sort_events(pending);
            lemma_same_events(sorted, pending);
            lemma_accepted_len(sorted);
            lemma_ascending_distinct_is_strict(sorted);
        }
        let rest = events.split_off(accepted);
        assert(event_views(events@) =~= sorted.take(accepted as int));
        assert(event_views(rest@) =~= sorted.skip(accepted as int));
        self.buffer = rest;
        events
    }
}

} // verus!
