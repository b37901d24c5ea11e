//! Log events and the order in which a batch presents them.

use vstd::prelude::*;

verus! {

/// A log event as a mathematical value.
pub struct EventData {
    /// The bytes of the message.
    pub message: Seq<u8>,
    /// Milliseconds since the Unix epoch.
    pub timestamp: int,
    /// The position of the event among all insertions into its buffer.
    pub sequence: nat,
}

/// What a producer hands to the buffer: a message and the time it was received.
#[derive(Clone, Debug, PartialEq, Eq)]
pub struct LogEvent {
    pub message: Vec<u8>,
    pub timestamp: i64,
}

/// A buffered event: a producer's event together with its insertion sequence.
#[derive(Clone, Debug, PartialEq, Eq)]
pub struct Event {
    pub message: Vec<u8>,
    pub timestamp: i64,
    pub sequence: u64,
}

impl View for Event {
    type V = EventData;

    open spec fn view(&self) -> EventData {
        EventData {
            message: self.message@,
            timestamp: self.timestamp as int,
            sequence: self.sequence as nat,
        }
    }
}

impl Event {
    /// The pair by which events are ordered: timestamp first, insertion sequence second.
    pub fn sort_key(&self) -> (key: (i64, u64))
        ensures
            key.0 == self.timestamp,
            key.1 == self.sequence,
    {
        (self.timestamp, self.sequence)
    }

    /// The number of bytes of the message.
    pub fn size(&self) -> (size: usize)
        ensures
            size == self@.message.len(),
    {
        self.message.len()
    }
}

/// The mathematical values of a sequence of buffered events, in the same order.
pub open spec fn event_views(events: Seq<Event>) -> Seq<EventData> {
    events.map_values(|e: Event| e@)
}

/// `a` comes strictly before `b`: by timestamp, and by insertion sequence on equal timestamps.
pub open spec fn precedes(a: EventData, b: EventData) -> bool {
    a.timestamp < b.timestamp || (a.timestamp == b.timestamp && a.sequence < b.sequence)
}

/// `a` does not come after `b` in the order of `precedes`.
pub open spec fn not_after(a: EventData, b: EventData) -> bool {
    a.timestamp < b.timestamp || (a.timestamp == b.timestamp && a.sequence <= b.sequence)
}

/// No event of the sequence comes after a later one.
pub open spec fn ascending(events: Seq<EventData>) -> bool {
    forall|i: int, j: int| 0 <= i < j < events.len() ==> not_after(events[i], events[j])
}

/// Every event of the sequence comes strictly before each later one: timestamps never
/// decrease, and on equal timestamps the insertion sequence increases.
pub open spec fn strictly_ascending(events: Seq<EventData>) -> bool {
    forall|i: int, j: int| 0 <= i < j < events.len() ==> precedes(events[i], events[j])
}

/// No two events of the sequence share an insertion sequence.
pub open spec fn distinct_sequences(events: Seq<EventData>) -> bool {
    forall|i: int, j: int|
        0 <= i < j < events.len() ==> events[i].sequence != events[j].sequence
}

/// The sum of the message lengths of the events, in bytes.
pub open spec fn payload_size(events: Seq<EventData>) -> nat
    decreases events.len(),
{
    if events.len() == 0 {
        0
    } else {
        payload_size(events.drop_last()) + events.last().message.len()
    }
}

} // verus!
