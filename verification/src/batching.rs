//! Which pending events one extraction takes: the longest head of their ascending
//! arrangement that stays under both ceilings.

use vstd::prelude::*;
use crate::event::{event_views, payload_size, Event, EventData};
use crate::sorting::sort_events;

verus! {

/// A batch carries fewer message bytes than this.
pub const MAX_BATCH_BYTES: usize = 1024 * 1024;

/// A batch carries at most this many events.
pub const MAX_BATCH_EVENTS: usize = 1000;

/// The batch respects both ceilings.
pub open spec fn within_ceilings(batch: Seq<EventData>) -> bool {
    batch.len() <= MAX_BATCH_EVENTS && payload_size(batch) < MAX_BATCH_BYTES
}

/// The message alone reaches the payload ceiling, so no batch can ever hold the event.
pub open spec fn oversized(event: EventData) -> bool {
    event.message.len() >= MAX_BATCH_BYTES
}

/// How many events are accepted in all, when the first `count` of `sorted` are
/// accepted already and carry `bytes` message bytes: the walk goes on while the
/// next event keeps the batch under both ceilings and stops at the first that
/// does not.
pub open spec fn accepted_from(sorted: Seq<EventData>, count: nat, bytes: nat) -> nat
    decreases sorted.len() - count,
{
    if count < sorted.len() && count < MAX_BATCH_EVENTS && bytes + sorted[count as int].message.len()
        < MAX_BATCH_BYTES {
        accepted_from(sorted, count + 1, bytes + sorted[count as int].message.len())
    } else {
        count
    }
}

/// How many events at the head of `sorted` one extraction accepts.
pub open spec fn accepted_len(sorted: Seq<EventData>) -> nat {
    accepted_from(sorted, 0, 0)
}

/// The batch that an extraction returns when `pending` is what the buffer holds.
pub open spec fn batch_of(pending: Seq<EventData>) -> Seq<EventData> {
    let sorted = sort_events(pending);
    sorted.take(accepted_len(sorted) as int)
}

/// What an extraction leaves in the buffer when `pending` is what it holds.
pub open spec fn remainder_of(pending: Seq<EventData>) -> Seq<EventData> {
    let sorted = sort_events(pending);
    sorted.skip(accepted_len(sorted) as int)
}

/// The payload of a head of a sequence grows by the message of the event that
/// follows the head.
pub proof fn lemma_payload_size_step(events: Seq<EventData>, count: int)
    requires
        0 <= count < events.len(),
    ensures
        payload_size(events.take(count + 1)) == payload_size(events.take(count))
            + events[count].message.len(),
{
    assert(events.take(count + 1).drop_last() =~= events.take(count));
}

/// The walk accepts a head of the sequence that respects both ceilings, and the
/// event behind that head, if there is one, would break one of them.
pub proof fn lemma_accepted_from(sorted: Seq<EventData>, count: nat, bytes: nat)
    requires
        count <= sorted.len(),
        bytes == payload_size(sorted.take(count as int)),
        within_ceilings(sorted.take(count as int)),
    ensures
        count <= accepted_from(sorted, count, bytes) <= sorted.len(),
        within_ceilings(sorted.take(accepted_from(sorted, count, bytes) as int)),
        accepted_from(sorted, count, bytes) < sorted.len() ==> !within_ceilings(
            sorted.take(accepted_from(sorted, count, bytes) as int + 1),
        ),
    decreases sorted.len() - count,
{
    if count < sorted.len() {
        lemma_payload_size_step(sorted, count as int);
        if count < MAX_BATCH_EVENTS && bytes + sorted[count as int].message.len()
            < MAX_BATCH_BYTES {
            lemma_accepted_from(sorted, count + 1, bytes + sorted[count as int].message.len());
        }
    }
}

/// The accepted events are the longest head of `sorted` that respects both ceilings.
pub proof fn lemma_accepted_len(sorted: Seq<EventData>)
    ensures
        accepted_len(sorted) <= sorted.len(),
        within_ceilings(sorted.take(accepted_len(sorted) as int)),
        accepted_len(sorted) < sorted.len() ==> !within_ceilings(
            sorted.take(accepted_len(sorted) as int + 1),
        ),
{
    assert(sorted.take(0) =~= Seq::<EventData>::empty());
    lemma_accepted_from(sorted, 0, 0);
}

/// Counts the events at the head of `sorted` that one extraction accepts.
pub fn count_accepted(sorted: &Vec<Event>) -> (count: usize)
    ensures
        count == accepted_len(event_views(sorted@)),
{
    let ghost views = event_views(sorted@);
    let mut count: usize = 0;
    let mut bytes: usize = 0;
    while count < sorted.len() && count < MAX_BATCH_EVENTS && sorted[count].message.len()
        < MAX_BATCH_BYTES - bytes
        invariant
            views == event_views(sorted@),
            count <= sorted.len(),
            bytes < MAX_BATCH_BYTES,
            accepted_len(views) == accepted_from(views, count as nat, bytes as nat),
        decreases sorted.len() - count,
    {
        bytes = bytes + sorted[count].message.len();
        count = count + 1;
    }
    count
}

} // verus!
