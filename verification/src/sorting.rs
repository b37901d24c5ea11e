//! The ascending arrangement of a collection of events, and why there is only one.

use vstd::prelude::*;
use vstd::multiset::*;
use vstd::seq_lib::*;
use crate::event::{
    ascending, distinct_sequences, event_views, not_after, precedes, strictly_ascending, Event,
    EventData,
};

verus! {

/// `sorted` with `event` put behind the last event that does not come after it.
pub open spec fn insert_ascending(sorted: Seq<EventData>, event: EventData) -> Seq<EventData>
    decreases sorted.len(),
{
    if sorted.len() == 0 || not_after(sorted.last(), event) {
        sorted.push(event)
    } else {
        insert_ascending(sorted.drop_last(), event).push(sorted.last())
    }
}

/// The events arranged by timestamp, and by insertion sequence on equal timestamps.
/// Events that agree on both keep the order they had.
pub open spec fn sort_events(events: Seq<EventData>) -> Seq<EventData>
    decreases events.len(),
{
    if events.len() == 0 {
        events
    } else {
        insert_ascending(sort_events(events.drop_last()), events.last())
    }
}

/// Inserting into an ascending sequence gives an ascending sequence that holds the
/// same events and the new one.
pub proof fn lemma_insert_ascending(sorted: Seq<EventData>, event: EventData)
    requires
        ascending(sorted),
    ensures
        ascending(insert_ascending(sorted, event)),
        insert_ascending(sorted, event).len() == sorted.len() + 1,
        insert_ascending(sorted, event).to_multiset() == sorted.to_multiset().insert(event),
    decreases sorted.len(),
{
    broadcast use group_multiset_axioms;
    broadcast use group_to_multiset_ensures;

    let result = insert_ascending(sorted, event);
    if sorted.len() == 0 || not_after(sorted.last(), event) {
        assert forall|i: int, j: int| 0 <= i < j < result.len() implies not_after(
            result[i],
            result[j],
        ) by {
            if j == sorted.len() && i < sorted.len() - 1 {
                assert(not_after(sorted[i], sorted.last()));
            }
        }
    } else {
        let front = sorted.drop_last();
        let inner = insert_ascending(front, event);
        lemma_insert_ascending(front, event);
        assert(sorted =~= front.push(sorted.last()));
        assert forall|i: int, j: int| 0 <= i < j < result.len() implies not_after(
            result[i],
            result[j],
        ) by {
            if j == inner.len() {
                assert(inner.to_multiset().count(inner[i]) > 0);
                if inner[i] != event {
                    assert(front.contains(inner[i]));
                    let k = choose|k: int| 0 <= k < front.len() && front[k] == inner[i];
                    assert(not_after(sorted[k], sorted.last()));
                }
            }
        }
        assert(result.to_multiset() =~= sorted.to_multiset().insert(event));
    }
}

/// `sort_events` arranges the events it is given in ascending order, and neither
/// drops nor adds one.
pub proof fn lemma_sort_events(events: Seq<EventData>)
    ensures
        ascending(sort_events(events)),
        sort_events(events).len() == events.len(),
        sort_events(events).to_multiset() == events.to_multiset(),
    decreases events.len(),
{
    broadcast use group_multiset_axioms;
    broadcast use group_to_multiset_ensures;

    if events.len() > 0 {
        let front = events.drop_last();
        lemma_sort_events(front);
        lemma_insert_ascending(sort_events(front), events.last());
        assert(events =~= front.push(events.last()));
    }
}

/// An ascending sequence is its own arrangement.
pub proof fn lemma_sort_events_of_ascending(events: Seq<EventData>)
    requires
        ascending(events),
    ensures
        sort_events(events) == events,
    decreases events.len(),
{
    if events.len() > 0 {
        let front = events.drop_last();
        lemma_sort_events_of_ascending(front);
        if front.len() > 0 {
            assert(not_after(events[front.len() - 1], events[front.len() as int]));
        }
        assert(events =~= front.push(events.last()));
    }
}

/// Two sequences that hold the same events share their length and their events; if
/// no two events of one share an insertion sequence, the same is true of the other.
pub proof fn lemma_same_events(a: Seq<EventData>, b: Seq<EventData>)
    requires
        a.to_multiset() == b.to_multiset(),
    ensures
        a.len() == b.len(),
        forall|i: int| 0 <= i < a.len() ==> b.contains(#[trigger] a[i]),
        distinct_sequences(b) ==> distinct_sequences(a),
{
    broadcast use group_multiset_axioms;
    broadcast use group_to_multiset_ensures;

    to_multiset_len(a);
    to_multiset_len(b);
    assert forall|i: int| 0 <= i < a.len() implies b.contains(#[trigger] a[i]) by {
        assert(a.contains(a[i]));
        assert(a.to_multiset().count(a[i]) > 0);
    }
    if distinct_sequences(b) {
        assert(b.no_duplicates());
        b.lemma_multiset_has_no_duplicates();
        a.lemma_multiset_has_no_duplicates_conv();
        assert forall|i: int, j: int| 0 <= i < j < a.len() implies a[i].sequence
            != a[j].sequence by {
            assert(b.contains(a[i]));
            assert(b.contains(a[j]));
            let k = choose|k: int| 0 <= k < b.len() && b[k] == a[i];
            let l = choose|l: int| 0 <= l < b.len() && b[l] == a[j];
            assert(a[i] != a[j]);
            if k < l {
                assert(b[k].sequence != b[l].sequence);
            } else {
                assert(b[l].sequence != b[k].sequence);
            }
        }
    }
}

/// Events without a shared insertion sequence have exactly one ascending arrangement.
pub proof fn lemma_ascending_unique(a: Seq<EventData>, b: Seq<EventData>)
    requires
        ascending(a),
        ascending(b),
        distinct_sequences(a),
        a.to_multiset() == b.to_multiset(),
    ensures
        a == b,
    decreases a.len(),
{
    broadcast use group_multiset_axioms;
    broadcast use group_to_multiset_ensures;

    lemma_same_events(a, b);
    lemma_same_events(b, a);
    if a.len() > 0 {
        assert(b.contains(a[0]));
        assert(a.contains(b[0]));
        let i = choose|i: int| 0 <= i < a.len() && a[i] == b[0];
        let j = choose|j: int| 0 <= j < b.len() && b[j] == a[0];
        if i > 0 {
            assert(not_after(a[0], a[i]));
            if j > 0 {
                assert(not_after(b[0], b[j]));
            }
            assert(a[0].sequence != a[i].sequence);
            assert(false);
        }
        assert(a[0] == b[0]);
        let a_rest = a.drop_first();
        let b_rest = b.drop_first();
        assert(a_rest =~= a.remove(0));
        assert(b_rest =~= b.remove(0));
        assert(a_rest.to_multiset() == b_rest.to_multiset());
        assert(ascending(a_rest)) by {
            assert forall|i: int, j: int| 0 <= i < j < a_rest.len() implies not_after(
                a_rest[i],
                a_rest[j],
            ) by {
                assert(not_after(a[i + 1], a[j + 1]));
            }
        }
        assert(ascending(b_rest)) by {
            assert forall|i: int, j: int| 0 <= i < j < b_rest.len() implies not_after(
                b_rest[i],
                b_rest[j],
            ) by {
                assert(not_after(b[i + 1], b[j + 1]));
            }
        }
        assert(distinct_sequences(a_rest)) by {
            assert forall|i: int, j: int| 0 <= i < j < a_rest.len() implies a_rest[i].sequence
                != a_rest[j].sequence by {
                assert(a[i + 1].sequence != a[j + 1].sequence);
            }
        }
        lemma_ascending_unique(a_rest, b_rest);
        assert(a =~= seq![a[0]] + a_rest);
        assert(b =~= seq![b[0]] + b_rest);
    }
}

/// An ascending sequence without a shared insertion sequence is strictly ascending.
pub proof fn lemma_ascending_distinct_is_strict(events: Seq<EventData>)
    requires
        ascending(events),
        distinct_sequences(events),
    ensures
        strictly_ascending(events),
{
    assert forall|i: int, j: int| 0 <= i < j < events.len() implies precedes(
        events[i],
        events[j],
    ) by {
        assert(not_after(events[i], events[j]));
        assert(events[i].sequence != events[j].sequence);
    }
}

/// Sorts with `sort_by_key` of std's slices, keyed by `Event::sort_key`.
///
/// Trusted, not proved: std documents that the call leaves the slice in ascending
/// order of the key and only rearranges its elements, and that tuples order by their
/// first component and then by their second. It also keeps the order of elements with
/// equal keys; the events admitted here have no equal keys.
#[verifier::external_body]
fn sort_by_timestamp_and_sequence(events: &mut Vec<Event>)
    requires
        distinct_sequences(event_views(old(events)@)),
    ensures
        ascending(event_views(final(events)@)),
        event_views(final(events)@).to_multiset() == event_views(old(events)@).to_multiset(),
{
    events.sort_by_key(|event| event.sort_key());
}

/// Arranges the events by timestamp, and by insertion sequence on equal timestamps.
pub(crate) fn arrange(events: &mut Vec<Event>)
    requires
        distinct_sequences(event_views(old(events)@)),
    ensures
        event_views(final(events)@) == sort_events(event_views(old(events)@)),
{
    let ghost before = event_views(events@);
    sort_by_timestamp_and_sequence(events);
    proof {
        let after = event_views(events@);
        lemma_sort_events(before);
        lemma_same_events(sort_events(before), before);
        lemma_ascending_unique(sort_events(before), after);
    }
}

} // verus!
