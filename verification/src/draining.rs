//! What repeated extraction does to the pending events.

use vstd::prelude::*;
use vstd::multiset::*;
use vstd::seq_lib::*;
use crate::batching::{
    accepted_from, accepted_len, batch_of, lemma_accepted_from, lemma_accepted_len,
    lemma_payload_size_step, oversized, remainder_of,
};
use crate::event::{distinct_sequences, payload_size, EventData};
use crate::sorting::{lemma_same_events, lemma_sort_events, lemma_sort_events_of_ascending, sort_events};

verus! {

/// What is still pending after `rounds` extractions in a row, with no event
/// appended in between.
pub open spec fn pending_after(pending: Seq<EventData>, rounds: nat) -> Seq<EventData>
    decreases rounds,
{
    if rounds == 0 {
        pending
    } else {
        remainder_of(pending_after(pending, (rounds - 1) as nat))
    }
}

/// The batches that `rounds` extractions in a row return, first batch first.
pub open spec fn batches_after(pending: Seq<EventData>, rounds: nat) -> Seq<Seq<EventData>>
    decreases rounds,
{
    if rounds == 0 {
        Seq::empty()
    } else {
        batches_after(pending, (rounds - 1) as nat).push(
            batch_of(pending_after(pending, (rounds - 1) as nat)),
        )
    }
}

/// One extraction splits the pending events: each of them is either in the batch
/// or still pending, and none is in both or in either twice.
pub proof fn lemma_extraction_partitions(pending: Seq<EventData>)
    ensures
        batch_of(pending).to_multiset().add(remainder_of(pending).to_multiset())
            == pending.to_multiset(),
        batch_of(pending).len() + remainder_of(pending).len() == pending.len(),
{
    let sorted = sort_events(pending);
    lemma_sort_events(pending);
    lemma_accepted_len(sorted);
    assert(sorted =~= batch_of(pending) + remainder_of(pending));
    lemma_multiset_commutative(batch_of(pending), remainder_of(pending));
}

/// Completeness: after any number of extractions, the batches returned so far and
/// what is still pending hold exactly the events that were pending at the start,
/// each as often as it was there.
pub proof fn lemma_drain_partitions(pending: Seq<EventData>, rounds: nat)
    ensures
        batches_after(pending, rounds).flatten().to_multiset().add(
            pending_after(pending, rounds).to_multiset(),
        ) == pending.to_multiset(),
    decreases rounds,
{
    broadcast use group_multiset_axioms;

    if rounds == 0 {
        assert(batches_after(pending, rounds).flatten() =~= Seq::<EventData>::empty());
        assert(Seq::<EventData>::empty().to_multiset() =~= Multiset::<EventData>::empty()) by {
            broadcast use group_to_multiset_ensures;

        }
        assert(Multiset::<EventData>::empty().add(pending.to_multiset())
            =~= pending.to_multiset());
    } else {
        let before = (rounds - 1) as nat;
        let batches = batches_after(pending, before);
        let rest = pending_after(pending, before);
        lemma_drain_partitions(pending, before);
        lemma_extraction_partitions(rest);
        batches.lemma_flatten_push(batch_of(rest));
        lemma_multiset_commutative(batches.flatten(), batch_of(rest));
        assert(batches_after(pending, rounds).flatten().to_multiset().add(
            pending_after(pending, rounds).to_multiset(),
        ) =~= batches.flatten().to_multiset().add(rest.to_multiset()));
    }
}

/// No event is delivered twice: where no two pending events share an insertion
/// sequence, neither do any two events among the batches returned and what is
/// still pending.
pub proof fn lemma_drain_is_disjoint(pending: Seq<EventData>, rounds: nat)
    requires
        distinct_sequences(pending),
    ensures
        distinct_sequences(
            batches_after(pending, rounds).flatten() + pending_after(pending, rounds),
        ),
{
    lemma_drain_partitions(pending, rounds);
    lemma_multiset_commutative(
        batches_after(pending, rounds).flatten(),
        pending_after(pending, rounds),
    );
    lemma_same_events(
        batches_after(pending, rounds).flatten() + pending_after(pending, rounds),
        pending,
    );
}

/// An extraction from a buffer whose earliest event is not oversized returns at
/// least that event.
pub proof fn lemma_extraction_progress(pending: Seq<EventData>)
    requires
        pending.len() > 0,
        !oversized(sort_events(pending)[0]),
    ensures
        batch_of(pending).len() > 0,
        remainder_of(pending).len() < pending.len(),
{
    let sorted = sort_events(pending);
    lemma_sort_events(pending);
    lemma_accepted_len(sorted);
    assert(sorted.take(0) =~= Seq::<EventData>::empty());
    lemma_payload_size_step(sorted, 0);
    lemma_accepted_from(sorted, 1, sorted[0].message.len());
}

/// An extraction that returns an empty batch leaves the buffer holding the same
/// events, and so does every later one: an empty batch comes only from an empty
/// buffer or from one whose earliest event is oversized.
pub proof fn lemma_empty_batch(pending: Seq<EventData>)
    requires
        batch_of(pending).len() == 0,
    ensures
        remainder_of(pending) == sort_events(pending),
        batch_of(remainder_of(pending)).len() == 0,
        pending.len() > 0 ==> oversized(sort_events(pending)[0]),
{
    let sorted = sort_events(pending);
    lemma_sort_events(pending);
    lemma_accepted_len(sorted);
    assert(sorted.skip(0) =~= sorted);
    lemma_sort_events_of_ascending(sorted);
    if pending.len() > 0 && !oversized(sorted[0]) {
        lemma_extraction_progress(pending);
    }
}

/// After `rounds` extractions, either as many events have left the buffer, or the
/// drain has come to rest on an empty batch.
proof fn lemma_drain_advances(pending: Seq<EventData>, rounds: nat)
    ensures
        pending_after(pending, rounds).len() + rounds <= pending.len() || batch_of(
            pending_after(pending, rounds),
        ).len() == 0,
    decreases rounds,
{
    if rounds > 0 {
        let before = (rounds - 1) as nat;
        let rest = pending_after(pending, before);
        lemma_drain_advances(pending, before);
        lemma_extraction_partitions(rest);
        if batch_of(rest).len() == 0 {
            lemma_empty_batch(rest);
        }
    }
}

/// Draining comes to rest: after as many extractions as there were pending events,
/// every further batch is empty, and anything still pending is headed by an
/// oversized event, which no batch can hold.
pub proof fn lemma_drain_comes_to_rest(pending: Seq<EventData>)
    ensures
        batch_of(pending_after(pending, pending.len())).len() == 0,
        pending_after(pending, pending.len()).len() > 0 ==> oversized(
            sort_events(pending_after(pending, pending.len()))[0],
        ),
{
    let rest = pending_after(pending, pending.len());
    lemma_drain_advances(pending, pending.len());
    if rest.len() == 0 {
        lemma_sort_events(rest);
        lemma_accepted_len(sort_events(rest));
    }
    lemma_empty_batch(rest);
}

/// Where no pending event is oversized, repeated extraction empties the buffer, and
/// the batches together hold exactly the events that were pending.
pub proof fn lemma_drain_empties(pending: Seq<EventData>)
    requires
        forall|i: int| 0 <= i < pending.len() ==> !oversized(#[trigger] pending[i]),
    ensures
        pending_after(pending, pending.len()).len() == 0,
        batches_after(pending, pending.len()).flatten().to_multiset() == pending.to_multiset(),
{
    broadcast use group_multiset_axioms;
    broadcast use group_to_multiset_ensures;

    let rest = pending_after(pending, pending.len());
    let batches = batches_after(pending, pending.len());
    lemma_drain_comes_to_rest(pending);
    lemma_drain_partitions(pending, pending.len());
    if rest.len() > 0 {
        let head = sort_events(rest)[0];
        lemma_sort_events(rest);
        assert(sort_events(rest).contains(head));
        assert(rest.to_multiset().count(head) > 0);
        assert(pending.to_multiset().count(head) > 0);
        assert(pending.contains(head));
    }
    assert(rest =~= Seq::<EventData>::empty());
    assert(batches.flatten().to_multiset() =~= pending.to_multiset());
}

} // verus!
