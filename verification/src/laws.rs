//! What holds of the store over several operations.
//!
//! An event is one successful operation. The laws speak of the stores
//! before and after events, as the operations' own contracts relate them,
//! and of histories: runs of events from an empty store on.

use vstd::prelude::*;
use crate::account::TodoCounter;
use crate::error::TodoError;
use crate::instruction::{lookup_verdict, update_verdict};
use crate::store::{completed, created, deleted, initialized, updated, Store};

verus! {

/// A successful operation, with what it was called on and, for a creation,
/// the sequence number it returned.
pub enum Event {
    Initialized { owner: Seq<u8>, bump: u8 },
    Created { owner: Seq<u8>, title: Seq<char>, index: u64 },
    Completed { owner: Seq<u8>, index: u64 },
    Updated { owner: Seq<u8>, index: u64, title: Seq<char> },
    Deleted { owner: Seq<u8>, index: u64 },
}

impl Event {
    /// The owner who called the operation.
    pub open spec fn owner(self) -> Seq<u8> {
        match self {
            Event::Initialized { owner, .. } => owner,
            Event::Created { owner, .. } => owner,
            Event::Completed { owner, .. } => owner,
            Event::Updated { owner, .. } => owner,
            Event::Deleted { owner, .. } => owner,
        }
    }

    /// The event is a creation by `owner`.
    pub open spec fn creates_for(self, owner: Seq<u8>) -> bool {
        self is Created && self.owner() == owner
    }
}

/// The event took the store from `before` to `after`.
pub open spec fn applies(before: &Store, after: &Store, event: Event) -> bool {
    match event {
        Event::Initialized { owner, bump } => initialized(before, after, owner, bump),
        Event::Created { owner, title, index } => created(before, after, owner, title, index),
        Event::Completed { owner, index } => completed(before, after, owner, index),
        Event::Updated { owner, index, title } => updated(before, after, owner, index, title),
        Event::Deleted { owner, index } => deleted(before, after, owner, index),
    }
}

/// `states` are the stores that `events` lead through, one after the other,
/// from a store without counters on.
pub open spec fn is_history(states: Seq<Store>, events: Seq<Event>) -> bool {
    &&& states.len() == events.len() + 1
    &&& forall|o: Seq<u8>| states[0].counter_of(o) is None
    &&& forall|k: int|
        0 <= k < events.len() ==> applies(&states[k], &states[k + 1], #[trigger] events[k])
}

/// How many of the events are creations by `owner`.
pub open spec fn creations(events: Seq<Event>, owner: Seq<u8>) -> nat
    decreases events.len(),
{
    if events.len() == 0 {
        0
    } else {
        creations(events.drop_last(), owner) + if events.last().creates_for(owner) {
            1nat
        } else {
            0nat
        }
    }
}

/// The sequence number was handed out and no record lives under it.
pub open spec fn retired(s: &Store, owner: Seq<u8>, index: u64) -> bool {
    &&& s.counter_of(owner) is Some
    &&& index < s.counter_of(owner)->Some_0.next_index
    &&& s.todo_at(owner, index) is None
}

/// A counter, once there, stays, keeps its salt, and moves only when its
/// owner creates a record, and then by one.
pub proof fn lemma_counter_moves_with_create_only(
    before: &Store,
    after: &Store,
    event: Event,
    owner: Seq<u8>,
)
    requires
        applies(before, after, event),
        before.counter_of(owner) is Some,
    ensures
        after.counter_of(owner) is Some,
        after.counter_of(owner)->Some_0.bump == before.counter_of(owner)->Some_0.bump,
        after.counter_of(owner)->Some_0.next_index == before.counter_of(owner)->Some_0.next_index
            + (if event.creates_for(owner) {
            1int
        } else {
            0int
        }),
{
}

/// In every history, each owner's creations got the sequence numbers 0, 1,
/// 2 and so on, in this order, without a gap and without a repeat: a
/// creation got the number of creations that the owner had made before it,
/// and the owner's counter, where there is one, is the number of creations
/// that the owner has made. An owner without a counter has made none.
pub proof fn lemma_numbers_count_creations(
    states: Seq<Store>,
    events: Seq<Event>,
    owner: Seq<u8>,
)
    requires
        is_history(states, events),
    ensures
        states.last().counter_of(owner) matches Some(c) ==> c.next_index == creations(
            events,
            owner,
        ),
        states.last().counter_of(owner) is None ==> creations(events, owner) == 0,
        forall|k: int|
            0 <= k < events.len() && (#[trigger] events[k]).creates_for(owner)
                ==> events[k]->Created_index == creations(events.take(k), owner),
    decreases events.len(),
{
    if events.len() == 0 {
        assert(states.last() == states[0]);
    } else {
        let earlier_states = states.drop_last();
        let earlier = events.drop_last();
        let last = events.len() - 1;
        assert forall|k: int| 0 <= k < earlier.len() implies applies(
            &earlier_states[k],
            &earlier_states[k + 1],
            #[trigger] earlier[k],
        ) by {
            assert(applies(&states[k], &states[k + 1], events[k]));
        }
        lemma_numbers_count_creations(earlier_states, earlier, owner);
        let before = &states[last];
        let after = &states[last + 1];
        assert(earlier_states.last() == states[last]);
        assert(applies(before, after, events[last]));
        assert(events.take(last) =~= earlier);
        assert forall|k: int|
            0 <= k < events.len() && (#[trigger] events[k]).creates_for(owner) implies events[k]
            ->Created_index == creations(events.take(k), owner) by {
            if k < last {
                assert(events.take(k) =~= earlier.take(k));
                assert(earlier[k].creates_for(owner));
            }
        }
        if before.counter_of(owner) is Some {
            lemma_counter_moves_with_create_only(before, after, events[last], owner);
        }
    }
}

/// Marking a record as done a second time succeeds, and changes nothing.
pub proof fn lemma_complete_twice(s0: &Store, s1: &Store, s2: &Store, owner: Seq<u8>, index: u64)
    requires
        completed(s0, s1, owner, index),
        lookup_verdict(s1.todo_at(owner, index) is Some) is Ok ==> completed(
            s1,
            s2,
            owner,
            index,
        ),
    ensures
        lookup_verdict(s1.todo_at(owner, index) is Some) is Ok,
        s1.todo_at(owner, index)->Some_0.is_completed,
        s2.todo_at(owner, index)->Some_0.is_completed,
        s2.same_as(s1),
{
    assert forall|o: Seq<u8>, n: u64| s2.todo_at(o, n) == s1.todo_at(o, n) by {
        if o == owner && n == index {
        }
    }
}

/// A deleted record's sequence number is retired.
pub proof fn lemma_deleted_is_retired(before: &Store, after: &Store, owner: Seq<u8>, index: u64)
    requires
        before.wf(),
        deleted(before, after, owner, index),
    ensures
        retired(after, owner, index),
{
    before.lemma_record_below_counter(owner, index);
}

/// A retired sequence number stays retired, whatever happens.
pub proof fn lemma_retired_stays_retired(
    before: &Store,
    after: &Store,
    event: Event,
    owner: Seq<u8>,
    index: u64,
)
    requires
        applies(before, after, event),
        retired(before, owner, index),
    ensures
        retired(after, owner, index),
{
}

/// In every history, a sequence number that is retired in one state is
/// retired in every later state: no record ever lives under it again.
pub proof fn lemma_retired_for_good(
    states: Seq<Store>,
    events: Seq<Event>,
    owner: Seq<u8>,
    index: u64,
    from: int,
    to: int,
)
    requires
        is_history(states, events),
        0 <= from <= to < states.len(),
        retired(&states[from], owner, index),
    ensures
        retired(&states[to], owner, index),
    decreases to - from,
{
    if from < to {
        lemma_retired_for_good(states, events, owner, index, from, to - 1);
        assert(applies(&states[to - 1], &states[to - 1 + 1], events[to - 1]));
        lemma_retired_stays_retired(&states[to - 1], &states[to], events[to - 1], owner, index);
    }
}

/// Every operation addressed at a retired sequence number fails with
/// `RecordNotFound`.
pub proof fn lemma_retired_is_not_found(s: &Store, owner: Seq<u8>, index: u64, title: Seq<char>)
    requires
        retired(s, owner, index),
    ensures
        lookup_verdict(s.todo_at(owner, index) is Some) == Err::<(), TodoError>(
            TodoError::RecordNotFound,
        ),
        update_verdict(s.todo_at(owner, index) is Some, title) == Err::<(), TodoError>(
            TodoError::RecordNotFound,
        ),
{
}

/// The record that an owner creates right after deleting one gets the
/// owner's counter as its sequence number, which is greater than the deleted
/// one's: the next one, where the deleted record was the owner's latest.
/// The deleted number stays without a record.
pub proof fn lemma_create_after_delete(
    s0: &Store,
    s1: &Store,
    s2: &Store,
    owner: Seq<u8>,
    deleted_index: u64,
    title: Seq<char>,
    index: u64,
)
    requires
        s0.wf(),
        deleted(s0, s1, owner, deleted_index),
        created(s1, s2, owner, title, index),
    ensures
        index == s0.counter_of(owner)->Some_0.next_index,
        index > deleted_index,
        deleted_index + 1 == s0.counter_of(owner)->Some_0.next_index ==> index == deleted_index
            + 1,
        retired(s2, owner, deleted_index),
{
    s0.lemma_record_below_counter(owner, deleted_index);
}

/// An operation of one owner leaves every other owner's counter and records
/// as they were.
pub proof fn lemma_owners_are_isolated(
    before: &Store,
    after: &Store,
    event: Event,
    other: Seq<u8>,
    index: u64,
)
    requires
        applies(before, after, event),
        other != event.owner(),
    ensures
        after.counter_of(other) == before.counter_of(other),
        after.todo_at(other, index) == before.todo_at(other, index),
{
}

/// The first creation after a counter was set up gets the number zero, and
/// the one after it the number one.
pub proof fn lemma_first_records(
    s0: &Store,
    s1: &Store,
    s2: &Store,
    s3: &Store,
    owner: Seq<u8>,
    bump: u8,
    first_title: Seq<char>,
    first: u64,
    second_title: Seq<char>,
    second: u64,
)
    requires
        initialized(s0, s1, owner, bump),
        created(s1, s2, owner, first_title, first),
        created(s2, s3, owner, second_title, second),
    ensures
        first == 0,
        second == 1,
        s3.counter_of(owner) == Some(TodoCounter { next_index: 2, bump }),
{
}

} // verus!
