//! The central source for loading past events and committing new ones.

use crate::contexts::{
    context_views, payloads_of, strictly_ascending, AggregateContext, EventContext, EventContextView,
    MetadataView,
};
use crate::domain::{replay, IAggregate, Text};
use crate::errors::{Error, ErrorKind};
use crate::storage::event_log::EventLog;
use std::collections::HashMap;
use vstd::prelude::*;

verus! {

/// A batch of payloads as event contexts of one aggregate: the sequence
/// numbers follow `current_sequence` without a gap, and every context
/// carries the same metadata.
pub open spec fn wrapped<E>(
    aggregate_id: Text,
    current_sequence: usize,
    events: Seq<E>,
    metadata: MetadataView,
) -> Seq<EventContextView<E>> {
    Seq::new(
        events.len(),
        |i: int|
            EventContextView {
                aggregate_id,
                sequence: (current_sequence + 1 + i) as usize,
                payload: events[i],
                metadata,
            },
    )
}

/// Whether a commit of `batch` for an aggregate loaded at
/// `current_sequence` goes through on a backend that fails for no reason
/// of its own: the numbers fit the machine's range, none of them is taken,
/// and, in snapshot mode, the stored snapshot still is where the aggregate
/// was loaded.
pub open spec fn commit_admissible<A: IAggregate>(
    log: EventLog<A>,
    with_snapshots: bool,
    aggregate_id: Text,
    current_sequence: usize,
    batch: Seq<EventContextView<A::Event>>,
) -> bool {
    &&& current_sequence + batch.len() <= usize::MAX
    &&& log.accepts(A::spec_aggregate_type(), aggregate_id, batch)
    &&& with_snapshots ==> log.snapshot_sequence(A::spec_aggregate_type(), aggregate_id) == current_sequence
}

/// The log that a successful commit of `batch` leaves behind: every event
/// inserted and, in snapshot mode, the snapshot replaced by the loaded
/// aggregate with the batch folded onto it, at the last new sequence number.
pub open spec fn log_after_commit<A: IAggregate>(
    log: EventLog<A>,
    with_snapshots: bool,
    aggregate_id: Text,
    aggregate: A,
    current_sequence: usize,
    batch: Seq<EventContextView<A::Event>>,
) -> EventLog<A> {
    let appended = log.with_events(A::spec_aggregate_type(), aggregate_id, batch);
    if with_snapshots {
        appended.with_snapshot(
            A::spec_aggregate_type(),
            aggregate_id,
            (current_sequence + batch.len()) as usize,
            replay(aggregate, payloads_of(batch)),
        )
    } else {
        appended
    }
}

/// What a failed commit leaves behind: a prefix of the batch is stored, in
/// order, and nothing else has changed. The whole batch can be stored only
/// where the snapshot write was what failed.
pub open spec fn commit_interrupted<A: IAggregate>(
    before: EventLog<A>,
    after: EventLog<A>,
    with_snapshots: bool,
    aggregate_id: Text,
    batch: Seq<EventContextView<A::Event>>,
) -> bool {
    exists|k: int|
        {
            &&& 0 <= k <= batch.len()
            &&& k == batch.len() ==> with_snapshots
            &&& before.accepts(A::spec_aggregate_type(), aggregate_id, batch.take(k))
            &&& after == #[trigger] before.with_events(A::spec_aggregate_type(), aggregate_id, batch.take(k))
        }
}

/// How many leading events of the batch find their sequence numbers free.
pub open spec fn free_prefix<A: IAggregate>(
    log: EventLog<A>,
    aggregate_id: Text,
    batch: Seq<EventContextView<A::Event>>,
) -> int
    decreases batch.len(),
{
    if batch.len() == 0 {
        0
    } else {
        let front = free_prefix(log, aggregate_id, batch.drop_last());
        if front == batch.len() - 1 && !log.has_sequence(
            A::spec_aggregate_type(),
            aggregate_id,
            batch.last().sequence,
        ) {
            batch.len() as int
        } else {
            front
        }
    }
}

/// The log that a failed commit leaves behind on a backend that fails for
/// no reason of its own: the events in front of the first taken sequence
/// number are stored, and the snapshot is as it was. Nothing is stored
/// where the batch does not fit the range of sequence numbers.
pub open spec fn log_after_failed_commit<A: IAggregate>(
    log: EventLog<A>,
    aggregate_id: Text,
    current_sequence: usize,
    batch: Seq<EventContextView<A::Event>>,
) -> EventLog<A> {
    if current_sequence + batch.len() <= usize::MAX {
        log.with_events(
            A::spec_aggregate_type(),
            aggregate_id,
            batch.take(free_prefix(log, aggregate_id, batch)),
        )
    } else {
        log
    }
}

/// The free prefix ends where the first taken number stands.
pub proof fn lemma_free_prefix<A: IAggregate>(
    log: EventLog<A>,
    aggregate_id: Text,
    batch: Seq<EventContextView<A::Event>>,
    k: int,
)
    requires
        0 <= k <= batch.len(),
        log.accepts(A::spec_aggregate_type(), aggregate_id, batch.take(k)),
        k < batch.len() ==> log.has_sequence(A::spec_aggregate_type(), aggregate_id, batch[k].sequence),
    ensures
        free_prefix(log, aggregate_id, batch) == k,
    decreases batch.len(),
{
    if batch.len() > 0 {
        let front = batch.drop_last();
        if k == batch.len() {
            assert(front.take(k - 1) =~= front);
            assert forall|i: int| 0 <= i < front.len() implies !log.has_sequence(
                A::spec_aggregate_type(),
                aggregate_id,
                (#[trigger] front.take(k - 1)[i]).sequence,
            ) by {
                assert(batch.take(k)[i] == front[i]);
            }
            lemma_free_prefix(log, aggregate_id, front, k - 1);
            assert(batch.take(k)[k - 1] == batch.last());
        } else {
            assert(front.take(k) =~= batch.take(k));
            if k < front.len() {
                assert(front[k] == batch[k]);
            }
            lemma_free_prefix(log, aggregate_id, front, k);
        }
    }
}

/// What a commit does, for each way it can end.
///
/// It succeeds only where it is admissible; it then returns the wrapped
/// batch and leaves the log of a successful commit. A failure leaves a
/// prefix of the batch stored. On a dependable backend a commit fails
/// only where it is not admissible, with a storage error, and the stored
/// prefix is the one in front of the first taken sequence number.
pub open spec fn commit_result<A: IAggregate>(
    before: EventLog<A>,
    after: EventLog<A>,
    with_snapshots: bool,
    dependable: bool,
    context: AggregateContext<A>,
    events: Seq<A::Event>,
    metadata: MetadataView,
    outcome: Result<Vec<EventContext<A::Event>>, Error>,
) -> bool {
    let batch = wrapped(context.aggregate_id@, context.current_sequence, events, metadata);
    let admissible = commit_admissible(
        before,
        with_snapshots,
        context.aggregate_id@,
        context.current_sequence,
        batch,
    );
    match outcome {
        Ok(committed) => {
            &&& context_views(committed@) == batch
            &&& admissible
            &&& after == log_after_commit(
                before,
                with_snapshots,
                context.aggregate_id@,
                context.aggregate,
                context.current_sequence,
                batch,
            )
        },
        Err(e) => {
            &&& commit_interrupted(before, after, with_snapshots, context.aggregate_id@, batch)
            &&& dependable ==> {
                &&& !admissible
                &&& e.kind == ErrorKind::Storage
                &&& after == log_after_failed_commit(
                    before,
                    context.aggregate_id@,
                    context.current_sequence,
                    batch,
                )
            }
        },
    }
}

/// Loads aggregates and commits their new events with gap-free sequence
/// numbers.
pub trait IEventStore<A: IAggregate> {
    /// What the backend behind this store holds.
    spec fn log(&self) -> EventLog<A>;

    /// Whether aggregates are loaded from, and kept in, snapshots.
    spec fn snapshots_enabled(&self) -> bool;

    /// Whether the backend fails only where its interface says it must.
    spec fn dependable(&self) -> bool;

    /// Loads all events of an aggregate, ascending by sequence number, with
    /// their stored metadata or with empty metadata. An aggregate that was
    /// never written has no events. The log is known to be ordered once
    /// the backend has answered.
    fn load_events(&mut self, aggregate_id: &str, with_metadata: bool) -> (outcome: Result<
        Vec<EventContext<A::Event>>,
        Error,
    >)
        ensures
            final(self).log() == old(self).log(),
            final(self).log().ordered(),
            final(self).snapshots_enabled() == old(self).snapshots_enabled(),
            final(self).dependable() == old(self).dependable(),
            outcome matches Ok(contexts) ==> context_views(contexts@) == old(self).log().contexts(
                A::spec_aggregate_type(),
                aggregate_id@,
                with_metadata,
            ),
            outcome matches Ok(contexts) ==> strictly_ascending(context_views(contexts@)),
            old(self).dependable() ==> outcome is Ok,
    ;

    /// Loads an aggregate at its current state: from its snapshot where
    /// snapshots are enabled, else by replaying its whole stream. An
    /// aggregate that was never written is in its initial state at sequence 0.
    fn load_aggregate(&mut self, aggregate_id: &str) -> (outcome: Result<AggregateContext<A>, Error>)
        ensures
            final(self).log() == old(self).log(),
            final(self).log().ordered(),
            final(self).snapshots_enabled() == old(self).snapshots_enabled(),
            final(self).dependable() == old(self).dependable(),
            outcome matches Ok(context) ==> {
                &&& context.aggregate_id@ == aggregate_id@
                &&& (context.aggregate, context.current_sequence) == old(self).log().hydrated(
                    A::spec_aggregate_type(),
                    aggregate_id@,
                    old(self).snapshots_enabled(),
                )
            },
            old(self).dependable() ==> outcome is Ok,
    ;

    /// Commits new events of an aggregate. The events get the sequence
    /// numbers after `context.current_sequence` and are stored one at a
    /// time, in order; a failure leaves the events before it stored. With
    /// snapshots enabled the snapshot is then replaced, guarded by the
    /// context's sequence number. Returns the contexts that were committed.
    fn commit(
        &mut self,
        events: Vec<A::Event>,
        context: AggregateContext<A>,
        metadata: HashMap<String, String>,
    ) -> (outcome: Result<Vec<EventContext<A::Event>>, Error>)
        ensures
            final(self).snapshots_enabled() == old(self).snapshots_enabled(),
            final(self).dependable() == old(self).dependable(),
            old(self).log().ordered() ==> final(self).log().ordered(),
            commit_result(
                old(self).log(),
                final(self).log(),
                old(self).snapshots_enabled(),
                old(self).dependable(),
                context,
                events@,
                metadata@,
                outcome,
            ),
            old(self).dependable() ==> (outcome is Ok <==> commit_admissible(
                old(self).log(),
                old(self).snapshots_enabled(),
                context.aggregate_id@,
                context.current_sequence,
                wrapped(context.aggregate_id@, context.current_sequence, events@, metadata@),
            )),
    ;

    /// Wraps a batch of payloads with what persisting and publishing them
    /// needs: the aggregate id, consecutive sequence numbers after
    /// `current_sequence`, and one copy each of the metadata.
    fn wrap_events(
        &self,
        aggregate_id: &str,
        current_sequence: usize,
        events: Vec<A::Event>,
        metadata: HashMap<String, String>,
    ) -> (wrapped_events: Vec<EventContext<A::Event>>)
        requires
            current_sequence + events.len() <= usize::MAX,
        ensures
            context_views(wrapped_events@) == wrapped(aggregate_id@, current_sequence, events@, metadata@),
    {
        let mut sequence: usize = current_sequence;
        let mut wrapped_events: Vec<EventContext<A::Event>> = Vec::new();
        let ghost batch = wrapped(aggregate_id@, current_sequence, events@, metadata@);
        let ghost payloads = events@;

        for payload in it: events
            invariant
                it.seq() == payloads,
                batch == wrapped(aggregate_id@, current_sequence, payloads, metadata@),
                current_sequence + payloads.len() <= usize::MAX,
                sequence == current_sequence + it.index(),
                wrapped_events@.len() == it.index(),
                forall|j: int| 0 <= j < it.index() ==> (#[trigger] wrapped_events@[j])@ == batch[j],
        {
            sequence += 1;
            wrapped_events.push(
                EventContext::new(aggregate_id.to_string(), sequence, payload, metadata.clone()),
            );
        }

        assert(context_views(wrapped_events@) =~= batch);
        wrapped_events
    }
}

} // verus!
