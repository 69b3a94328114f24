//! The event store: hydrates aggregates from a backend, by snapshot or by
//! replay, and commits their new events with gap-free sequence numbers.

use crate::contexts::{
    context_views, payloads_of, strictly_ascending, AggregateContext, EventContext, EventContextView,
};
use crate::domain::{replay, IAggregate};
use crate::errors::{Error, ErrorKind};
use crate::repository::i_event_store::{
    commit_interrupted, commit_result, free_prefix, lemma_free_prefix, wrapped, IEventStore,
};
use crate::storage::event_log::{ascending, stream_payloads, EventLog, StoredEvent};
use crate::storage::i_event_storage::{bare_row, row_event, IEventStorage};
use std::collections::HashMap;
use std::marker::PhantomData;
use vstd::prelude::*;

verus! {

/// Folds the payloads of a batch onto an aggregate, first to last.
pub fn apply_events<A: IAggregate>(aggregate: A, events: &Vec<EventContext<A::Event>>) -> (updated: A)
    ensures
        updated == replay(aggregate, payloads_of(context_views(events@))),
{
    let ghost payloads = payloads_of(context_views(events@));
    let mut updated = aggregate;
    let mut i: usize = 0;
    while i < events.len()
        invariant
            i <= events.len(),
            payloads == payloads_of(context_views(events@)),
            updated == replay(aggregate, payloads.take(i as int)),
        decreases events.len() - i,
    {
        assert(payloads.take(i + 1).drop_last() =~= payloads.take(i as int));
        updated.apply(&events[i].payload);
        i = i + 1;
    }
    assert(payloads.take(events.len() as int) =~= payloads);
    updated
}

/// An event store over any backend.
pub struct EventStore<A: IAggregate, S: IEventStorage<A>> {
    storage: S,
    with_snapshots: bool,
    _phantom: PhantomData<A>,
}

impl<A: IAggregate, S: IEventStorage<A>> EventStore<A, S> {
    /// The backend this store reads and writes.
    pub closed spec fn backend(&self) -> S {
        self.storage
    }

    /// Whether this store loads aggregates from, and keeps, snapshots.
    pub closed spec fn uses_snapshots(&self) -> bool {
        self.with_snapshots
    }

    /// A store over `storage`, in snapshot mode or in replay mode.
    pub fn new(storage: S, with_snapshots: bool) -> (store: Self)
        ensures
            store.backend() == storage,
            store.uses_snapshots() == with_snapshots,
    {
        Self { storage, with_snapshots, _phantom: PhantomData }
    }

    /// Gives the backend back.
    pub fn into_storage(self) -> (storage: S)
        ensures
            storage == self.backend(),
    {
        self.storage
    }

    /// Loads the aggregate's events with empty metadata.
    fn load_events_only(&mut self, aggregate_id: &str) -> (outcome: Result<
        Vec<EventContext<A::Event>>,
        Error,
    >)
        ensures
            final(self).backend().log() == old(self).backend().log(),
            final(self).backend().log().ordered(),
            final(self).backend().dependable() == old(self).backend().dependable(),
            final(self).uses_snapshots() == old(self).uses_snapshots(),
            outcome matches Ok(contexts) ==> context_views(contexts@) == old(self).backend().log().contexts(
                A::spec_aggregate_type(),
                aggregate_id@,
                false,
            ),
            outcome matches Ok(contexts) ==> strictly_ascending(context_views(contexts@)),
            old(self).backend().dependable() ==> outcome is Ok,
    {
        let agg_type = A::aggregate_type();
        let ghost expected = self.storage.log().contexts(A::spec_aggregate_type(), aggregate_id@, false);
        let ghost stream = self.storage.log().stream(A::spec_aggregate_type(), aggregate_id@);

        let rows = match self.storage.select_events_only(agg_type, aggregate_id) {
            Ok(rows) => rows,
            Err(e) => {
                return Err(e);
            },
        };

        let ghost all = rows@;
        let mut contexts: Vec<EventContext<A::Event>> = Vec::new();
        for row in it: rows
            invariant
                it.seq() == all,
                all == stream.map_values(|e: StoredEvent<A::Event>| bare_row(e)),
                expected == self.storage.log().contexts(A::spec_aggregate_type(), aggregate_id@, false),
                stream == self.storage.log().stream(A::spec_aggregate_type(), aggregate_id@),
                contexts@.len() == it.index(),
                forall|j: int| 0 <= j < it.index() ==> (#[trigger] contexts@[j])@ == expected[j],
        {
            contexts.push(EventContext::new(aggregate_id.to_string(), row.0, row.1, HashMap::new()));
        }
        assert(context_views(contexts@) =~= expected);
        assert(strictly_ascending(expected)) by {
            assert(ascending(stream));
            assert forall|i: int, j: int| 0 <= i < j < expected.len() implies (#[trigger] expected[i]).sequence < (
            #[trigger] expected[j]).sequence by {
                assert(stream[i].sequence < stream[j].sequence);
            }
        }
        Ok(contexts)
    }

    /// Loads the aggregate's events with the metadata they were committed with.
    fn load_events_with_metadata(&mut self, aggregate_id: &str) -> (outcome: Result<
        Vec<EventContext<A::Event>>,
        Error,
    >)
        ensures
            final(self).backend().log() == old(self).backend().log(),
            final(self).backend().log().ordered(),
            final(self).backend().dependable() == old(self).backend().dependable(),
            final(self).uses_snapshots() == old(self).uses_snapshots(),
            outcome matches Ok(contexts) ==> context_views(contexts@) == old(self).backend().log().contexts(
                A::spec_aggregate_type(),
                aggregate_id@,
                true,
            ),
            outcome matches Ok(contexts) ==> strictly_ascending(context_views(contexts@)),
            old(self).backend().dependable() ==> outcome is Ok,
    {
        let agg_type = A::aggregate_type();
        let ghost expected = self.storage.log().contexts(A::spec_aggregate_type(), aggregate_id@, true);
        let ghost stream = self.storage.log().stream(A::spec_aggregate_type(), aggregate_id@);

        let rows = match self.storage.select_events_with_metadata(agg_type, aggregate_id) {
            Ok(rows) => rows,
            Err(e) => {
                return Err(e);
            },
        };

        let ghost all = rows@;
        let mut contexts: Vec<EventContext<A::Event>> = Vec::new();
        for row in it: rows
            invariant
                it.seq() == all,
                all.map_values(|row: (usize, A::Event, HashMap<String, String>)| row_event(row)) == stream,
                expected == self.storage.log().contexts(A::spec_aggregate_type(), aggregate_id@, true),
                stream == self.storage.log().stream(A::spec_aggregate_type(), aggregate_id@),
                contexts@.len() == it.index(),
                forall|j: int| 0 <= j < it.index() ==> (#[trigger] contexts@[j])@ == expected[j],
        {
            proof {
                let j = it.index();
                assert(all.map_values(|row: (usize, A::Event, HashMap<String, String>)| row_event(row))[j]
                    == row_event(all[j]));
            }
            contexts.push(EventContext::new(aggregate_id.to_string(), row.0, row.1, row.2));
        }
        assert(context_views(contexts@) =~= expected);
        assert(strictly_ascending(expected)) by {
            assert(ascending(stream));
            assert forall|i: int, j: int| 0 <= i < j < expected.len() implies (#[trigger] expected[i]).sequence < (
            #[trigger] expected[j]).sequence by {
                assert(stream[i].sequence < stream[j].sequence);
            }
        }
        Ok(contexts)
    }

    /// Takes the aggregate from its snapshot, at the snapshot's sequence
    /// number, without looking at the events stored after it; the initial
    /// state at 0 where there is no snapshot.
    fn load_aggregate_from_snapshot(&mut self, aggregate_id: &str) -> (outcome: Result<
        AggregateContext<A>,
        Error,
    >)
        ensures
            final(self).backend().log() == old(self).backend().log(),
            final(self).backend().log().ordered(),
            final(self).backend().dependable() == old(self).backend().dependable(),
            final(self).uses_snapshots() == old(self).uses_snapshots(),
            outcome matches Ok(context) ==> {
                &&& context.aggregate_id@ == aggregate_id@
                &&& (context.aggregate, context.current_sequence) == old(self).backend().log().snapshotted(
                    A::spec_aggregate_type(),
                    aggregate_id@,
                )
            },
            old(self).backend().dependable() ==> outcome is Ok,
    {
        let agg_type = A::aggregate_type();
        let id = aggregate_id.to_string();

        let row = match self.storage.select_snapshot(agg_type, aggregate_id) {
            Ok(row) => row,
            Err(e) => {
                return Err(e);
            },
        };

        match row {
            None => Ok(AggregateContext::new(id, A::initial(), 0)),
            Some(x) => Ok(AggregateContext::new(id, x.1, x.0)),
        }
    }

    /// Rebuilds the aggregate by folding its whole stream onto the initial
    /// state; the sequence number is that of the last event, 0 for none.
    fn load_aggregate_from_events(&mut self, aggregate_id: &str) -> (outcome: Result<
        AggregateContext<A>,
        Error,
    >)
        ensures
            final(self).backend().log() == old(self).backend().log(),
            final(self).backend().log().ordered(),
            final(self).backend().dependable() == old(self).backend().dependable(),
            final(self).uses_snapshots() == old(self).uses_snapshots(),
            outcome matches Ok(context) ==> {
                &&& context.aggregate_id@ == aggregate_id@
                &&& (context.aggregate, context.current_sequence) == old(self).backend().log().replayed(
                    A::spec_aggregate_type(),
                    aggregate_id@,
                )
            },
            old(self).backend().dependable() ==> outcome is Ok,
    {
        let id = aggregate_id.to_string();
        let ghost stream = self.storage.log().stream(A::spec_aggregate_type(), aggregate_id@);

        let events = match self.load_events_only(aggregate_id) {
            Ok(events) => events,
            Err(e) => {
                return Err(e);
            },
        };

        assert(context_views(events@).len() == stream.len());
        if events.len() == 0 {
            assert(stream_payloads(stream) =~= Seq::<A::Event>::empty());
            return Ok(AggregateContext::new(id, A::initial(), 0));
        }
        assert(payloads_of(context_views(events@)) =~= stream_payloads(stream));

        let aggregate = apply_events(A::initial(), &events);

        let last: usize = events[events.len() - 1].sequence;
        assert(last == context_views(events@)[events.len() - 1].sequence);
        Ok(AggregateContext::new(id, aggregate, last))
    }

    /// Stores a numbered batch one event at a time, in order, and stops at
    /// the first event that the backend refuses.
    fn insert_events(&mut self, aggregate_id: &str, contexts: &Vec<EventContext<A::Event>>) -> (outcome:
        Result<(), Error>)
        requires
            strictly_ascending(context_views(contexts@)),
        ensures
            final(self).uses_snapshots() == old(self).uses_snapshots(),
            final(self).backend().dependable() == old(self).backend().dependable(),
            old(self).backend().log().ordered() ==> final(self).backend().log().ordered(),
            match outcome {
                Ok(_) => {
                    &&& old(self).backend().log().accepts(
                        A::spec_aggregate_type(),
                        aggregate_id@,
                        context_views(contexts@),
                    )
                    &&& final(self).backend().log() == old(self).backend().log().with_events(
                        A::spec_aggregate_type(),
                        aggregate_id@,
                        context_views(contexts@),
                    )
                },
                Err(e) => {
                    &&& commit_interrupted(
                        old(self).backend().log(),
                        final(self).backend().log(),
                        false,
                        aggregate_id@,
                        context_views(contexts@),
                    )
                    &&& old(self).backend().dependable() ==> {
                        &&& e.kind == ErrorKind::Storage
                        &&& !old(self).backend().log().accepts(
                            A::spec_aggregate_type(),
                            aggregate_id@,
                            context_views(contexts@),
                        )
                        &&& final(self).backend().log() == old(self).backend().log().with_events(
                            A::spec_aggregate_type(),
                            aggregate_id@,
                            context_views(contexts@).take(
                                free_prefix(old(self).backend().log(), aggregate_id@, context_views(contexts@)),
                            ),
                        )
                    }
                },
            },
    {
        let agg_type = A::aggregate_type();
        let ghost kind = A::spec_aggregate_type();
        let ghost id = aggregate_id@;
        let ghost before = self.storage.log();
        let ghost batch = context_views(contexts@);

        let mut i: usize = 0;
        while i < contexts.len()
            invariant
                i <= contexts.len(),
                agg_type@ == kind,
                kind == A::spec_aggregate_type(),
                id == aggregate_id@,
                batch == context_views(contexts@),
                forall|i: int, j: int|
                    0 <= i < j < batch.len() ==> (#[trigger] batch[i]).sequence < (#[trigger] batch[j]).sequence,
                self.with_snapshots == old(self).with_snapshots,
                self.storage.dependable() == old(self).storage.dependable(),
                before == old(self).storage.log(),
                before.ordered() ==> self.storage.log().ordered(),
                before.accepts(kind, id, batch.take(i as int)),
                self.storage.log() == before.with_events(kind, id, batch.take(i as int)),
            decreases contexts.len() - i,
        {
            let ghost item = batch[i as int];
            assert(batch.take(i + 1).drop_last() =~= batch.take(i as int));
            assert(batch.take(i + 1).last() == item);
            proof {
                // the numbers taken so far are those taken at the start and those of the prefix
                before.lemma_with_events_has_sequence(kind, id, batch.take(i as int), item.sequence);
                if exists|j: int|
                    0 <= j < batch.take(i as int).len() && (#[trigger] batch.take(i as int)[j]).sequence
                        == item.sequence {
                    let j = choose|j: int|
                        0 <= j < batch.take(i as int).len() && (#[trigger] batch.take(i as int)[j]).sequence
                            == item.sequence;
                    assert(batch[j].sequence < batch[i as int].sequence);
                }
            }
            match self.storage.insert_event(
                agg_type,
                aggregate_id,
                contexts[i].sequence,
                &contexts[i].payload,
                &contexts[i].metadata,
            ) {
                Ok(_) => {
                    assert forall|j: int| 0 <= j < batch.take(i + 1).len() implies !before.has_sequence(
                        kind,
                        id,
                        (#[trigger] batch.take(i + 1)[j]).sequence,
                    ) by {
                        if j < i {
                            assert(batch.take(i as int)[j] == batch.take(i + 1)[j]);
                        }
                    }
                },
                Err(e) => {
                    proof {
                        if old(self).storage.dependable() {
                            assert(before.has_sequence(kind, id, batch[i as int].sequence));
                            lemma_free_prefix(before, id, batch, i as int);
                        }
                    }
                    return Err(e);
                },
            }
            i = i + 1;
        }
        assert(batch.take(contexts.len() as int) =~= batch);
        Ok(())
    }

    /// Stores the batch and then replaces the snapshot by the context's
    /// aggregate with the batch folded onto it, guarded by the context's
    /// sequence number.
    fn commit_with_snapshots(
        &mut self,
        events: Vec<A::Event>,
        context: AggregateContext<A>,
        metadata: HashMap<String, String>,
    ) -> (outcome: Result<Vec<EventContext<A::Event>>, Error>)
        requires
            old(self).uses_snapshots(),
            context.current_sequence + events.len() <= usize::MAX,
        ensures
            final(self).uses_snapshots() == old(self).uses_snapshots(),
            final(self).backend().dependable() == old(self).backend().dependable(),
            old(self).backend().log().ordered() ==> final(self).backend().log().ordered(),
            commit_result(
                old(self).backend().log(),
                final(self).backend().log(),
                true,
                old(self).backend().dependable(),
                context,
                events@,
                metadata@,
                outcome,
            ),
    {
        let agg_type = A::aggregate_type();
        let aggregate_id = context.aggregate_id.as_str();
        let current_sequence = context.current_sequence;
        let ghost before = self.storage.log();
        let ghost batch = wrapped(context.aggregate_id@, current_sequence, events@, metadata@);

        let contexts = self.wrap_events(aggregate_id, current_sequence, events, metadata);

        assert(strictly_ascending(batch));
        match self.insert_events(aggregate_id, &contexts) {
            Ok(_) => {},
            Err(e) => {
                return Err(e);
            },
        }

        let last_sequence: usize = if contexts.len() == 0 {
            current_sequence
        } else {
            assert(contexts@[contexts.len() - 1]@ == batch[contexts.len() - 1]);
            contexts[contexts.len() - 1].sequence
        };
        let updated_aggregate = apply_events(context.aggregate, &contexts);
        proof {
            before.lemma_with_events_keeps_snapshots(A::spec_aggregate_type(), context.aggregate_id@, batch);
            lemma_free_prefix(before, context.aggregate_id@, batch, batch.len() as int);
            assert(batch.take(batch.len() as int) =~= batch);
        }

        match self.storage.update_snapshot(
            agg_type,
            aggregate_id,
            last_sequence,
            &updated_aggregate,
            current_sequence,
        ) {
            Ok(_) => Ok(contexts),
            Err(e) => Err(e),
        }
    }

    /// Stores the batch and leaves the snapshots alone.
    fn commit_events_only(
        &mut self,
        events: Vec<A::Event>,
        context: AggregateContext<A>,
        metadata: HashMap<String, String>,
    ) -> (outcome: Result<Vec<EventContext<A::Event>>, Error>)
        requires
            !old(self).uses_snapshots(),
            context.current_sequence + events.len() <= usize::MAX,
        ensures
            final(self).uses_snapshots() == old(self).uses_snapshots(),
            final(self).backend().dependable() == old(self).backend().dependable(),
            old(self).backend().log().ordered() ==> final(self).backend().log().ordered(),
            commit_result(
                old(self).backend().log(),
                final(self).backend().log(),
                false,
                old(self).backend().dependable(),
                context,
                events@,
                metadata@,
                outcome,
            ),
    {
        let aggregate_id = context.aggregate_id.as_str();
        let current_sequence = context.current_sequence;

        let ghost batch = wrapped(context.aggregate_id@, current_sequence, events@, metadata@);

        let contexts = self.wrap_events(aggregate_id, current_sequence, events, metadata);

        assert(strictly_ascending(batch));
        match self.insert_events(aggregate_id, &contexts) {
            Ok(_) => Ok(contexts),
            Err(e) => Err(e),
        }
    }
}

impl<A: IAggregate, S: IEventStorage<A>> IEventStore<A> for EventStore<A, S> {
    open spec fn log(&self) -> EventLog<A> {
        self.backend().log()
    }

    open spec fn snapshots_enabled(&self) -> bool {
        self.uses_snapshots()
    }

    open spec fn dependable(&self) -> bool {
        self.backend().dependable()
    }

    fn load_events(&mut self, aggregate_id: &str, with_metadata: bool) -> (outcome: Result<
        Vec<EventContext<A::Event>>,
        Error,
    >) {
        match with_metadata {
            true => self.load_events_with_metadata(aggregate_id),
            false => self.load_events_only(aggregate_id),
        }
    }

    fn load_aggregate(&mut self, aggregate_id: &str) -> (outcome: Result<AggregateContext<A>, Error>) {
        match self.with_snapshots {
            true => self.load_aggregate_from_snapshot(aggregate_id),
            false => self.load_aggregate_from_events(aggregate_id),
        }
    }

    fn commit(
        &mut self,
        events: Vec<A::Event>,
        context: AggregateContext<A>,
        metadata: HashMap<String, String>,
    ) -> (outcome: Result<Vec<EventContext<A::Event>>, Error>) {
        if events.len() > usize::MAX - context.current_sequence {
            proof {
                let batch = wrapped(context.aggregate_id@, context.current_sequence, events@, metadata@);
                assert(batch.take(0) =~= Seq::<EventContextView<A::Event>>::empty());
                assert(self.storage.log() == self.storage.log().with_events(
                    A::spec_aggregate_type(),
                    context.aggregate_id@,
                    batch.take(0),
                ));
            }
            return Err(Error::storage("the batch does not fit the range of sequence numbers"));
        }
        match self.with_snapshots {
            true => self.commit_with_snapshots(events, context, metadata),
            false => self.commit_events_only(events, context, metadata),
        }
    }
}

} // verus!
