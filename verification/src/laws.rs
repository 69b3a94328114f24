//! What holds of the engine as a whole, proved over the same mathematical
//! state that the contracts of the stores and of the repository speak of.

use crate::contexts::{payloads_of, EventContextView, MetadataView};
use crate::domain::{
    lemma_project_concat, lemma_replay_concat, project, replay, IAggregate, IEvent, IQuery, Text,
};
use crate::errors::{Error, ErrorKind};
use crate::repository::i_event_dispatcher::IEventDispatcher;
use crate::repository::i_event_store::{commit_admissible, log_after_commit, wrapped};
use crate::repository::repository::executed;
use crate::storage::event_log::{
    ascending, gap_free, last_sequence, lemma_stream_put_appends, lemma_stream_put_keeps_ascending, stored, stream_has, stream_payloads, stream_put, EventLog, StoredEvent,
};
use crate::storage::query_table::{loaded_query, table_after_dispatch, QueryTable};
use vstd::prelude::*;

verus! {

/// Whether the aggregate's snapshot is caught up with its stream: loading
/// from the snapshot and replaying the stream give the same aggregate at
/// the same sequence number.
pub open spec fn snapshot_in_step<A: IAggregate>(log: EventLog<A>, aggregate_type: Text, aggregate_id: Text) -> bool {
    log.snapshotted(aggregate_type, aggregate_id) == log.replayed(aggregate_type, aggregate_id)
}

/// A batch with its metadata taken away, as a load without metadata shows it.
pub open spec fn without_metadata<E>(batch: Seq<EventContextView<E>>) -> Seq<EventContextView<E>> {
    batch.map_values(
        |c: EventContextView<E>|
            EventContextView {
                aggregate_id: c.aggregate_id,
                sequence: c.sequence,
                payload: c.payload,
                metadata: Map::empty(),
            },
    )
}

/// An aggregate that was never written loads as the initial state at
/// sequence 0, in snapshot mode and in replay mode alike, and its stream
/// loads as the empty sequence.
pub proof fn law_unknown_aggregate_loads_initial<A: IAggregate>(
    log: EventLog<A>,
    aggregate_id: Text,
    with_snapshots: bool,
    with_metadata: bool,
)
    requires
        log.stream(A::spec_aggregate_type(), aggregate_id).len() == 0,
        log.snapshot(A::spec_aggregate_type(), aggregate_id) is None,
    ensures
        log.hydrated(A::spec_aggregate_type(), aggregate_id, with_snapshots) == (A::spec_initial(), 0usize),
        log.contexts(A::spec_aggregate_type(), aggregate_id, with_metadata) == Seq::<
            EventContextView<A::Event>,
        >::empty(),
        snapshot_in_step(log, A::spec_aggregate_type(), aggregate_id),
{
    let stream = log.stream(A::spec_aggregate_type(), aggregate_id);
    assert(stream_payloads(stream) =~= Seq::<A::Event>::empty());
    assert(log.contexts(A::spec_aggregate_type(), aggregate_id, with_metadata) =~= Seq::<
        EventContextView<A::Event>,
    >::empty());
}

/// A batch of `n` events wrapped after sequence `s` carries the numbers
/// `s + 1` to `s + n`: strictly increasing, without a gap, each event with
/// its own payload in the given order, and all with the same aggregate
/// id and the same metadata.
pub proof fn law_wrapped_batch_is_contiguous<E>(
    aggregate_id: Text,
    current_sequence: usize,
    events: Seq<E>,
    metadata: MetadataView,
)
    requires
        current_sequence + events.len() <= usize::MAX,
    ensures
        ({
            let batch = wrapped(aggregate_id, current_sequence, events, metadata);
            &&& batch.len() == events.len()
            &&& forall|i: int|
                0 <= i < batch.len() ==> {
                    &&& (#[trigger] batch[i]).sequence == current_sequence + 1 + i
                    &&& batch[i].payload == events[i]
                    &&& batch[i].aggregate_id == aggregate_id
                    &&& batch[i].metadata == metadata
                }
            &&& forall|i: int, j: int|
                0 <= i < j < batch.len() ==> (#[trigger] batch[i]).sequence < (#[trigger] batch[j]).sequence
            &&& forall|i: int|
                0 <= i && i + 1 < batch.len() ==> batch[i + 1].sequence == (#[trigger] batch[i]).sequence + 1
        }),
{
}

/// Committing against a context that is not behind the stream appends:
/// the stream afterwards is the stream before, followed by the batch.
pub proof fn lemma_commit_appends<A: IAggregate>(
    log: EventLog<A>,
    aggregate_id: Text,
    current_sequence: usize,
    events: Seq<A::Event>,
    metadata: MetadataView,
)
    requires
        ascending(log.stream(A::spec_aggregate_type(), aggregate_id)),
        last_sequence(log.stream(A::spec_aggregate_type(), aggregate_id)) <= current_sequence,
        current_sequence + events.len() <= usize::MAX,
    ensures
        ({
            let batch = wrapped(aggregate_id, current_sequence, events, metadata);
            let after = log.with_events(A::spec_aggregate_type(), aggregate_id, batch);
            &&& after.stream(A::spec_aggregate_type(), aggregate_id) == log.stream(
                A::spec_aggregate_type(),
                aggregate_id,
            ) + batch.map_values(|c: EventContextView<A::Event>| stored(c))
            &&& ascending(after.stream(A::spec_aggregate_type(), aggregate_id))
            &&& last_sequence(after.stream(A::spec_aggregate_type(), aggregate_id)) <= current_sequence
                + events.len()
            &&& events.len() > 0 ==> last_sequence(after.stream(A::spec_aggregate_type(), aggregate_id))
                == current_sequence + events.len()
            &&& log.accepts(A::spec_aggregate_type(), aggregate_id, batch)
            &&& after.snapshots == log.snapshots
        }),
    decreases events.len(),
{
    let kind = A::spec_aggregate_type();
    let batch = wrapped(aggregate_id, current_sequence, events, metadata);
    let stream = log.stream(kind, aggregate_id);
    let rows = batch.map_values(|c: EventContextView<A::Event>| stored(c));
    if events.len() == 0 {
        assert(stream + rows =~= stream);
    } else {
        let front_events = events.drop_last();
        let front = wrapped(aggregate_id, current_sequence, front_events, metadata);
        assert(batch.drop_last() =~= front);
        lemma_commit_appends(log, aggregate_id, current_sequence, front_events, metadata);
        let middle = log.with_events(kind, aggregate_id, front);
        let middle_stream = middle.stream(kind, aggregate_id);
        let last = stored(batch.last());
        assert(last.sequence == current_sequence + events.len());
        lemma_stream_put_appends(middle_stream, last);
        let after = log.with_events(kind, aggregate_id, batch);
        assert(after == middle.with_event(kind, aggregate_id, last));
        assert(after.stream(kind, aggregate_id) == middle_stream.push(last));
        assert(middle_stream.push(last) =~= stream + rows) by {
            assert(front.map_values(|c: EventContextView<A::Event>| stored(c)).push(last) =~= rows);
        }
        assert forall|i: int| 0 <= i < batch.len() implies !log.has_sequence(
            kind,
            aggregate_id,
            (#[trigger] batch[i]).sequence,
        ) by {
            if stream_has(stream, batch[i].sequence) {
                let j = choose|j: int| 0 <= j < stream.len() && (#[trigger] stream[j]).sequence == batch[i].sequence;
                if j < stream.len() - 1 {
                    assert(stream[j].sequence < stream[stream.len() - 1].sequence);
                }
                assert(false);
            }
        }
    }
}

/// Commit followed by load returns the committed events: where the context
/// is not behind the stream, the contexts loaded after a commit are those
/// loaded before it, followed by the committed batch with the same
/// payloads, sequence numbers and metadata, in commit order. A load without
/// metadata shows the same events with empty metadata.
pub proof fn law_commit_then_load_round_trips<A: IAggregate>(
    log: EventLog<A>,
    with_snapshots: bool,
    aggregate_id: Text,
    aggregate: A,
    current_sequence: usize,
    events: Seq<A::Event>,
    metadata: MetadataView,
)
    requires
        ascending(log.stream(A::spec_aggregate_type(), aggregate_id)),
        last_sequence(log.stream(A::spec_aggregate_type(), aggregate_id)) <= current_sequence,
        current_sequence + events.len() <= usize::MAX,
    ensures
        ({
            let batch = wrapped(aggregate_id, current_sequence, events, metadata);
            let after = log_after_commit(log, with_snapshots, aggregate_id, aggregate, current_sequence, batch);
            &&& after.contexts(A::spec_aggregate_type(), aggregate_id, true) == log.contexts(
                A::spec_aggregate_type(),
                aggregate_id,
                true,
            ) + batch
            &&& after.contexts(A::spec_aggregate_type(), aggregate_id, false) == log.contexts(
                A::spec_aggregate_type(),
                aggregate_id,
                false,
            ) + without_metadata(batch)
        }),
{
    let kind = A::spec_aggregate_type();
    let batch = wrapped(aggregate_id, current_sequence, events, metadata);
    lemma_commit_appends(log, aggregate_id, current_sequence, events, metadata);
    let appended = log.with_events(kind, aggregate_id, batch);
    let after = log_after_commit(log, with_snapshots, aggregate_id, aggregate, current_sequence, batch);
    assert(after.stream(kind, aggregate_id) == appended.stream(kind, aggregate_id));
    assert(after.contexts(kind, aggregate_id, true) =~= log.contexts(kind, aggregate_id, true) + batch);
    assert(after.contexts(kind, aggregate_id, false) =~= log.contexts(kind, aggregate_id, false)
        + without_metadata(batch));
}

/// Whatever the context, a commit that goes through loses nothing and
/// reorders nothing: the stream stays ascending, keeps every event it
/// had, and holds every committed event; it grows by exactly the batch.
/// A load afterwards returns every committed context as it was committed
/// and, the stream being ascending, in commit order.
pub proof fn law_committed_events_are_loaded<A: IAggregate>(
    log: EventLog<A>,
    aggregate_id: Text,
    current_sequence: usize,
    events: Seq<A::Event>,
    metadata: MetadataView,
)
    requires
        ascending(log.stream(A::spec_aggregate_type(), aggregate_id)),
        commit_admissible(
            log,
            false,
            aggregate_id,
            current_sequence,
            wrapped(aggregate_id, current_sequence, events, metadata),
        ),
    ensures
        ({
            let batch = wrapped(aggregate_id, current_sequence, events, metadata);
            let before = log.stream(A::spec_aggregate_type(), aggregate_id);
            let after = log.with_events(A::spec_aggregate_type(), aggregate_id, batch).stream(
                A::spec_aggregate_type(),
                aggregate_id,
            );
            &&& ascending(after)
            &&& after.len() == before.len() + batch.len()
            &&& forall|i: int| 0 <= i < before.len() ==> after.contains(#[trigger] before[i])
            &&& forall|i: int| 0 <= i < batch.len() ==> after.contains(stored(#[trigger] batch[i]))
            &&& forall|i: int|
                0 <= i < batch.len() ==> log.with_events(A::spec_aggregate_type(), aggregate_id, batch).contexts(
                    A::spec_aggregate_type(),
                    aggregate_id,
                    true,
                ).contains(#[trigger] batch[i])
        }),
    decreases events.len(),
{
    let kind = A::spec_aggregate_type();
    let batch = wrapped(aggregate_id, current_sequence, events, metadata);
    let before = log.stream(kind, aggregate_id);
    if events.len() > 0 {
        let front_events = events.drop_last();
        let front = wrapped(aggregate_id, current_sequence, front_events, metadata);
        assert(batch.drop_last() =~= front);
        assert forall|i: int| 0 <= i < front.len() implies !log.has_sequence(
            kind,
            aggregate_id,
            (#[trigger] front[i]).sequence,
        ) by {
            assert(front[i] == batch[i]);
        }
        law_committed_events_are_loaded(log, aggregate_id, current_sequence, front_events, metadata);
        let middle = log.with_events(kind, aggregate_id, front);
        let middle_stream = middle.stream(kind, aggregate_id);
        let last = stored(batch.last());
        log.lemma_with_events_has_sequence(kind, aggregate_id, front, last.sequence);
        assert(!stream_has(middle_stream, last.sequence)) by {
            assert(!log.has_sequence(kind, aggregate_id, batch[batch.len() - 1].sequence));
            if exists|i: int| 0 <= i < front.len() && (#[trigger] front[i]).sequence == last.sequence {
                let i = choose|i: int| 0 <= i < front.len() && (#[trigger] front[i]).sequence == last.sequence;
                assert(false);
            }
        }
        lemma_stream_put_keeps_ascending(middle_stream, last);
        let after = log.with_events(kind, aggregate_id, batch).stream(kind, aggregate_id);
        assert(after == stream_put(middle_stream, last));
        assert forall|i: int| 0 <= i < before.len() implies after.contains(#[trigger] before[i]) by {
            assert(middle_stream.contains(before[i]));
            let k = choose|k: int| 0 <= k < middle_stream.len() && middle_stream[k] == before[i];
            assert(after.contains(middle_stream[k]));
        }
        assert forall|i: int| 0 <= i < batch.len() implies after.contains(stored(#[trigger] batch[i])) by {
            if i < front.len() {
                assert(front[i] == batch[i]);
                assert(middle_stream.contains(stored(front[i])));
                let k = choose|k: int| 0 <= k < middle_stream.len() && middle_stream[k] == stored(front[i]);
                assert(after.contains(middle_stream[k]));
            }
        }
        let loaded = log.with_events(kind, aggregate_id, batch).contexts(kind, aggregate_id, true);
        assert forall|i: int| 0 <= i < batch.len() implies loaded.contains(#[trigger] batch[i]) by {
            let k = choose|k: int| 0 <= k < after.len() && after[k] == stored(batch[i]);
            assert(loaded[k] == batch[i]);
        }
    }
}

/// Every write keeps the streams ascending: the empty log is ordered, and
/// an ordered log stays ordered when an event with a free sequence number
/// is inserted and when a snapshot is written.
pub proof fn law_writes_keep_streams_ascending<A: IAggregate>(
    log: EventLog<A>,
    aggregate_type: Text,
    aggregate_id: Text,
    event: StoredEvent<A::Event>,
    last_sequence: usize,
    aggregate: A,
)
    requires
        log.ordered(),
        !log.has_sequence(aggregate_type, aggregate_id, event.sequence),
    ensures
        EventLog::<A>::empty().ordered(),
        log.with_event(aggregate_type, aggregate_id, event).ordered(),
        log.with_snapshot(aggregate_type, aggregate_id, last_sequence, aggregate).ordered(),
{
    EventLog::<A>::lemma_empty_is_ordered();
    log.lemma_with_event_keeps_ordered(aggregate_type, aggregate_id, event);
    log.lemma_with_snapshot_keeps_ordered(aggregate_type, aggregate_id, last_sequence, aggregate);
}

/// Snapshot mode and replay mode agree. Where the snapshot is caught up
/// with an ascending stream, a commit in snapshot mode against the loaded
/// aggregate is admissible and leaves the snapshot caught up: loading
/// from the new snapshot gives what replaying the whole new stream from
/// the initial state gives, which is the loaded aggregate with the batch
/// folded onto it, at the last new sequence number.
pub proof fn law_snapshot_and_replay_agree<A: IAggregate>(
    log: EventLog<A>,
    aggregate_id: Text,
    events: Seq<A::Event>,
    metadata: MetadataView,
)
    requires
        ascending(log.stream(A::spec_aggregate_type(), aggregate_id)),
        snapshot_in_step(log, A::spec_aggregate_type(), aggregate_id),
        log.snapshotted(A::spec_aggregate_type(), aggregate_id).1 + events.len() <= usize::MAX,
    ensures
        ({
            let loaded = log.snapshotted(A::spec_aggregate_type(), aggregate_id);
            let batch = wrapped(aggregate_id, loaded.1, events, metadata);
            let after = log_after_commit(log, true, aggregate_id, loaded.0, loaded.1, batch);
            &&& commit_admissible(log, true, aggregate_id, loaded.1, batch)
            &&& snapshot_in_step(after, A::spec_aggregate_type(), aggregate_id)
            &&& ascending(after.stream(A::spec_aggregate_type(), aggregate_id))
            &&& after.hydrated(A::spec_aggregate_type(), aggregate_id, true) == after.hydrated(
                A::spec_aggregate_type(),
                aggregate_id,
                false,
            )
            &&& after.hydrated(A::spec_aggregate_type(), aggregate_id, true) == (
                replay(loaded.0, events),
                (loaded.1 + events.len()) as usize,
            )
        }),
{
    let kind = A::spec_aggregate_type();
    let loaded = log.snapshotted(kind, aggregate_id);
    let batch = wrapped(aggregate_id, loaded.1, events, metadata);
    let stream = log.stream(kind, aggregate_id);
    lemma_commit_appends(log, aggregate_id, loaded.1, events, metadata);
    let appended = log.with_events(kind, aggregate_id, batch);
    let after = log_after_commit(log, true, aggregate_id, loaded.0, loaded.1, batch);
    let rows = batch.map_values(|c: EventContextView<A::Event>| stored(c));
    assert(after.stream(kind, aggregate_id) == stream + rows);
    assert(payloads_of(batch) =~= events);
    assert(stream_payloads(stream + rows) =~= stream_payloads(stream) + events);
    lemma_replay_concat(A::spec_initial(), stream_payloads(stream), events);
}

/// Commits keep a stream gap-free. Where the stream is numbered 1, 2, 3,
/// ... a commit against the replayed aggregate is admissible, the stream
/// after it is numbered the same way, and replaying that stream yields
/// the aggregate with the batch folded onto it, at the last new sequence
/// number.
pub proof fn law_commit_keeps_stream_gap_free<A: IAggregate>(
    log: EventLog<A>,
    aggregate_id: Text,
    events: Seq<A::Event>,
    metadata: MetadataView,
)
    requires
        gap_free(log.stream(A::spec_aggregate_type(), aggregate_id)),
        log.stream(A::spec_aggregate_type(), aggregate_id).len() + events.len() <= usize::MAX,
    ensures
        ({
            let current = log.replayed(A::spec_aggregate_type(), aggregate_id);
            let batch = wrapped(aggregate_id, current.1, events, metadata);
            let after = log.with_events(A::spec_aggregate_type(), aggregate_id, batch);
            &&& current.1 == log.stream(A::spec_aggregate_type(), aggregate_id).len()
            &&& commit_admissible(log, false, aggregate_id, current.1, batch)
            &&& gap_free(after.stream(A::spec_aggregate_type(), aggregate_id))
            &&& after.replayed(A::spec_aggregate_type(), aggregate_id) == (
                replay(current.0, events),
                (current.1 + events.len()) as usize,
            )
        }),
{
    let kind = A::spec_aggregate_type();
    let stream = log.stream(kind, aggregate_id);
    let current = log.replayed(kind, aggregate_id);
    if stream.len() > 0 {
        assert(stream[stream.len() - 1].sequence == stream.len());
    }
    assert(ascending(stream));
    let batch = wrapped(aggregate_id, current.1, events, metadata);
    lemma_commit_appends(log, aggregate_id, current.1, events, metadata);
    let after = log.with_events(kind, aggregate_id, batch);
    let rows = batch.map_values(|c: EventContextView<A::Event>| stored(c));
    assert(after.stream(kind, aggregate_id) == stream + rows);
    assert(payloads_of(batch) =~= events);
    assert(stream_payloads(stream + rows) =~= stream_payloads(stream) + events);
    lemma_replay_concat(A::spec_initial(), stream_payloads(stream), events);
}

/// The query store adds nothing to the projection's own fold. Dispatching
/// a batch once leaves the batch folded onto what was stored; dispatching
/// the same batch again folds it a second time. So the second dispatch
/// leaves the payload as the first did if and only if folding the batch
/// twice is the same as folding it once: whether that holds is a property
/// of the projection, not of the store.
pub proof fn law_redispatch_is_refold<E: IEvent, Q: IQuery<E>>(
    table: QueryTable<Q>,
    aggregate_type: Text,
    aggregate_id: Text,
    batch: Seq<EventContextView<E>>,
)
    ensures
        ({
            let start = loaded_query::<E, Q>(table, aggregate_type, aggregate_id).1;
            let once = table_after_dispatch::<E, Q>(table, aggregate_type, aggregate_id, batch);
            let twice = table_after_dispatch::<E, Q>(once, aggregate_type, aggregate_id, batch);
            &&& loaded_query::<E, Q>(once, aggregate_type, aggregate_id).1 == project(start, batch)
            &&& loaded_query::<E, Q>(twice, aggregate_type, aggregate_id).1 == project(
                project(start, batch),
                batch,
            )
            &&& (loaded_query::<E, Q>(twice, aggregate_type, aggregate_id).1 == loaded_query::<E, Q>(
                once,
                aggregate_type,
                aggregate_id,
            ).1) <==> (project(project(start, batch), batch) == project(start, batch))
        }),
{
}

/// Dispatches compose: projecting one batch and then another leaves the
/// payload that projecting both as one batch leaves. Only the version
/// tells the two apart.
pub proof fn law_dispatches_compose<E: IEvent, Q: IQuery<E>>(
    table: QueryTable<Q>,
    aggregate_type: Text,
    aggregate_id: Text,
    first: Seq<EventContextView<E>>,
    second: Seq<EventContextView<E>>,
)
    requires
        loaded_query::<E, Q>(table, aggregate_type, aggregate_id).0 + 2 <= i64::MAX,
    ensures
        ({
            let start = loaded_query::<E, Q>(table, aggregate_type, aggregate_id);
            let in_turn = table_after_dispatch::<E, Q>(
                table_after_dispatch::<E, Q>(table, aggregate_type, aggregate_id, first),
                aggregate_type,
                aggregate_id,
                second,
            );
            let at_once = table_after_dispatch::<E, Q>(table, aggregate_type, aggregate_id, first + second);
            &&& loaded_query::<E, Q>(in_turn, aggregate_type, aggregate_id) == (
                (start.0 + 2) as i64,
                project(start.1, first + second),
            )
            &&& loaded_query::<E, Q>(at_once, aggregate_type, aggregate_id) == (
                (start.0 + 1) as i64,
                project(start.1, first + second),
            )
        }),
{
    let start = loaded_query::<E, Q>(table, aggregate_type, aggregate_id);
    lemma_project_concat(start.1, first, second);
}

/// Whether an aggregate's rows are as the repository leaves them: the
/// stream is numbered 1, 2, 3, ... without a gap and, in snapshot mode,
/// the snapshot is caught up with it.
pub open spec fn consistent<A: IAggregate>(log: EventLog<A>, aggregate_id: Text, with_snapshots: bool) -> bool {
    &&& gap_free(log.stream(A::spec_aggregate_type(), aggregate_id))
    &&& with_snapshots ==> snapshot_in_step(log, A::spec_aggregate_type(), aggregate_id)
}

/// A backend that holds nothing is consistent for every aggregate.
pub proof fn law_empty_log_is_consistent<A: IAggregate>(aggregate_id: Text, with_snapshots: bool)
    ensures
        consistent(EventLog::<A>::empty(), aggregate_id, with_snapshots),
{
    law_unknown_aggregate_loads_initial(EventLog::<A>::empty(), aggregate_id, with_snapshots, true);
}

/// A repository that is the only writer of a dependable backend never
/// loses a commit and never breaks the numbering. From rows that are
/// consistent, an execution whose events fit the range of sequence numbers
/// fails only because the command was rejected or because a dispatcher
/// failed; accepted events are always committed in full; and the rows of
/// every aggregate are consistent afterwards.
pub proof fn law_execute_keeps_the_log_consistent<A: IAggregate>(
    log_before: EventLog<A>,
    log_after: EventLog<A>,
    with_snapshots: bool,
    sinks_before: Seq<Box<dyn IEventDispatcher<A::Event>>>,
    sinks_after: Seq<Box<dyn IEventDispatcher<A::Event>>>,
    aggregate_id: Text,
    command: A::Command,
    metadata: MetadataView,
    outcome: Result<(), Error>,
)
    requires
        forall|id: Text| consistent(log_before, id, with_snapshots),
        executed(
            log_before,
            log_after,
            with_snapshots,
            true,
            sinks_before,
            sinks_after,
            aggregate_id,
            command,
            metadata,
            outcome,
        ),
        ({
            let loaded = log_before.hydrated(A::spec_aggregate_type(), aggregate_id, with_snapshots);
            loaded.0.spec_handle(command) matches Ok(events) ==> loaded.1 + events.len() <= usize::MAX
        }),
    ensures
        forall|id: Text| consistent(log_after, id, with_snapshots),
        outcome matches Err(e) ==> e.kind == ErrorKind::Validation || e.kind == ErrorKind::Dispatch,
        ({
            let loaded = log_before.hydrated(A::spec_aggregate_type(), aggregate_id, with_snapshots);
            match loaded.0.spec_handle(command) {
                Ok(events) => log_after == log_after_commit(
                    log_before,
                    with_snapshots,
                    aggregate_id,
                    loaded.0,
                    loaded.1,
                    wrapped(aggregate_id, loaded.1, events, metadata),
                ),
                Err(_) => log_after == log_before,
            }
        }),
{
    let kind = A::spec_aggregate_type();
    let loaded = log_before.hydrated(kind, aggregate_id, with_snapshots);
    assert(consistent(log_before, aggregate_id, with_snapshots));
    match loaded.0.spec_handle(command) {
        Err(_) => {},
        Ok(events) => {
            let batch = wrapped(aggregate_id, loaded.1, events, metadata);
            let stream = log_before.stream(kind, aggregate_id);
            // the commit is admissible, in either mode
            law_commit_keeps_stream_gap_free(log_before, aggregate_id, events, metadata);
            assert(loaded == log_before.replayed(kind, aggregate_id));
            if stream.len() > 0 {
                assert(stream[stream.len() - 1].sequence == stream.len());
            }
            assert(ascending(stream));
            if with_snapshots {
                law_snapshot_and_replay_agree(log_before, aggregate_id, events, metadata);
            }
            assert(commit_admissible(log_before, with_snapshots, aggregate_id, loaded.1, batch));
            let appended = log_before.with_events(kind, aggregate_id, batch);
            assert(log_after == log_after_commit(
                log_before,
                with_snapshots,
                aggregate_id,
                loaded.0,
                loaded.1,
                batch,
            ));
            assert(log_after.stream(kind, aggregate_id) == appended.stream(kind, aggregate_id));
            if outcome is Err {
                assert(outcome->Err_0.kind == ErrorKind::Dispatch);
            }
            assert forall|id: Text| consistent(log_after, id, with_snapshots) by {
                if id != aggregate_id {
                    assert(consistent(log_before, id, with_snapshots));
                    log_before.lemma_with_events_keeps_other_streams(kind, aggregate_id, batch, kind, id);
                    log_before.lemma_with_events_keeps_snapshots(kind, aggregate_id, batch);
                    assert(log_after.stream(kind, id) == log_before.stream(kind, id));
                    assert(log_after.snapshot(kind, id) == log_before.snapshot(kind, id));
                }
            }
        },
    }
}

} // verus!
