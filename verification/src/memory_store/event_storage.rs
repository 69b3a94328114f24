//! An event backend that keeps streams and snapshots in memory.

use crate::domain::{IAggregate, IEvent};
use crate::errors::Error;
use crate::memory_store::keys::StreamId;
use crate::memory_store::table::{Table, TableKey};
use crate::storage::event_log::{
    ascending, lemma_stream_put_is_insert, stream_has, stream_put, EventLog, StoredEvent, StreamKey,
};
use crate::storage::i_event_storage::{bare_row, row_event, IEventStorage};
use std::collections::HashMap;
use vstd::prelude::*;

verus! {

/// The stored events that the rows of a stream stand for.
spec fn rows_view<E>(rows: Seq<(usize, E, HashMap<String, String>)>) -> Seq<StoredEvent<E>> {
    rows.map_values(|row: (usize, E, HashMap<String, String>)| row_event(row))
}

/// Whether a row with this sequence number is stored.
fn has_row<E>(rows: &Vec<(usize, E, HashMap<String, String>)>, sequence: usize) -> (found: bool)
    ensures
        found == stream_has(rows_view(rows@), sequence),
{
    let mut i: usize = 0;
    while i < rows.len()
        invariant
            i <= rows.len(),
            forall|j: int| 0 <= j < i ==> (#[trigger] rows_view(rows@)[j]).sequence != sequence,
        decreases rows.len() - i,
    {
        if rows[i].0 == sequence {
            assert(rows_view(rows@)[i as int].sequence == sequence);
            return true;
        }
        i = i + 1;
    }
    false
}

/// Where a row with this sequence number goes: in front of the trailing
/// rows whose number is not smaller.
fn put_position<E>(rows: &Vec<(usize, E, HashMap<String, String>)>, sequence: usize) -> (position: usize)
    ensures
        position <= rows.len(),
        forall|event: StoredEvent<E>|
            event.sequence == sequence ==> #[trigger] stream_put(rows_view(rows@), event) == rows_view(
                rows@,
            ).insert(position as int, event),
{
    let mut position: usize = rows.len();
    while position > 0 && rows[position - 1].0 >= sequence
        invariant
            position <= rows.len(),
            forall|j: int| position <= j < rows.len() ==> (#[trigger] rows_view(rows@)[j]).sequence >= sequence,
        decreases position,
    {
        position = position - 1;
    }
    proof {
        assert forall|event: StoredEvent<E>| event.sequence == sequence implies #[trigger] stream_put(
            rows_view(rows@),
            event,
        ) == rows_view(rows@).insert(position as int, event) by {
            lemma_stream_put_is_insert(rows_view(rows@), event, position as int);
        }
    }
    position
}

/// Streams and snapshots of aggregates of type `A`, kept in memory. It
/// fails only where the interface says a backend must: on a sequence
/// number that is taken and on a snapshot guard that does not match.
pub struct MemoryEventStorage<A: IAggregate> {
    streams: Table<StreamId, Vec<(usize, A::Event, HashMap<String, String>)>>,
    snapshots: Table<StreamId, (usize, A)>,
}

impl<A: IAggregate> MemoryEventStorage<A> {
    /// Every stream is ascending by sequence number.
    #[verifier::type_invariant]
    spec fn streams_ascend(self) -> bool {
        self.log().ordered()
    }

    /// A backend that holds nothing.
    pub fn new() -> (storage: Self)
        ensures
            storage.log() == EventLog::<A>::empty(),
            storage.dependable(),
    {
        proof {
            EventLog::<A>::lemma_empty_is_ordered();
        }
        let streams: Table<StreamId, Vec<(usize, A::Event, HashMap<String, String>)>> = Table::new();
        assert(streams.map().map_values(
            |rows: Vec<(usize, A::Event, HashMap<String, String>)>| rows_view(rows@),
        ) =~= Map::empty());
        MemoryEventStorage { streams, snapshots: Table::new() }
    }
}

/// The streams that a table of rows stands for.
spec fn streams_view<E>(table: Table<StreamId, Vec<(usize, E, HashMap<String, String>)>>) -> Map<
    StreamKey,
    Seq<StoredEvent<E>>,
> {
    table.map().map_values(|rows: Vec<(usize, E, HashMap<String, String>)>| rows_view(rows@))
}

/// Puts a row into the stream it belongs to, unless its sequence number is
/// taken there.
fn insert_row<E: IEvent>(
    streams: &mut Table<StreamId, Vec<(usize, E, HashMap<String, String>)>>,
    key: StreamId,
    sequence: usize,
    payload: &E,
    metadata: &HashMap<String, String>,
) -> (inserted: bool)
    ensures
        ({
            let before = streams_view(*old(streams));
            let stream = if before.contains_key(key.id()) {
                before[key.id()]
            } else {
                Seq::empty()
            };
            let event = StoredEvent { sequence, payload: *payload, metadata: metadata@ };
            &&& inserted == !stream_has(stream, sequence)
            &&& inserted ==> streams_view(*final(streams)) == before.insert(key.id(), stream_put(stream, event))
            &&& !inserted ==> streams_view(*final(streams)) == before
        }),
{
    let ghost event = StoredEvent { sequence, payload: *payload, metadata: metadata@ };
    let ghost before = streams_view(*streams);
    match streams.find(&key) {
        None => {
            let mut rows: Vec<(usize, E, HashMap<String, String>)> = Vec::new();
            rows.push((sequence, payload.duplicate(), metadata.clone()));
            assert(rows_view(rows@) =~= stream_put(Seq::<StoredEvent<E>>::empty(), event));
            streams.add(key, rows);
            assert(streams_view(*streams) =~= before.insert(key.id(), rows_view(rows@)));
            true
        },
        Some(index) => {
            let rows = streams.value_mut(index);
            if has_row(rows, sequence) {
                assert(streams_view(*streams) =~= before);
                return false;
            }
            let position = put_position(rows, sequence);
            let ghost old_rows = rows@;
            rows.insert(position, (sequence, payload.duplicate(), metadata.clone()));
            assert(rows_view(rows@) =~= rows_view(old_rows).insert(position as int, event));
            assert(streams_view(*streams) =~= before.insert(key.id(), rows_view(rows@)));
            true
        },
    }
}

/// Writes a snapshot where the stored one is at the expected sequence
/// number, nothing stored counting as 0.
fn write_snapshot<A: IAggregate>(
    snapshots: &mut Table<StreamId, (usize, A)>,
    key: StreamId,
    last_sequence: usize,
    payload: &A,
    expected_prior_sequence: usize,
) -> (written: bool)
    ensures
        ({
            let before = old(snapshots).map();
            let stored = if before.contains_key(key.id()) {
                before[key.id()].0
            } else {
                0
            };
            &&& written == (stored == expected_prior_sequence)
            &&& written ==> final(snapshots).map() == before.insert(key.id(), (last_sequence, *payload))
            &&& !written ==> final(snapshots).map() == before
        }),
{
    match snapshots.find(&key) {
        None => {
            if expected_prior_sequence != 0 {
                return false;
            }
            snapshots.add(key, (last_sequence, payload.duplicate()));
            true
        },
        Some(index) => {
            let row = snapshots.value_mut(index);
            if row.0 != expected_prior_sequence {
                assert(snapshots.map() =~= old(snapshots).map());
                return false;
            }
            *row = (last_sequence, payload.duplicate());
            true
        },
    }
}

impl<A: IAggregate> IEventStorage<A> for MemoryEventStorage<A> {
    closed spec fn log(&self) -> EventLog<A> {
        EventLog { streams: streams_view(self.streams), snapshots: self.snapshots.map() }
    }

    closed spec fn dependable(&self) -> bool {
        true
    }

    fn insert_event(
        &mut self,
        aggregate_type: &str,
        aggregate_id: &str,
        sequence: usize,
        payload: &A::Event,
        metadata: &HashMap<String, String>,
    ) -> (outcome: Result<(), Error>) {
        proof {
            use_type_invariant(&*self);
        }
        let ghost before = self.log();
        let ghost event = StoredEvent { sequence, payload: *payload, metadata: metadata@ };
        let key = StreamId::new(aggregate_type, aggregate_id);

        // work on the streams outside of the storage, and put them back
        let mut streams = Table::new();
        proof {
            assert(streams_view(streams) =~= Map::empty());
            EventLog::<A>::lemma_empty_is_ordered();
            assert((EventLog::<A> { streams: streams_view(streams), snapshots: self.snapshots.map() }).ordered())
                by {
                let hollow = EventLog::<A> { streams: streams_view(streams), snapshots: self.snapshots.map() };
                assert forall|t: Seq<char>, id: Seq<char>| ascending(
                    #[trigger] hollow.stream(t, id),
                ) by {}
            }
        }
        std::mem::swap(&mut streams, &mut self.streams);
        let inserted = insert_row(&mut streams, key, sequence, payload, metadata);
        proof {
            if inserted {
                before.lemma_with_event_keeps_ordered(aggregate_type@, aggregate_id@, event);
                assert(streams_view(streams) =~= before.with_event(aggregate_type@, aggregate_id@, event).streams);
            }
        }
        self.streams = streams;
        if inserted {
            Ok(())
        } else {
            Err(Error::storage("an event with this sequence number is already stored"))
        }
    }

    fn select_events_only(&mut self, aggregate_type: &str, aggregate_id: &str) -> (outcome: Result<
        Vec<(usize, A::Event)>,
        Error,
    >) {
        proof {
            use_type_invariant(&*self);
        }
        let key = StreamId::new(aggregate_type, aggregate_id);
        let mut result: Vec<(usize, A::Event)> = Vec::new();
        let ghost stream = self.log().stream(aggregate_type@, aggregate_id@);
        match self.streams.find(&key) {
            None => {
                assert(result@ =~= stream.map_values(|e: StoredEvent<A::Event>| bare_row(e)));
            },
            Some(index) => {
                let rows = &self.streams.entries[index].value;
                assert(stream == rows_view(rows@));
                let mut i: usize = 0;
                while i < rows.len()
                    invariant
                        i <= rows.len(),
                        stream == rows_view(rows@),
                        result@.len() == i,
                        forall|j: int| 0 <= j < i ==> (#[trigger] result@[j]) == bare_row(stream[j]),
                    decreases rows.len() - i,
                {
                    result.push((rows[i].0, rows[i].1.duplicate()));
                    i = i + 1;
                }
                assert(result@ =~= stream.map_values(|e: StoredEvent<A::Event>| bare_row(e)));
            },
        }
        Ok(result)
    }

    fn select_events_with_metadata(&mut self, aggregate_type: &str, aggregate_id: &str) -> (outcome:
        Result<Vec<(usize, A::Event, HashMap<String, String>)>, Error>) {
        proof {
            use_type_invariant(&*self);
        }
        let key = StreamId::new(aggregate_type, aggregate_id);
        let mut result: Vec<(usize, A::Event, HashMap<String, String>)> = Vec::new();
        let ghost stream = self.log().stream(aggregate_type@, aggregate_id@);
        match self.streams.find(&key) {
            None => {
                assert(rows_view(result@) =~= stream);
            },
            Some(index) => {
                let rows = &self.streams.entries[index].value;
                assert(stream == rows_view(rows@));
                let mut i: usize = 0;
                while i < rows.len()
                    invariant
                        i <= rows.len(),
                        stream == rows_view(rows@),
                        result@.len() == i,
                        forall|j: int| 0 <= j < i ==> row_event(#[trigger] result@[j]) == stream[j],
                    decreases rows.len() - i,
                {
                    result.push((rows[i].0, rows[i].1.duplicate(), rows[i].2.clone()));
                    i = i + 1;
                }
                assert(rows_view(result@) =~= stream);
            },
        }
        Ok(result)
    }

    fn select_snapshot(&mut self, aggregate_type: &str, aggregate_id: &str) -> (outcome: Result<
        Option<(usize, A)>,
        Error,
    >) {
        proof {
            use_type_invariant(&*self);
        }
        let key = StreamId::new(aggregate_type, aggregate_id);
        match self.snapshots.find(&key) {
            None => Ok(None),
            Some(index) => {
                let row = &self.snapshots.entries[index].value;
                Ok(Some((row.0, row.1.duplicate())))
            },
        }
    }

    fn update_snapshot(
        &mut self,
        aggregate_type: &str,
        aggregate_id: &str,
        last_sequence: usize,
        payload: &A,
        expected_prior_sequence: usize,
    ) -> (outcome: Result<(), Error>) {
        proof {
            use_type_invariant(&*self);
        }
        let ghost before = self.log();
        let key = StreamId::new(aggregate_type, aggregate_id);

        // work on the snapshots outside of the storage, and put them back
        let mut snapshots = Table::new();
        proof {
            let hollow = EventLog::<A> { streams: streams_view(self.streams), snapshots: snapshots.map() };
            assert forall|t: Seq<char>, id: Seq<char>| ascending(
                #[trigger] hollow.stream(t, id),
            ) by {
                assert(hollow.stream(t, id) == before.stream(t, id));
            }
        }
        std::mem::swap(&mut snapshots, &mut self.snapshots);
        let written = write_snapshot(&mut snapshots, key, last_sequence, payload, expected_prior_sequence);
        proof {
            before.lemma_with_snapshot_keeps_ordered(aggregate_type@, aggregate_id@, last_sequence, *payload);
            if written {
                assert(snapshots.map() =~= before.with_snapshot(
                    aggregate_type@,
                    aggregate_id@,
                    last_sequence,
                    *payload,
                ).snapshots);
            }
        }
        self.snapshots = snapshots;
        if written {
            Ok(())
        } else {
            Err(Error::storage("the snapshot is not at the expected sequence number"))
        }
    }
}

} // verus!
