//! The primitive durable operations the event store needs from a backend.

use crate::domain::IAggregate;
use crate::errors::{Error, ErrorKind};
use crate::storage::event_log::{EventLog, StoredEvent};
use std::collections::HashMap;
use vstd::prelude::*;

verus! {

/// A stored event without its metadata, as a backend hands it out.
pub open spec fn bare_row<E>(event: StoredEvent<E>) -> (usize, E) {
    (event.sequence, event.payload)
}

/// The stored event that a full row, as a backend hands it out, stands for.
pub open spec fn row_event<E>(row: (usize, E, HashMap<String, String>)) -> StoredEvent<E> {
    StoredEvent { sequence: row.0, payload: row.1, metadata: row.2@ }
}

/// A durable backend for the events and snapshots of aggregates of type `A`.
///
/// Every operation is one read or one write. A write either takes effect as
/// stated or fails and leaves the backend as it was. The events of an
/// aggregate are kept, and handed out, ascending by sequence number. A
/// backend may fail for reasons of its own (a lost connection, a record
/// that does not decode); one that is `dependable` fails only where this
/// interface says it must.
pub trait IEventStorage<A: IAggregate> {
    /// What the backend holds.
    spec fn log(&self) -> EventLog<A>;

    /// Whether the backend fails only on a taken sequence number or a
    /// snapshot guard that does not match.
    spec fn dependable(&self) -> bool;

    /// Stores one event. The triple of aggregate type, aggregate id and
    /// sequence number is unique: inserting a taken number is a storage error.
    fn insert_event(
        &mut self,
        aggregate_type: &str,
        aggregate_id: &str,
        sequence: usize,
        payload: &A::Event,
        metadata: &HashMap<String, String>,
    ) -> (outcome: Result<(), Error>)
        ensures
            final(self).dependable() == old(self).dependable(),
            final(self).log().ordered(),
            match outcome {
                Ok(_) => {
                    &&& !old(self).log().has_sequence(aggregate_type@, aggregate_id@, sequence)
                    &&& final(self).log() == old(self).log().with_event(
                        aggregate_type@,
                        aggregate_id@,
                        StoredEvent { sequence, payload: *payload, metadata: metadata@ },
                    )
                },
                Err(e) => {
                    &&& final(self).log() == old(self).log()
                    &&& old(self).log().has_sequence(aggregate_type@, aggregate_id@, sequence) ==> e.kind
                        == ErrorKind::Storage
                },
            },
            old(self).dependable() && !old(self).log().has_sequence(aggregate_type@, aggregate_id@, sequence)
                ==> outcome is Ok,
    ;

    /// Reads an aggregate's events without their metadata, ascending by
    /// sequence number.
    fn select_events_only(&mut self, aggregate_type: &str, aggregate_id: &str) -> (outcome: Result<
        Vec<(usize, A::Event)>,
        Error,
    >)
        ensures
            final(self).dependable() == old(self).dependable(),
            final(self).log().ordered(),
            final(self).log() == old(self).log(),
            outcome matches Ok(rows) ==> rows@ == old(self).log().stream(
                aggregate_type@,
                aggregate_id@,
            ).map_values(|e: StoredEvent<A::Event>| bare_row(e)),
            old(self).dependable() ==> outcome is Ok,
    ;

    /// Reads an aggregate's events with their metadata, ascending by
    /// sequence number.
    fn select_events_with_metadata(&mut self, aggregate_type: &str, aggregate_id: &str) -> (outcome:
        Result<Vec<(usize, A::Event, HashMap<String, String>)>, Error>)
        ensures
            final(self).dependable() == old(self).dependable(),
            final(self).log().ordered(),
            final(self).log() == old(self).log(),
            outcome matches Ok(rows) ==> rows@.map_values(
                |row: (usize, A::Event, HashMap<String, String>)| row_event(row),
            ) == old(self).log().stream(aggregate_type@, aggregate_id@),
            old(self).dependable() ==> outcome is Ok,
    ;

    /// Reads an aggregate's snapshot: the sequence number it was taken at
    /// and the state, or nothing.
    fn select_snapshot(&mut self, aggregate_type: &str, aggregate_id: &str) -> (outcome: Result<
        Option<(usize, A)>,
        Error,
    >)
        ensures
            final(self).dependable() == old(self).dependable(),
            final(self).log().ordered(),
            final(self).log() == old(self).log(),
            outcome matches Ok(row) ==> row == old(self).log().snapshot(aggregate_type@, aggregate_id@),
            old(self).dependable() ==> outcome is Ok,
    ;

    /// Writes or replaces an aggregate's snapshot. The write is guarded: it
    /// takes effect only where the stored snapshot still is at
    /// `expected_prior_sequence` (0 standing for no snapshot); otherwise it
    /// is a storage error.
    fn update_snapshot(
        &mut self,
        aggregate_type: &str,
        aggregate_id: &str,
        last_sequence: usize,
        payload: &A,
        expected_prior_sequence: usize,
    ) -> (outcome: Result<(), Error>)
        ensures
            final(self).dependable() == old(self).dependable(),
            final(self).log().ordered(),
            match outcome {
                Ok(_) => {
                    &&& old(self).log().snapshot_sequence(aggregate_type@, aggregate_id@)
                        == expected_prior_sequence
                    &&& final(self).log() == old(self).log().with_snapshot(
                        aggregate_type@,
                        aggregate_id@,
                        last_sequence,
                        *payload,
                    )
                },
                Err(e) => {
                    &&& final(self).log() == old(self).log()
                    &&& old(self).log().snapshot_sequence(aggregate_type@, aggregate_id@)
                        != expected_prior_sequence ==> e.kind == ErrorKind::Storage
                },
            },
            old(self).dependable() && old(self).log().snapshot_sequence(aggregate_type@, aggregate_id@)
                == expected_prior_sequence ==> outcome is Ok,
    ;
}

} // verus!
