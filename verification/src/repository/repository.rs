//! The command-execution engine: load the aggregate, let it decide the
//! command, commit the resulting events, hand them to every dispatcher.

use crate::contexts::MetadataView;
use crate::domain::{IAggregate, Text};
use crate::errors::{Error, ErrorKind};
use crate::repository::i_event_dispatcher::{dispatch_all, fanned_out, IEventDispatcher};
use crate::repository::i_event_store::{
    commit_admissible, commit_interrupted, log_after_commit, log_after_failed_commit, wrapped, IEventStore,
};
use crate::storage::event_log::EventLog;
use std::collections::HashMap;
use std::marker::PhantomData;
use vstd::prelude::*;

verus! {

/// What one command execution does, phase by phase. `log` is what the
/// event store holds and `sinks` are the registered dispatchers, each
/// before and after the call.
///
/// The aggregate is loaded and decides the command. A rejected command
/// changes nothing and is reported as a validation error with the
/// aggregate's reason. Accepted events are committed; a failed commit
/// leaves a prefix of them stored and no dispatcher called. After a
/// successful commit the batch is fanned out, and a dispatcher failure is
/// reported as a dispatch error with the events still committed.
///
/// On a backend that is not dependable a load can fail too, which changes
/// nothing; on a dependable one a commit fails only where it is not
/// admissible.
pub open spec fn executed<A: IAggregate>(
    log_before: EventLog<A>,
    log_after: EventLog<A>,
    with_snapshots: bool,
    dependable: bool,
    sinks_before: Seq<Box<dyn IEventDispatcher<A::Event>>>,
    sinks_after: Seq<Box<dyn IEventDispatcher<A::Event>>>,
    aggregate_id: Text,
    command: A::Command,
    metadata: MetadataView,
    outcome: Result<(), Error>,
) -> bool {
    let loaded = log_before.hydrated(A::spec_aggregate_type(), aggregate_id, with_snapshots);
    match loaded.0.spec_handle(command) {
        // the load failed, or the command was rejected
        Err(reason) => {
            &&& log_after == log_before
            &&& sinks_after == sinks_before
            &&& outcome is Err
            &&& dependable ==> outcome->Err_0.kind == ErrorKind::Validation && outcome->Err_0.message@
                == reason
        },
        Ok(events) => {
            let batch = wrapped(aggregate_id, loaded.1, events, metadata);
            let admissible = commit_admissible(log_before, with_snapshots, aggregate_id, loaded.1, batch);
            // the load failed
            ||| {
                &&& !dependable
                &&& outcome is Err
                &&& log_after == log_before
                &&& sinks_after == sinks_before
            }
            // the commit failed
            ||| {
                &&& outcome is Err
                &&& commit_interrupted(log_before, log_after, with_snapshots, aggregate_id, batch)
                &&& sinks_after == sinks_before
                &&& dependable ==> {
                    &&& !admissible
                    &&& outcome->Err_0.kind == ErrorKind::Storage
                    &&& log_after == log_after_failed_commit(log_before, aggregate_id, loaded.1, batch)
                }
            }
            // the events were committed and fanned out
            ||| {
                &&& admissible
                &&& log_after == log_after_commit(
                    log_before,
                    with_snapshots,
                    aggregate_id,
                    loaded.0,
                    loaded.1,
                    batch,
                )
                &&& fanned_out(sinks_before, sinks_after, aggregate_id, batch, outcome)
            }
        },
    }
}

/// Executes commands against aggregates of type `A` kept in the event
/// store `ES`, and keeps the registered dispatchers informed.
pub struct Repository<A: IAggregate, ES: IEventStore<A>> {
    store: ES,
    dispatchers: Vec<Box<dyn IEventDispatcher<A::Event>>>,
    _phantom: PhantomData<A>,
}

impl<A: IAggregate, ES: IEventStore<A>> Repository<A, ES> {
    /// The event store this repository loads from and commits to.
    pub closed spec fn event_store(&self) -> ES {
        self.store
    }

    /// The registered dispatchers, in the order they are called.
    pub closed spec fn sinks(&self) -> Seq<Box<dyn IEventDispatcher<A::Event>>> {
        self.dispatchers@
    }

    /// A repository over `store` that hands every committed batch to
    /// `dispatchers`, first to last.
    pub fn new(store: ES, dispatchers: Vec<Box<dyn IEventDispatcher<A::Event>>>) -> (repository: Self)
        ensures
            repository.event_store() == store,
            repository.sinks() == dispatchers@,
    {
        Self { store, dispatchers, _phantom: PhantomData }
    }

    /// Gives the event store and the dispatchers back.
    pub fn into_parts(self) -> (parts: (ES, Vec<Box<dyn IEventDispatcher<A::Event>>>))
        ensures
            parts.0 == self.event_store(),
            parts.1@ == self.sinks(),
    {
        (self.store, self.dispatchers)
    }

    /// Executes a command with no metadata attached to its events.
    pub fn execute(&mut self, aggregate_id: &str, command: A::Command) -> (outcome: Result<(), Error>)
        ensures
            final(self).event_store().snapshots_enabled() == old(self).event_store().snapshots_enabled(),
            final(self).event_store().dependable() == old(self).event_store().dependable(),
            final(self).event_store().log().ordered(),
            executed(
                old(self).event_store().log(),
                final(self).event_store().log(),
                old(self).event_store().snapshots_enabled(),
                old(self).event_store().dependable(),
                old(self).sinks(),
                final(self).sinks(),
                aggregate_id@,
                command,
                Map::empty(),
                outcome,
            ),
    {
        self.execute_with_metadata(aggregate_id, command, HashMap::new())
    }

    /// Executes a command: loads the aggregate, lets it decide the command,
    /// commits the resulting events with `metadata`, and hands the committed
    /// batch to every dispatcher in turn. Each phase starts only after the
    /// one before it succeeded, and the first failure ends the call.
    pub fn execute_with_metadata(
        &mut self,
        aggregate_id: &str,
        command: A::Command,
        metadata: HashMap<String, String>,
    ) -> (outcome: Result<(), Error>)
        ensures
            final(self).event_store().snapshots_enabled() == old(self).event_store().snapshots_enabled(),
            final(self).event_store().dependable() == old(self).event_store().dependable(),
            final(self).event_store().log().ordered(),
            executed(
                old(self).event_store().log(),
                final(self).event_store().log(),
                old(self).event_store().snapshots_enabled(),
                old(self).event_store().dependable(),
                old(self).sinks(),
                final(self).sinks(),
                aggregate_id@,
                command,
                metadata@,
                outcome,
            ),
    {
        let aggregate_context = match self.store.load_aggregate(aggregate_id) {
            Ok(context) => context,
            Err(e) => {
                return Err(e);
            },
        };

        let resultant_events = match aggregate_context.aggregate.handle(command) {
            Ok(events) => events,
            Err(reason) => {
                return Err(Error::validation(reason.as_str()));
            },
        };

        let committed_events = match self.store.commit(resultant_events, aggregate_context, metadata) {
            Ok(committed) => committed,
            Err(e) => {
                return Err(e);
            },
        };

        dispatch_all(&mut self.dispatchers, aggregate_id, &committed_events)
    }
}

} // verus!
