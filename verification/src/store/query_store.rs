//! The query store: a dispatcher that keeps one projection per aggregate
//! up to date with the committed events.

use crate::contexts::{context_views, EventContext, QueryContext};
use crate::domain::{project, IAggregate, IQuery};
use crate::errors::{Error, ErrorKind};
use crate::repository::i_event_dispatcher::{failure_of, Deliveries, Delivery, IEventDispatcher};
use crate::storage::i_query_storage::IQueryStorage;
use crate::storage::query_table::{loaded_query, table_after_dispatch, QueryTable};
use std::marker::PhantomData;
use vstd::prelude::*;

verus! {

/// A query store over any backend, for the projection `Q` of the
/// aggregate `A`.
pub struct QueryStore<A: IAggregate, Q: IQuery<A::Event>, S: IQueryStorage<A::Event, Q>> {
    storage: S,
    received: Ghost<Deliveries<A::Event>>,
    _phantom: PhantomData<(A, Q)>,
}

impl<A: IAggregate, Q: IQuery<A::Event>, S: IQueryStorage<A::Event, Q>> QueryStore<A, Q, S> {
    /// The backend this store reads and writes.
    pub closed spec fn backend(&self) -> S {
        self.storage
    }

    /// What the backend holds.
    pub open spec fn table(&self) -> QueryTable<Q> {
        self.backend().table()
    }

    /// A store over `storage` that has received no events yet.
    pub fn new(storage: S) -> (store: Self)
        ensures
            store.backend() == storage,
            store.deliveries() == Seq::<Delivery<A::Event>>::empty(),
    {
        Self { storage, received: Ghost(Seq::empty()), _phantom: PhantomData }
    }

    /// Gives the backend back.
    pub fn into_storage(self) -> (storage: S)
        ensures
            storage == self.backend(),
    {
        self.storage
    }

    /// Loads the current projection of an aggregate: the stored row, or the
    /// initial projection at version 0 where none was stored yet.
    pub fn load_query(&mut self, aggregate_id: &str) -> (outcome: Result<QueryContext<Q>, Error>)
        ensures
            final(self).table() == old(self).table(),
            final(self).backend().dependable() == old(self).backend().dependable(),
            final(self).deliveries() == old(self).deliveries(),
            outcome matches Ok(context) ==> {
                &&& context.aggregate_id@ == aggregate_id@
                &&& (context.version, context.payload) == loaded_query::<A::Event, Q>(
                    old(self).table(),
                    A::spec_aggregate_type(),
                    aggregate_id@,
                )
            },
            old(self).backend().dependable() ==> outcome is Ok,
    {
        let agg_type = A::aggregate_type();
        let query_type = Q::query_type();

        let row = match self.storage.select_query(agg_type, aggregate_id, query_type) {
            Ok(row) => row,
            Err(e) => {
                return Err(e);
            },
        };

        match row {
            None => Ok(QueryContext::new(aggregate_id.to_string(), 0, Q::initial())),
            Some(x) => Ok(QueryContext::new(aggregate_id.to_string(), x.0, x.1)),
        }
    }

    /// Folds a batch onto the aggregate's projection and stores the result
    /// under the next version: as a new row where none was stored, else in
    /// place of the stored one. The table is left as it was on any failure.
    fn dispatch_events(&mut self, aggregate_id: &str, events: &Vec<EventContext<A::Event>>) -> (outcome:
        Result<(), Error>)
        ensures
            final(self).backend().dependable() == old(self).backend().dependable(),
            final(self).deliveries() == old(self).deliveries(),
            match outcome {
                Ok(_) => {
                    &&& loaded_query::<A::Event, Q>(old(self).table(), A::spec_aggregate_type(), aggregate_id@).0
                        < i64::MAX
                    &&& final(self).table() == table_after_dispatch::<A::Event, Q>(
                        old(self).table(),
                        A::spec_aggregate_type(),
                        aggregate_id@,
                        context_views(events@),
                    )
                },
                Err(e) => {
                    &&& final(self).table() == old(self).table()
                    &&& old(self).backend().dependable() ==> e.kind == ErrorKind::Storage
                },
            },
            old(self).backend().dependable() ==> (outcome is Ok <==> loaded_query::<A::Event, Q>(
                old(self).table(),
                A::spec_aggregate_type(),
                aggregate_id@,
            ).0 < i64::MAX),
    {
        let agg_type = A::aggregate_type();
        let query_type = Q::query_type();
        let ghost batch = context_views(events@);

        let row = match self.storage.select_query(agg_type, aggregate_id, query_type) {
            Ok(row) => row,
            Err(e) => {
                return Err(e);
            },
        };
        let (is_new, version, mut payload) = match row {
            None => (true, 0i64, Q::initial()),
            Some(x) => (false, x.0, x.1),
        };

        let mut i: usize = 0;
        while i < events.len()
            invariant
                i <= events.len(),
                batch == context_views(events@),
                payload == project(
                    loaded_query::<A::Event, Q>(
                        old(self).table(),
                        A::spec_aggregate_type(),
                        aggregate_id@,
                    ).1,
                    batch.take(i as int),
                ),
            decreases events.len() - i,
        {
            assert(batch.take(i + 1).drop_last() =~= batch.take(i as int));
            assert(batch.take(i + 1).last() == events@[i as int]@);
            payload.update(&events[i]);
            i = i + 1;
        }
        assert(batch.take(events.len() as int) =~= batch);

        if version == i64::MAX {
            return Err(Error::storage("the projection has no next version"));
        }
        let next: i64 = version + 1;

        if is_new {
            self.storage.insert_query(agg_type, aggregate_id, query_type, next, &payload)
        } else {
            self.storage.update_query(agg_type, aggregate_id, query_type, next, &payload)
        }
    }
}

impl<A: IAggregate, Q: IQuery<A::Event>, S: IQueryStorage<A::Event, Q>> IEventDispatcher<
    A::Event,
> for QueryStore<A, Q, S> {
    closed spec fn deliveries(&self) -> Deliveries<A::Event> {
        self.received@
    }

    /// Projects the batch onto the aggregate's row. The table is updated
    /// exactly where the call succeeds.
    fn dispatch(&mut self, aggregate_id: &str, events: &Vec<EventContext<A::Event>>) -> (outcome: Result<
        (),
        Error,
    >)
        ensures
            final(self).backend().dependable() == old(self).backend().dependable(),
            match outcome {
                Ok(_) => {
                    &&& loaded_query::<A::Event, Q>(old(self).table(), A::spec_aggregate_type(), aggregate_id@).0
                        < i64::MAX
                    &&& final(self).table() == table_after_dispatch::<A::Event, Q>(
                        old(self).table(),
                        A::spec_aggregate_type(),
                        aggregate_id@,
                        context_views(events@),
                    )
                },
                Err(e) => {
                    &&& final(self).table() == old(self).table()
                    &&& old(self).backend().dependable() ==> e.kind == ErrorKind::Storage
                },
            },
            old(self).backend().dependable() ==> (outcome is Ok <==> loaded_query::<A::Event, Q>(
                old(self).table(),
                A::spec_aggregate_type(),
                aggregate_id@,
            ).0 < i64::MAX),
    {
        let outcome = self.dispatch_events(aggregate_id, events);
        proof {
            self.received@ = self.received@.push(
                Delivery {
                    aggregate_id: aggregate_id@,
                    events: context_views(events@),
                    failure: failure_of(outcome),
                },
            );
        }
        outcome
    }
}

} // verus!
