//! A query backend that keeps projections in memory.

use crate::domain::{IEvent, IQuery};
use crate::errors::Error;
use crate::memory_store::keys::QueryId;
use crate::memory_store::table::{Table, TableKey};
use crate::storage::i_query_storage::IQueryStorage;
use crate::storage::query_table::QueryTable;
use std::marker::PhantomData;
use vstd::prelude::*;

verus! {

/// Projections of type `Q`, kept in memory. It fails only where the
/// interface says a backend must: on inserting a row that exists and on
/// updating one that does not.
pub struct MemoryQueryStorage<E: IEvent, Q: IQuery<E>> {
    rows: Table<QueryId, (i64, Q)>,
    _phantom: PhantomData<E>,
}

impl<E: IEvent, Q: IQuery<E>> MemoryQueryStorage<E, Q> {
    /// A backend that holds nothing.
    pub fn new() -> (storage: Self)
        ensures
            storage.table() == QueryTable::<Q>::empty(),
            storage.dependable(),
    {
        MemoryQueryStorage { rows: Table::new(), _phantom: PhantomData }
    }
}

impl<E: IEvent, Q: IQuery<E>> IQueryStorage<E, Q> for MemoryQueryStorage<E, Q> {
    closed spec fn table(&self) -> QueryTable<Q> {
        QueryTable { rows: self.rows.map() }
    }

    closed spec fn dependable(&self) -> bool {
        true
    }

    fn select_query(&mut self, aggregate_type: &str, aggregate_id: &str, query_type: &str) -> (outcome:
        Result<Option<(i64, Q)>, Error>) {
        let key = QueryId::new(aggregate_type, aggregate_id, query_type);
        match self.rows.find(&key) {
            None => Ok(None),
            Some(index) => {
                let row = &self.rows.entries[index].value;
                Ok(Some((row.0, row.1.duplicate())))
            },
        }
    }

    fn insert_query(
        &mut self,
        aggregate_type: &str,
        aggregate_id: &str,
        query_type: &str,
        version: i64,
        payload: &Q,
    ) -> (outcome: Result<(), Error>) {
        let key = QueryId::new(aggregate_type, aggregate_id, query_type);
        match self.rows.find(&key) {
            None => {
                self.rows.add(key, (version, payload.duplicate()));
                Ok(())
            },
            Some(_) => Err(Error::storage("a row for this query is already stored")),
        }
    }

    fn update_query(
        &mut self,
        aggregate_type: &str,
        aggregate_id: &str,
        query_type: &str,
        version: i64,
        payload: &Q,
    ) -> (outcome: Result<(), Error>) {
        let key = QueryId::new(aggregate_type, aggregate_id, query_type);
        match self.rows.find(&key) {
            None => Err(Error::storage("no row for this query is stored")),
            Some(index) => {
                let row = self.rows.value_mut(index);
                *row = (version, payload.duplicate());
                Ok(())
            },
        }
    }
}

} // verus!
