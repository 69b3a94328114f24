//! The primitive durable operations the query store needs from a backend.

use crate::domain::{IEvent, IQuery};
use crate::errors::{Error, ErrorKind};
use crate::storage::query_table::QueryTable;
use vstd::prelude::*;

verus! {

/// A durable backend for projections of type `Q`. Rows are addressed by
/// aggregate type, aggregate id and query type.
///
/// A write either takes effect as stated or fails and leaves the backend
/// as it was. A backend that is `dependable` fails only where this
/// interface says it must.
pub trait IQueryStorage<E: IEvent, Q: IQuery<E>> {
    /// What the backend holds.
    spec fn table(&self) -> QueryTable<Q>;

    /// Whether the backend fails only on inserting a row that exists and
    /// on updating one that does not.
    spec fn dependable(&self) -> bool;

    /// Reads a row: its version and payload, or nothing.
    fn select_query(&mut self, aggregate_type: &str, aggregate_id: &str, query_type: &str) -> (outcome:
        Result<Option<(i64, Q)>, Error>)
        ensures
            final(self).dependable() == old(self).dependable(),
            final(self).table() == old(self).table(),
            outcome matches Ok(row) ==> row == old(self).table().row(
                aggregate_type@,
                aggregate_id@,
                query_type@,
            ),
            old(self).dependable() ==> outcome is Ok,
    ;

    /// Stores a new row. Inserting a row that exists is a storage error.
    fn insert_query(
        &mut self,
        aggregate_type: &str,
        aggregate_id: &str,
        query_type: &str,
        version: i64,
        payload: &Q,
    ) -> (outcome: Result<(), Error>)
        ensures
            final(self).dependable() == old(self).dependable(),
            match outcome {
                Ok(_) => {
                    &&& old(self).table().row(aggregate_type@, aggregate_id@, query_type@) is None
                    &&& final(self).table() == old(self).table().with_row(
                        aggregate_type@,
                        aggregate_id@,
                        query_type@,
                        version,
                        *payload,
                    )
                },
                Err(e) => {
                    &&& final(self).table() == old(self).table()
                    &&& old(self).table().row(aggregate_type@, aggregate_id@, query_type@) is Some ==> e.kind
                        == ErrorKind::Storage
                },
            },
            old(self).dependable() && old(self).table().row(aggregate_type@, aggregate_id@, query_type@)
                is None ==> outcome is Ok,
    ;

    /// Replaces a stored row. Updating a row that does not exist is a
    /// storage error.
    fn update_query(
        &mut self,
        aggregate_type: &str,
        aggregate_id: &str,
        query_type: &str,
        version: i64,
        payload: &Q,
    ) -> (outcome: Result<(), Error>)
        ensures
            final(self).dependable() == old(self).dependable(),
            match outcome {
                Ok(_) => {
                    &&& old(self).table().row(aggregate_type@, aggregate_id@, query_type@) is Some
                    &&& final(self).table() == old(self).table().with_row(
                        aggregate_type@,
                        aggregate_id@,
                        query_type@,
                        version,
                        *payload,
                    )
                },
                Err(e) => {
                    &&& final(self).table() == old(self).table()
                    &&& old(self).table().row(aggregate_type@, aggregate_id@, query_type@) is None ==> e.kind
                        == ErrorKind::Storage
                },
            },
            old(self).dependable() && old(self).table().row(aggregate_type@, aggregate_id@, query_type@)
                is Some ==> outcome is Ok,
    ;
}

} // verus!
