//! The keys of the in-memory tables.

use crate::memory_store::table::TableKey;
use crate::storage::event_log::StreamKey;
use crate::storage::query_table::QueryKey;
use vstd::prelude::*;

verus! {

/// The address of a stream or snapshot.
pub struct StreamId {
    pub aggregate_type: String,
    pub aggregate_id: String,
}

impl StreamId {
    pub fn new(aggregate_type: &str, aggregate_id: &str) -> (key: Self)
        ensures
            key.id() == (aggregate_type@, aggregate_id@),
    {
        StreamId { aggregate_type: aggregate_type.to_string(), aggregate_id: aggregate_id.to_string() }
    }
}

impl TableKey for StreamId {
    type Id = StreamKey;

    open spec fn id(&self) -> StreamKey {
        (self.aggregate_type@, self.aggregate_id@)
    }

    fn same(&self, other: &Self) -> (r: bool) {
        self.aggregate_type == other.aggregate_type && self.aggregate_id == other.aggregate_id
    }
}

/// The address of a projection row.
pub struct QueryId {
    pub aggregate_type: String,
    pub aggregate_id: String,
    pub query_type: String,
}

impl QueryId {
    pub fn new(aggregate_type: &str, aggregate_id: &str, query_type: &str) -> (key: Self)
        ensures
            key.id() == (aggregate_type@, aggregate_id@, query_type@),
    {
        QueryId {
            aggregate_type: aggregate_type.to_string(),
            aggregate_id: aggregate_id.to_string(),
            query_type: query_type.to_string(),
        }
    }
}

impl TableKey for QueryId {
    type Id = QueryKey;

    open spec fn id(&self) -> QueryKey {
        (self.aggregate_type@, self.aggregate_id@, self.query_type@)
    }

    fn same(&self, other: &Self) -> (r: bool) {
        self.aggregate_type == other.aggregate_type && self.aggregate_id == other.aggregate_id
            && self.query_type == other.query_type
    }
}

} // verus!
