//! The durable state of a query backend, as a mathematical value: at most
//! one projection row per aggregate type, aggregate id and query type.

use crate::contexts::EventContextView;
use crate::domain::{project, IEvent, IQuery, Text};
use vstd::prelude::*;

verus! {

/// The address of a projection row: aggregate type, aggregate id, query type.
pub type QueryKey = (Text, Text, Text);

/// Everything a query backend holds: for each row its version and payload.
#[verifier::ext_equal]
pub struct QueryTable<Q> {
    pub rows: Map<QueryKey, (i64, Q)>,
}

impl<Q> QueryTable<Q> {
    /// A backend that holds nothing.
    pub open spec fn empty() -> Self {
        QueryTable { rows: Map::empty() }
    }

    /// The stored row, if there is one.
    pub open spec fn row(self, aggregate_type: Text, aggregate_id: Text, query_type: Text) -> Option<
        (i64, Q),
    > {
        if self.rows.contains_key((aggregate_type, aggregate_id, query_type)) {
            Some(self.rows[(aggregate_type, aggregate_id, query_type)])
        } else {
            None
        }
    }

    /// The table after a row was written or replaced.
    pub open spec fn with_row(
        self,
        aggregate_type: Text,
        aggregate_id: Text,
        query_type: Text,
        version: i64,
        payload: Q,
    ) -> Self {
        QueryTable { rows: self.rows.insert((aggregate_type, aggregate_id, query_type), (version, payload)) }
    }
}

/// What loading a projection yields: the stored row, or the initial
/// projection at version 0 where nothing was stored yet.
pub open spec fn loaded_query<E: IEvent, Q: IQuery<E>>(
    table: QueryTable<Q>,
    aggregate_type: Text,
    aggregate_id: Text,
) -> (i64, Q) {
    match table.row(aggregate_type, aggregate_id, Q::spec_query_type()) {
        Some(row) => row,
        None => (0, Q::spec_initial()),
    }
}

/// The table after a batch was projected onto one row: the batch folded,
/// in order, onto what loading yields, stored under the next version.
pub open spec fn table_after_dispatch<E: IEvent, Q: IQuery<E>>(
    table: QueryTable<Q>,
    aggregate_type: Text,
    aggregate_id: Text,
    batch: Seq<EventContextView<E>>,
) -> QueryTable<Q> {
    let start = loaded_query::<E, Q>(table, aggregate_type, aggregate_id);
    table.with_row(
        aggregate_type,
        aggregate_id,
        Q::spec_query_type(),
        (start.0 + 1) as i64,
        project(start.1, batch),
    )
}

} // verus!
