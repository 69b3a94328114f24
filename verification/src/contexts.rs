//! The envelopes that carry events, aggregates and projections between the
//! stores, the repository and the dispatchers.

use crate::domain::IEvent;
use std::collections::HashMap;
use vstd::prelude::*;

verus! {

/// Free-form annotations attached once to a commit batch, as a mathematical map.
pub type MetadataView = Map<String, String>;

/// The mathematical value of an [`EventContext`].
pub struct EventContextView<E> {
    pub aggregate_id: Seq<char>,
    pub sequence: usize,
    pub payload: E,
    pub metadata: MetadataView,
}

/// One committed event: the payload with the aggregate it belongs to, its
/// 1-based position in that aggregate's stream, and the batch metadata.
#[derive(Debug, Clone, PartialEq)]
pub struct EventContext<E> {
    pub aggregate_id: String,
    pub sequence: usize,
    pub payload: E,
    pub metadata: HashMap<String, String>,
}

impl<E> View for EventContext<E> {
    type V = EventContextView<E>;

    open spec fn view(&self) -> EventContextView<E> {
        EventContextView {
            aggregate_id: self.aggregate_id@,
            sequence: self.sequence,
            payload: self.payload,
            metadata: self.metadata@,
        }
    }
}

impl<E> EventContext<E> {
    pub fn new(
        aggregate_id: String,
        sequence: usize,
        payload: E,
        metadata: HashMap<String, String>,
    ) -> (context: Self)
        ensures
            context.aggregate_id == aggregate_id,
            context.sequence == sequence,
            context.payload == payload,
            context.metadata == metadata,
    {
        EventContext { aggregate_id, sequence, payload, metadata }
    }
}

impl<E: IEvent> EventContext<E> {
    /// A copy with the same aggregate, position, payload and metadata.
    pub fn duplicate(&self) -> (copy: Self)
        ensures
            copy@ == self@,
    {
        EventContext {
            aggregate_id: self.aggregate_id.clone(),
            sequence: self.sequence,
            payload: self.payload.duplicate(),
            metadata: self.metadata.clone(),
        }
    }
}

/// The mathematical values of a batch of event contexts, in order.
pub open spec fn context_views<E>(contexts: Seq<EventContext<E>>) -> Seq<EventContextView<E>> {
    contexts.map_values(|c: EventContext<E>| c@)
}

/// Whether the sequence numbers of a batch strictly increase.
pub open spec fn strictly_ascending<E>(contexts: Seq<EventContextView<E>>) -> bool {
    forall|i: int, j: int|
        0 <= i < j < contexts.len() ==> (#[trigger] contexts[i]).sequence < (#[trigger] contexts[j]).sequence
}

/// The payloads of a batch, in order.
pub open spec fn payloads_of<E>(contexts: Seq<EventContextView<E>>) -> Seq<E> {
    contexts.map_values(|c: EventContextView<E>| c.payload)
}

/// An aggregate as it was loaded: its state and the sequence number of the
/// last event folded into it (0 when there was none).
#[derive(Debug, Clone, PartialEq)]
pub struct AggregateContext<A> {
    pub aggregate_id: String,
    pub aggregate: A,
    pub current_sequence: usize,
}

impl<A> AggregateContext<A> {
    pub fn new(aggregate_id: String, aggregate: A, current_sequence: usize) -> (context: Self)
        ensures
            context.aggregate_id == aggregate_id,
            context.aggregate == aggregate,
            context.current_sequence == current_sequence,
    {
        AggregateContext { aggregate_id, aggregate, current_sequence }
    }
}

/// A projection as it was loaded: its payload and the number of batches
/// folded into it so far (0 when it was never written).
#[derive(Debug, Clone, PartialEq)]
pub struct QueryContext<Q> {
    pub aggregate_id: String,
    pub version: i64,
    pub payload: Q,
}

impl<Q> QueryContext<Q> {
    pub fn new(aggregate_id: String, version: i64, payload: Q) -> (context: Self)
        ensures
            context.aggregate_id == aggregate_id,
            context.version == version,
            context.payload == payload,
    {
        QueryContext { aggregate_id, version, payload }
    }
}

} // verus!
