//! The sink that receives committed event batches, and the sequential
//! fan-out of one batch over a list of sinks.

use crate::contexts::{context_views, EventContext, EventContextView};
use crate::domain::Text;
use crate::errors::{Error, ErrorKind};
use vstd::prelude::*;

verus! {

/// One call of a dispatcher: the aggregate, the batch it was handed, and
/// the failure it answered with, if it failed.
pub struct Delivery<E> {
    pub aggregate_id: Text,
    pub events: Seq<EventContextView<E>>,
    pub failure: Option<Error>,
}

/// The failure in a dispatcher's answer, if it is one.
pub open spec fn failure_of(outcome: Result<(), Error>) -> Option<Error> {
    match outcome {
        Ok(_) => None,
        Err(e) => Some(e),
    }
}

/// Every call a dispatcher has received so far, oldest first.
pub type Deliveries<E> = Seq<Delivery<E>>;

/// Event dispatchers are usually the query stores: each updates its read
/// model with the events it is handed. A dispatcher is called right after
/// the events were committed, with the committed batch.
pub trait IEventDispatcher<E> {
    /// The calls received so far. It grows by one entry with every call,
    /// whether the dispatcher succeeds or fails.
    spec fn deliveries(&self) -> Deliveries<E>;

    /// Hands the dispatcher a committed batch of one aggregate.
    fn dispatch(&mut self, aggregate_id: &str, events: &Vec<EventContext<E>>) -> (outcome: Result<
        (),
        Error,
    >)
        ensures
            final(self).deliveries() == old(self).deliveries().push(
                Delivery {
                    aggregate_id: aggregate_id@,
                    events: context_views(events@),
                    failure: failure_of(outcome),
                },
            ),
    ;
}

/// Whether the calls `after` are the calls `before` and one more: this
/// batch, accepted or answered with a failure.
pub open spec fn delivered<E>(
    before: Deliveries<E>,
    after: Deliveries<E>,
    aggregate_id: Text,
    batch: Seq<EventContextView<E>>,
    failure: Option<Error>,
) -> bool {
    after == before.push(Delivery { aggregate_id, events: batch, failure })
}

/// Whether dispatcher `i` of the list accepted the batch.
pub open spec fn accepted_at<E>(
    before: Seq<Box<dyn IEventDispatcher<E>>>,
    after: Seq<Box<dyn IEventDispatcher<E>>>,
    i: int,
    aggregate_id: Text,
    batch: Seq<EventContextView<E>>,
) -> bool {
    delivered(before[i].deliveries(), after[i].deliveries(), aggregate_id, batch, None)
}

/// Whether dispatcher `i` of the list was left alone.
pub open spec fn skipped_at<E>(
    before: Seq<Box<dyn IEventDispatcher<E>>>,
    after: Seq<Box<dyn IEventDispatcher<E>>>,
    i: int,
) -> bool {
    after[i] == before[i]
}

/// Whether a fan-out stopped at dispatcher `k`: those before it accepted
/// the batch, it failed, those after it were not called, and `error` is its
/// failure reported as a dispatch error.
pub open spec fn stopped_at<E>(
    before: Seq<Box<dyn IEventDispatcher<E>>>,
    after: Seq<Box<dyn IEventDispatcher<E>>>,
    aggregate_id: Text,
    batch: Seq<EventContextView<E>>,
    k: int,
    error: Error,
) -> bool {
    &&& 0 <= k < before.len()
    &&& forall|i: int| 0 <= i < k ==> #[trigger] accepted_at(before, after, i, aggregate_id, batch)
    &&& forall|i: int| k < i < before.len() ==> #[trigger] skipped_at(before, after, i)
    &&& after[k].deliveries().len() > 0
    &&& after[k].deliveries().last().failure matches Some(cause) && {
        &&& delivered(before[k].deliveries(), after[k].deliveries(), aggregate_id, batch, Some(cause))
        &&& error.kind == ErrorKind::Dispatch
        &&& error.message == cause.message
    }
}

/// What a sequential fan-out of one batch does to a list of dispatchers.
/// It succeeds where every dispatcher accepted the batch, in list order;
/// it fails with the first dispatcher that failed, and skips the rest.
pub open spec fn fanned_out<E>(
    before: Seq<Box<dyn IEventDispatcher<E>>>,
    after: Seq<Box<dyn IEventDispatcher<E>>>,
    aggregate_id: Text,
    batch: Seq<EventContextView<E>>,
    outcome: Result<(), Error>,
) -> bool {
    &&& after.len() == before.len()
    &&& match outcome {
        Ok(_) => forall|i: int|
            0 <= i < before.len() ==> #[trigger] accepted_at(before, after, i, aggregate_id, batch),
        Err(error) => exists|k: int| #[trigger] stopped_at(before, after, aggregate_id, batch, k, error),
    }
}

/// Hands a committed batch to every dispatcher of the list, one after the
/// other. The first failure is returned at once, as a dispatch error with
/// the dispatcher's message, and the dispatchers after it are not called.
pub fn dispatch_all<E>(
    dispatchers: &mut Vec<Box<dyn IEventDispatcher<E>>>,
    aggregate_id: &str,
    events: &Vec<EventContext<E>>,
) -> (outcome: Result<(), Error>)
    ensures
        fanned_out(old(dispatchers)@, final(dispatchers)@, aggregate_id@, context_views(events@), outcome),
{
    let ghost before = dispatchers@;
    let ghost batch = context_views(events@);
    let n: usize = dispatchers.len();
    let mut i: usize = 0;
    while i < n
        invariant
            i <= n,
            n == before.len(),
            dispatchers@.len() == n,
            before == old(dispatchers)@,
            batch == context_views(events@),
            forall|j: int| 0 <= j < i ==> #[trigger] accepted_at(before, dispatchers@, j, aggregate_id@, batch),
            forall|j: int| i <= j < n ==> #[trigger] skipped_at(before, dispatchers@, j),
        decreases n - i,
    {
        let ghost reached = dispatchers@;
        let answer = dispatchers[i].dispatch(aggregate_id, events);
        proof {
            let after = dispatchers@;
            assert forall|j: int| 0 <= j < i implies #[trigger] accepted_at(
                before,
                after,
                j,
                aggregate_id@,
                batch,
            ) by {
                assert(accepted_at(before, reached, j, aggregate_id@, batch));
            }
            assert forall|j: int| i < j < n implies #[trigger] skipped_at(before, after, j) by {
                assert(skipped_at(before, reached, j));
            }
            assert(skipped_at(before, reached, i as int));
        }
        match answer {
            Ok(_) => {
                assert(accepted_at(before, dispatchers@, i as int, aggregate_id@, batch));
            },
            Err(cause) => {
                let error = cause.with_kind(ErrorKind::Dispatch);
                assert(stopped_at(before, dispatchers@, aggregate_id@, batch, i as int, error));
                return Err(error);
            },
        }
        i = i + 1;
    }
    Ok(())
}

} // verus!
