//! A dispatcher that keeps what it is handed.

use crate::contexts::{context_views, EventContext, EventContextView};
use crate::domain::IEvent;
use crate::errors::Error;
use crate::repository::i_event_dispatcher::{failure_of, Deliveries, Delivery, IEventDispatcher};
use vstd::prelude::*;

verus! {

/// Collects every event it is handed, in the order of arrival. It never
/// fails.
pub struct CustomDispatcher<E: IEvent> {
    events: Vec<EventContext<E>>,
    received: Ghost<Deliveries<E>>,
}

impl<E: IEvent> CustomDispatcher<E> {
    /// The events collected so far, as mathematical values.
    pub closed spec fn collected(&self) -> Seq<EventContextView<E>> {
        context_views(self.events@)
    }

    /// A dispatcher that adds to the given list of events.
    pub fn new(events: Vec<EventContext<E>>) -> (dispatcher: Self)
        ensures
            dispatcher.collected() == context_views(events@),
            dispatcher.deliveries() == Seq::<Delivery<E>>::empty(),
    {
        CustomDispatcher { events, received: Ghost(Seq::empty()) }
    }

    /// The events collected so far.
    pub fn events(&self) -> (events: &Vec<EventContext<E>>)
        ensures
            context_views(events@) == self.collected(),
    {
        &self.events
    }
}

impl<E: IEvent> IEventDispatcher<E> for CustomDispatcher<E> {
    closed spec fn deliveries(&self) -> Deliveries<E> {
        self.received@
    }

    /// Appends a copy of every event of the batch, in order.
    fn dispatch(&mut self, aggregate_id: &str, events: &Vec<EventContext<E>>) -> (outcome: Result<
        (),
        Error,
    >)
        ensures
            outcome is Ok,
            final(self).collected() == old(self).collected() + context_views(events@),
    {
        let ghost before = self.collected();
        let ghost batch = context_views(events@);
        let mut i: usize = 0;
        while i < events.len()
            invariant
                i <= events.len(),
                batch == context_views(events@),
                self.received == old(self).received,
                self.collected() == before + batch.take(i as int),
            decreases events.len() - i,
        {
            let ghost kept = self.events@;
            let copy = events[i].duplicate();
            assert(copy@ == batch[i as int]);
            self.events.push(copy);
            assert(context_views(self.events@) =~= context_views(kept).push(copy@));
            assert(self.collected() =~= before + batch.take(i + 1));
            i = i + 1;
        }
        assert(batch.take(events.len() as int) =~= batch);
        let outcome: Result<(), Error> = Ok(());
        proof {
            self.received@ = self.received@.push(
                Delivery { aggregate_id: aggregate_id@, events: batch, failure: failure_of(outcome) },
            );
        }
        outcome
    }
}

} // verus!
