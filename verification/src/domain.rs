//! The capabilities the engine needs from the domain layer: events that can
//! be copied, aggregates that fold events and decide commands, and
//! projections that fold committed events.
//!
//! Each executable method is tied to a specification function of the same
//! type, so that the engine's contracts can speak of hydration and
//! projection as mathematical folds.

use crate::contexts::{EventContext, EventContextView};
use vstd::prelude::*;

verus! {

/// A name or a message, as the sequence of its characters.
pub type Text = Seq<char>;

/// The decision on a command: the events to record, in order, or the reason
/// for rejecting it.
pub type Decision<E> = Result<Seq<E>, Text>;

/// A domain fact. The engine stores it, hands it back and passes it on; it
/// only ever needs to copy it.
pub trait IEvent: Sized {
    /// An identical copy of the event.
    fn duplicate(&self) -> (copy: Self)
        ensures
            copy == *self,
    ;
}

/// A domain entity whose state is derived purely from its event history.
pub trait IAggregate: Sized {
    /// The intents this aggregate validates.
    type Command;

    /// The facts this aggregate folds.
    type Event: IEvent;

    /// The name under which this aggregate's rows are stored.
    spec fn spec_aggregate_type() -> Text;

    /// The state before any event.
    spec fn spec_initial() -> Self;

    /// The state after folding one more event.
    spec fn spec_apply(self, event: Self::Event) -> Self;

    /// The decision on a command in this state: the events to record, in
    /// order, or the reason for rejecting it.
    spec fn spec_handle(self, command: Self::Command) -> Decision<Self::Event>;

    fn aggregate_type() -> (name: &'static str)
        ensures
            name@ == Self::spec_aggregate_type(),
    ;

    fn initial() -> (state: Self)
        ensures
            state == Self::spec_initial(),
    ;

    fn apply(&mut self, event: &Self::Event)
        ensures
            *final(self) == old(self).spec_apply(*event),
    ;

    fn handle(&self, command: Self::Command) -> (decision: Result<Vec<Self::Event>, String>)
        ensures
            match decision {
                Ok(events) => self.spec_handle(command) == Ok::<Seq<Self::Event>, Seq<char>>(events@),
                Err(reason) => self.spec_handle(command) == Err::<Seq<Self::Event>, Seq<char>>(reason@),
            },
    ;

    /// An identical copy of the state.
    fn duplicate(&self) -> (copy: Self)
        ensures
            copy == *self,
    ;
}

/// A read model derived from the committed events of one aggregate.
pub trait IQuery<E: IEvent>: Sized {
    /// The name that tells this projection's rows from those of other
    /// projections of the same aggregate.
    spec fn spec_query_type() -> Text;

    /// The projection before any event.
    spec fn spec_initial() -> Self;

    /// The projection after folding one more committed event.
    spec fn spec_update(self, event: EventContextView<E>) -> Self;

    fn query_type() -> (name: &'static str)
        ensures
            name@ == Self::spec_query_type(),
    ;

    fn initial() -> (payload: Self)
        ensures
            payload == Self::spec_initial(),
    ;

    fn update(&mut self, event: &EventContext<E>)
        ensures
            *final(self) == old(self).spec_update(event@),
    ;

    /// An identical copy of the projection.
    fn duplicate(&self) -> (copy: Self)
        ensures
            copy == *self,
    ;
}

/// The aggregate reached from `start` by folding `events` in order.
pub open spec fn replay<A: IAggregate>(start: A, events: Seq<A::Event>) -> A
    decreases events.len(),
{
    if events.len() == 0 {
        start
    } else {
        replay(start, events.drop_last()).spec_apply(events.last())
    }
}

/// The projection reached from `start` by folding `events` in order.
pub open spec fn project<E: IEvent, Q: IQuery<E>>(start: Q, events: Seq<EventContextView<E>>) -> Q
    decreases events.len(),
{
    if events.len() == 0 {
        start
    } else {
        project(start, events.drop_last()).spec_update(events.last())
    }
}

/// Folding a concatenation is folding the first part, then the second.
pub proof fn lemma_replay_concat<A: IAggregate>(start: A, first: Seq<A::Event>, second: Seq<A::Event>)
    ensures
        replay(start, first + second) == replay(replay(start, first), second),
    decreases second.len(),
{
    if second.len() == 0 {
        assert(first + second =~= first);
    } else {
        lemma_replay_concat(start, first, second.drop_last());
        assert((first + second).drop_last() =~= first + second.drop_last());
        assert((first + second).last() == second.last());
    }
}

/// Projecting a concatenation is projecting the first part, then the second.
pub proof fn lemma_project_concat<E: IEvent, Q: IQuery<E>>(
    start: Q,
    first: Seq<EventContextView<E>>,
    second: Seq<EventContextView<E>>,
)
    ensures
        project(start, first + second) == project(project(start, first), second),
    decreases second.len(),
{
    if second.len() == 0 {
        assert(first + second =~= first);
    } else {
        lemma_project_concat(start, first, second.drop_last());
        assert((first + second).drop_last() =~= first + second.drop_last());
        assert((first + second).last() == second.last());
    }
}

} // verus!
