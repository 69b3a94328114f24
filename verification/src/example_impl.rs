//! A complete, small domain for the engine to work on: a counter that is
//! added to and reset, with the two projections that show what a fold may
//! and may not assume about the batches it is handed. It documents how
//! the domain capabilities are implemented and serves the tests.

use crate::contexts::{EventContext, EventContextView};
use crate::domain::{project, Decision, IAggregate, IEvent, IQuery, Text};
use vstd::prelude::*;

verus! {

/// What can be asked of a counter.
#[derive(Debug, Clone, Copy, PartialEq, Eq, Structural)]
pub enum CounterCommand {
    /// Add an amount, which must not be zero and must not overflow the total.
    Add(u64),
    /// Set the total back to zero, unless it is zero already.
    Reset,
}

/// What has happened to a counter.
#[derive(Debug, Clone, Copy, PartialEq, Eq, Structural)]
pub enum CounterEvent {
    Added(u64),
    WasReset,
}

impl IEvent for CounterEvent {
    fn duplicate(&self) -> (copy: Self) {
        *self
    }
}

/// The sum of two amounts, held at the largest amount there is.
pub open spec fn capped_sum(total: u64, amount: u64) -> u64 {
    if total + amount <= u64::MAX {
        (total + amount) as u64
    } else {
        u64::MAX
    }
}

fn add_capped(total: u64, amount: u64) -> (sum: u64)
    ensures
        sum == capped_sum(total, amount),
{
    if amount <= u64::MAX - total {
        total + amount
    } else {
        u64::MAX
    }
}

/// A running total.
#[derive(Debug, Clone, Copy, PartialEq, Eq, Structural)]
pub struct Counter {
    pub total: u64,
}

impl IAggregate for Counter {
    type Command = CounterCommand;

    type Event = CounterEvent;

    open spec fn spec_aggregate_type() -> Text {
        "counter"@
    }

    open spec fn spec_initial() -> Self {
        Counter { total: 0 }
    }

    open spec fn spec_apply(self, event: CounterEvent) -> Self {
        match event {
            CounterEvent::Added(amount) => Counter { total: capped_sum(self.total, amount) },
            CounterEvent::WasReset => Counter { total: 0 },
        }
    }

    open spec fn spec_handle(self, command: CounterCommand) -> Decision<CounterEvent> {
        match command {
            CounterCommand::Add(amount) => if amount == 0 {
                Err("there is nothing to add"@)
            } else if self.total + amount > u64::MAX {
                Err("the counter would overflow"@)
            } else {
                Ok(seq![CounterEvent::Added(amount)])
            },
            CounterCommand::Reset => if self.total == 0 {
                Err("the counter is at zero already"@)
            } else {
                Ok(seq![CounterEvent::WasReset])
            },
        }
    }

    fn aggregate_type() -> (name: &'static str) {
        "counter"
    }

    fn initial() -> (state: Self) {
        Counter { total: 0 }
    }

    fn apply(&mut self, event: &CounterEvent) {
        match event {
            CounterEvent::Added(amount) => {
                self.total = add_capped(self.total, *amount);
            },
            CounterEvent::WasReset => {
                self.total = 0;
            },
        }
    }

    fn handle(&self, command: CounterCommand) -> (decision: Result<Vec<CounterEvent>, String>) {
        let event = match command {
            CounterCommand::Add(amount) => {
                if amount == 0 {
                    return Err("there is nothing to add".to_string());
                }
                if amount > u64::MAX - self.total {
                    return Err("the counter would overflow".to_string());
                }
                CounterEvent::Added(amount)
            },
            CounterCommand::Reset => {
                if self.total == 0 {
                    return Err("the counter is at zero already".to_string());
                }
                CounterEvent::WasReset
            },
        };
        let mut events: Vec<CounterEvent> = Vec::new();
        events.push(event);
        assert(events@ =~= seq![event]);
        Ok(events)
    }

    fn duplicate(&self) -> (copy: Self) {
        *self
    }
}

/// The projection that follows the total. Its fold adds, so folding a
/// batch twice counts it twice: it relies on every batch being dispatched
/// once.
#[derive(Debug, Clone, Copy, PartialEq, Eq, Structural)]
pub struct CounterTotal {
    pub total: u64,
}

impl IQuery<CounterEvent> for CounterTotal {
    open spec fn spec_query_type() -> Text {
        "counter_total"@
    }

    open spec fn spec_initial() -> Self {
        CounterTotal { total: 0 }
    }

    open spec fn spec_update(self, event: EventContextView<CounterEvent>) -> Self {
        match event.payload {
            CounterEvent::Added(amount) => CounterTotal { total: capped_sum(self.total, amount) },
            CounterEvent::WasReset => CounterTotal { total: 0 },
        }
    }

    fn query_type() -> (name: &'static str) {
        "counter_total"
    }

    fn initial() -> (payload: Self) {
        CounterTotal { total: 0 }
    }

    fn update(&mut self, event: &EventContext<CounterEvent>) {
        match event.payload {
            CounterEvent::Added(amount) => {
                self.total = add_capped(self.total, amount);
            },
            CounterEvent::WasReset => {
                self.total = 0;
            },
        }
    }

    fn duplicate(&self) -> (copy: Self) {
        *self
    }
}

/// The projection that remembers the last change: the sequence number and
/// the payload of the last event it was handed. Its fold overwrites, so
/// folding a batch again changes nothing.
#[derive(Debug, Clone, Copy, PartialEq, Eq, Structural)]
pub struct LastChange {
    pub sequence: usize,
    pub event: Option<CounterEvent>,
}

impl IQuery<CounterEvent> for LastChange {
    open spec fn spec_query_type() -> Text {
        "last_change"@
    }

    open spec fn spec_initial() -> Self {
        LastChange { sequence: 0, event: None }
    }

    open spec fn spec_update(self, event: EventContextView<CounterEvent>) -> Self {
        LastChange { sequence: event.sequence, event: Some(event.payload) }
    }

    fn query_type() -> (name: &'static str) {
        "last_change"
    }

    fn initial() -> (payload: Self) {
        LastChange { sequence: 0, event: None }
    }

    fn update(&mut self, event: &EventContext<CounterEvent>) {
        self.sequence = event.sequence;
        self.event = Some(event.payload);
    }

    fn duplicate(&self) -> (copy: Self) {
        *self
    }
}

/// Folding a batch onto the last change leaves what its last event says,
/// whatever was there before.
pub proof fn lemma_last_change_is_the_last_event(start: LastChange, batch: Seq<EventContextView<CounterEvent>>)
    requires
        batch.len() > 0,
    ensures
        project(start, batch) == (LastChange {
            sequence: batch.last().sequence,
            event: Some(batch.last().payload),
        }),
{
}

/// The fold of the last change is idempotent on every batch.
pub proof fn law_last_change_refolds_to_itself(start: LastChange, batch: Seq<EventContextView<CounterEvent>>)
    ensures
        project(project(start, batch), batch) == project(start, batch),
{
    if batch.len() > 0 {
        lemma_last_change_is_the_last_event(start, batch);
        lemma_last_change_is_the_last_event(project(start, batch), batch);
    }
}

/// The fold of the total is not idempotent: one event that adds 1, folded
/// twice onto zero, gives 2.
pub proof fn law_counter_total_refold_counts_twice()
    ensures
        ({
            let batch = seq![
                EventContextView {
                    aggregate_id: "X"@,
                    sequence: 1,
                    payload: CounterEvent::Added(1),
                    metadata: Map::empty(),
                },
            ];
            let start = CounterTotal { total: 0 };
            &&& project(start, batch) == (CounterTotal { total: 1 })
            &&& project(project(start, batch), batch) == (CounterTotal { total: 2 })
        }),
{
    let batch = seq![
        EventContextView {
            aggregate_id: "X"@,
            sequence: 1,
            payload: CounterEvent::Added(1),
            metadata: Map::empty(),
        },
    ];
    assert(batch.drop_last() =~= Seq::empty());
    reveal_with_fuel(project, 2);
}

} // verus!
