use std::collections::HashMap;

use cqrs_es2::example_impl::{
    AddressUpdated, Customer, CustomerCommand, CustomerEvent, EmailUpdated, NameAdded,
};
use cqrs_es2::{ICommandHandler, IEventHandler};

use cqrs_store::{
    AggregateContext, Decision, Error, ErrorKind, EventContext, EventLog, EventStore, IAggregate, IEvent,
    IEventStorage, IEventStore, MemoryEventStorage, Text,
};

#[derive(Debug, Clone, PartialEq)]
struct Event(CustomerEvent);

impl IEvent for Event {
    fn duplicate(&self) -> Self {
        self.clone()
    }
}

#[derive(Debug, Clone, PartialEq, Default)]
struct CustomerAggregate(Customer);

impl IAggregate for CustomerAggregate {
    type Command = CustomerCommand;
    type Event = Event;

    fn spec_aggregate_type() -> Text {
        unreachable!()
    }

    fn spec_initial() -> Self {
        unreachable!()
    }

    fn spec_apply(self, _event: Event) -> Self {
        unreachable!()
    }

    fn spec_handle(self, _command: CustomerCommand) -> Decision<Event> {
        unreachable!()
    }

    fn aggregate_type() -> &'static str {
        <Customer as cqrs_es2::IAggregate<CustomerCommand, CustomerEvent>>::aggregate_type()
    }

    fn initial() -> Self {
        CustomerAggregate(Customer::default())
    }

    fn apply(&mut self, event: &Event) {
        self.0.apply(&event.0)
    }

    fn handle(&self, command: CustomerCommand) -> Result<Vec<Event>, String> {
        match self.0.handle(command) {
            Ok(events) => Ok(events.into_iter().map(Event).collect()),
            Err(e) => Err(e.to_string()),
        }
    }

    fn duplicate(&self) -> Self {
        self.clone()
    }
}

type ThisEventStore = EventStore<CustomerAggregate, MemoryEventStorage<CustomerAggregate>>;

type ThisAggregateContext = AggregateContext<CustomerAggregate>;

type ThisEventContext = EventContext<Event>;

pub fn metadata() -> HashMap<String, String> {
    let now = "2021-03-18T12:32:45.930Z".to_string();
    let mut metadata = HashMap::new();
    metadata.insert("time".to_string(), now);
    metadata
}

fn commit_and_load_events(with_snapshots: bool) -> Result<(), cqrs_store::Error> {
    let storage = MemoryEventStorage::new();

    let mut store = ThisEventStore::new(storage, with_snapshots);

    let id = uuid::Uuid::new_v4().to_string();

    // loading nonexisting stream defaults to a vector with zero
    // length
    assert_eq!(0, store.load_events(id.as_str(), false).unwrap().len());

    // loading nonexisting aggregate returns default construction
    let context = store.load_aggregate(id.as_str()).unwrap();

    assert_eq!(
        context,
        ThisAggregateContext::new(id.clone(), CustomerAggregate(Customer::default()), 0)
    );

    // apply a couple of events
    let events = vec![
        Event(CustomerEvent::NameAdded(NameAdded {
            changed_name: "test_event_A".to_string(),
        })),
        Event(CustomerEvent::EmailUpdated(EmailUpdated {
            new_email: "test A".to_string(),
        })),
        Event(CustomerEvent::AddressUpdated(AddressUpdated {
            new_address: "test B".to_string(),
        })),
    ];

    store
        .commit(vec![events[0].clone(), events[1].clone()], context, metadata())
        .unwrap();

    let contexts = store.load_events(id.as_str(), false).unwrap();

    // the stored events are the committed ones
    assert_eq!(
        contexts,
        vec![
            ThisEventContext::new(id.to_string(), 1, events[0].clone(), Default::default()),
            ThisEventContext::new(id.to_string(), 2, events[1].clone(), Default::default()),
        ]
    );

    let context = store.load_aggregate(id.as_str()).unwrap();

    // the stored aggregate reflects them
    assert_eq!(
        context,
        ThisAggregateContext::new(
            id.clone(),
            CustomerAggregate(Customer {
                customer_id: "".to_string(),
                name: "test_event_A".to_string(),
                email: "test A".to_string(),
                addresses: Default::default()
            }),
            2
        )
    );

    store.commit(vec![events[2].clone()], context, metadata()).unwrap();

    let contexts = store.load_events(id.as_str(), false).unwrap();

    // the stored events are the committed ones
    assert_eq!(
        contexts,
        vec![
            ThisEventContext::new(id.to_string(), 1, events[0].clone(), Default::default()),
            ThisEventContext::new(id.to_string(), 2, events[1].clone(), Default::default()),
            ThisEventContext::new(id.to_string(), 3, events[2].clone(), Default::default()),
        ]
    );

    let context = store.load_aggregate(id.as_str()).unwrap();

    // the stored aggregate reflects them
    assert_eq!(
        context,
        ThisAggregateContext::new(
            id.clone(),
            CustomerAggregate(Customer {
                customer_id: "".to_string(),
                name: "test_event_A".to_string(),
                email: "test A".to_string(),
                addresses: vec!["test B".to_string()]
            }),
            3
        )
    );

    Ok(())
}

#[test]
fn test_with_snapshots() {
    commit_and_load_events(true).unwrap();
}

#[test]
fn test_no_snapshots() {
    commit_and_load_events(false).unwrap();
}

fn name_added(name: &str) -> Event {
    Event(CustomerEvent::NameAdded(NameAdded {
        changed_name: name.to_string(),
    }))
}

fn email_updated(email: &str) -> Event {
    Event(CustomerEvent::EmailUpdated(EmailUpdated {
        new_email: email.to_string(),
    }))
}

fn address_updated(address: &str) -> Event {
    Event(CustomerEvent::AddressUpdated(AddressUpdated {
        new_address: address.to_string(),
    }))
}

fn fresh_store(with_snapshots: bool) -> ThisEventStore {
    ThisEventStore::new(MemoryEventStorage::new(), with_snapshots)
}

fn context_at(id: &str, aggregate: Customer, sequence: usize) -> ThisAggregateContext {
    ThisAggregateContext::new(id.to_string(), CustomerAggregate(aggregate), sequence)
}

#[test]
fn unknown_aggregate_loads_as_initial_state() {
    for with_snapshots in [false, true] {
        let mut store = fresh_store(with_snapshots);
        assert_eq!(
            store.load_aggregate("nobody").unwrap(),
            context_at("nobody", Customer::default(), 0)
        );
        assert_eq!(store.load_events("nobody", false).unwrap(), vec![]);
        assert_eq!(store.load_events("nobody", true).unwrap(), vec![]);
    }
}

#[test]
fn committed_batch_is_numbered_after_the_context() {
    for with_snapshots in [false, true] {
        let mut store = fresh_store(with_snapshots);
        let committed = store
            .commit(
                vec![name_added("A"), email_updated("a@x.com"), address_updated("1 Main St")],
                context_at("X", Customer::default(), 0),
                metadata(),
            )
            .unwrap();
        assert_eq!(
            committed,
            vec![
                ThisEventContext::new("X".to_string(), 1, name_added("A"), metadata()),
                ThisEventContext::new("X".to_string(), 2, email_updated("a@x.com"), metadata()),
                ThisEventContext::new("X".to_string(), 3, address_updated("1 Main St"), metadata()),
            ]
        );
    }
}

#[test]
fn two_commits_then_load_reflects_both_events() {
    for with_snapshots in [false, true] {
        let mut store = fresh_store(with_snapshots);

        let context = store.load_aggregate("X").unwrap();
        let first = store.commit(vec![name_added("A")], context, metadata()).unwrap();
        assert_eq!(first.len(), 1);
        assert_eq!(first[0].sequence, 1);

        let context = store.load_aggregate("X").unwrap();
        assert_eq!(context.current_sequence, 1);
        let second = store
            .commit(vec![email_updated("a@x.com")], context, metadata())
            .unwrap();
        assert_eq!(second.len(), 1);
        assert_eq!(second[0].sequence, 2);

        let context = store.load_aggregate("X").unwrap();
        assert_eq!(
            context,
            context_at(
                "X",
                Customer {
                    customer_id: "".to_string(),
                    name: "A".to_string(),
                    email: "a@x.com".to_string(),
                    addresses: vec![],
                },
                2
            )
        );
    }
}

#[test]
fn commit_then_load_with_metadata_round_trips() {
    for with_snapshots in [false, true] {
        let mut store = fresh_store(with_snapshots);
        let context = store.load_aggregate("X").unwrap();
        let committed = store
            .commit(vec![name_added("A"), email_updated("a@x.com")], context, metadata())
            .unwrap();
        assert_eq!(store.load_events("X", true).unwrap(), committed);

        let without: Vec<ThisEventContext> = committed
            .iter()
            .map(|c| {
                ThisEventContext::new(
                    c.aggregate_id.clone(),
                    c.sequence,
                    c.payload.clone(),
                    HashMap::new(),
                )
            })
            .collect();
        assert_eq!(store.load_events("X", false).unwrap(), without);
    }
}

#[test]
fn streams_of_different_aggregates_do_not_mix() {
    let mut store = fresh_store(false);
    let x = store.load_aggregate("X").unwrap();
    store.commit(vec![name_added("A")], x, metadata()).unwrap();
    let y = store.load_aggregate("Y").unwrap();
    store
        .commit(vec![name_added("B"), email_updated("b@y.com")], y, metadata())
        .unwrap();

    assert_eq!(store.load_events("X", false).unwrap().len(), 1);
    assert_eq!(store.load_events("Y", false).unwrap().len(), 2);
    assert_eq!(store.load_aggregate("Y").unwrap().aggregate.0.name, "B");
    assert_eq!(store.load_aggregate("X").unwrap().aggregate.0.name, "A");
}

#[test]
fn empty_batch_commits_nothing() {
    let mut store = fresh_store(false);
    let context = store.load_aggregate("X").unwrap();
    assert_eq!(store.commit(vec![], context, metadata()).unwrap(), vec![]);
    assert_eq!(store.load_events("X", true).unwrap(), vec![]);
    assert_eq!(store.load_aggregate("X").unwrap().current_sequence, 0);
}

#[test]
fn empty_batch_in_snapshot_mode_writes_a_snapshot() {
    let mut store = fresh_store(true);
    let context = context_at(
        "X",
        Customer {
            customer_id: "".to_string(),
            name: "kept".to_string(),
            email: "".to_string(),
            addresses: vec![],
        },
        0,
    );
    assert_eq!(store.commit(vec![], context.clone(), metadata()).unwrap(), vec![]);
    assert_eq!(store.load_aggregate("X").unwrap(), context);
}

#[test]
fn stale_context_is_a_storage_error_and_writes_nothing() {
    for with_snapshots in [false, true] {
        let mut store = fresh_store(with_snapshots);
        let loaded = store.load_aggregate("X").unwrap();
        let stale = loaded.clone();
        store.commit(vec![name_added("A")], loaded, metadata()).unwrap();

        let error = store
            .commit(vec![name_added("B")], stale, metadata())
            .unwrap_err();
        assert_eq!(error.kind, ErrorKind::Storage);
        assert_eq!(
            store.load_events("X", false).unwrap(),
            vec![ThisEventContext::new("X".to_string(), 1, name_added("A"), HashMap::new())]
        );
        assert_eq!(store.load_aggregate("X").unwrap().aggregate.0.name, "A");
    }
}

#[test]
fn failed_commit_leaves_the_prefix_stored() {
    let mut store = fresh_store(false);
    // sequence 3 is taken; 1 and 2 are free
    store
        .commit(
            vec![address_updated("third")],
            context_at("X", Customer::default(), 2),
            metadata(),
        )
        .unwrap();

    // the batch gets 2, 3, 4: the insert of 3 fails after 2 went in
    let error = store
        .commit(
            vec![name_added("second"), email_updated("never"), email_updated("never either")],
            context_at("X", Customer::default(), 1),
            metadata(),
        )
        .unwrap_err();
    assert_eq!(error.kind, ErrorKind::Storage);

    // ascending by sequence number, whatever the order of insertion
    assert_eq!(
        store.load_events("X", false).unwrap(),
        vec![
            ThisEventContext::new("X".to_string(), 2, name_added("second"), HashMap::new()),
            ThisEventContext::new("X".to_string(), 3, address_updated("third"), HashMap::new()),
        ]
    );
}

#[test]
fn snapshot_guard_mismatch_fails_after_the_events_went_in() {
    let mut store = fresh_store(true);
    let error = store
        .commit(
            vec![name_added("A")],
            context_at("X", Customer::default(), 5),
            metadata(),
        )
        .unwrap_err();
    assert_eq!(error.kind, ErrorKind::Storage);
    assert_eq!(
        store.load_events("X", false).unwrap(),
        vec![ThisEventContext::new("X".to_string(), 6, name_added("A"), HashMap::new())]
    );
    // no snapshot was written
    assert_eq!(
        store.load_aggregate("X").unwrap(),
        context_at("X", Customer::default(), 0)
    );
}

#[test]
fn batch_beyond_the_sequence_range_is_refused() {
    for with_snapshots in [false, true] {
        let mut store = fresh_store(with_snapshots);
        let error = store
            .commit(
                vec![name_added("A")],
                context_at("X", Customer::default(), usize::MAX),
                metadata(),
            )
            .unwrap_err();
        assert_eq!(error.kind, ErrorKind::Storage);
        assert_eq!(store.load_events("X", false).unwrap(), vec![]);
    }
}

#[test]
fn last_sequence_number_can_be_committed() {
    let mut store = fresh_store(false);
    let committed = store
        .commit(
            vec![name_added("A")],
            context_at("X", Customer::default(), usize::MAX - 1),
            metadata(),
        )
        .unwrap();
    assert_eq!(committed[0].sequence, usize::MAX);
}

#[test]
fn snapshot_mode_does_not_replay_events_behind_the_snapshot() {
    let mut replaying = fresh_store(false);
    let context = replaying.load_aggregate("X").unwrap();
    replaying.commit(vec![name_added("A")], context, metadata()).unwrap();

    let mut snapshotting = ThisEventStore::new(replaying.into_storage(), true);
    assert_eq!(
        snapshotting.load_aggregate("X").unwrap(),
        context_at("X", Customer::default(), 0)
    );
    assert_eq!(snapshotting.load_events("X", false).unwrap().len(), 1);
}

#[test]
fn snapshot_mode_and_replay_mode_agree_on_the_same_history() {
    let mut snapshotting = fresh_store(true);
    let context = snapshotting.load_aggregate("X").unwrap();
    snapshotting
        .commit(vec![name_added("A"), address_updated("one")], context, metadata())
        .unwrap();
    let context = snapshotting.load_aggregate("X").unwrap();
    snapshotting
        .commit(vec![address_updated("two")], context, metadata())
        .unwrap();
    let from_snapshot = snapshotting.load_aggregate("X").unwrap();

    let mut replaying = ThisEventStore::new(snapshotting.into_storage(), false);
    let from_replay = replaying.load_aggregate("X").unwrap();

    assert_eq!(from_snapshot, from_replay);
    assert_eq!(from_replay.current_sequence, 3);
    assert_eq!(
        from_replay.aggregate.0.addresses,
        vec!["one".to_string(), "two".to_string()]
    );
}

#[test]
fn wrap_events_numbers_and_stamps_the_batch() {
    let store = fresh_store(false);
    let wrapped = store.wrap_events(
        "X",
        41,
        vec![name_added("A"), email_updated("a@x.com")],
        metadata(),
    );
    assert_eq!(
        wrapped,
        vec![
            ThisEventContext::new("X".to_string(), 42, name_added("A"), metadata()),
            ThisEventContext::new("X".to_string(), 43, email_updated("a@x.com"), metadata()),
        ]
    );
    assert_eq!(store.wrap_events("X", 7, vec![], metadata()), vec![]);
}

#[test]
fn memory_storage_keeps_streams_ascending_and_unique() {
    let mut storage: MemoryEventStorage<CustomerAggregate> = MemoryEventStorage::new();
    let none = HashMap::new();
    storage.insert_event("customer", "X", 5, &name_added("five"), &none).unwrap();
    storage.insert_event("customer", "X", 2, &name_added("two"), &metadata()).unwrap();
    storage.insert_event("customer", "X", 9, &name_added("nine"), &none).unwrap();
    storage.insert_event("customer", "X", 3, &name_added("three"), &none).unwrap();

    let error = storage
        .insert_event("customer", "X", 3, &name_added("again"), &none)
        .unwrap_err();
    assert_eq!(error.kind, ErrorKind::Storage);

    assert_eq!(
        storage.select_events_only("customer", "X").unwrap(),
        vec![
            (2, name_added("two")),
            (3, name_added("three")),
            (5, name_added("five")),
            (9, name_added("nine")),
        ]
    );
    assert_eq!(
        storage.select_events_with_metadata("customer", "X").unwrap(),
        vec![
            (2, name_added("two"), metadata()),
            (3, name_added("three"), HashMap::new()),
            (5, name_added("five"), HashMap::new()),
            (9, name_added("nine"), HashMap::new()),
        ]
    );
    // the same id under another aggregate type is another stream
    assert_eq!(storage.select_events_only("order", "X").unwrap(), vec![]);
    storage.insert_event("order", "X", 3, &name_added("other"), &none).unwrap();
    assert_eq!(storage.select_events_only("order", "X").unwrap().len(), 1);
    assert_eq!(storage.select_events_only("customer", "X").unwrap().len(), 4);
}

#[test]
fn memory_storage_guards_snapshot_writes() {
    let mut storage: MemoryEventStorage<CustomerAggregate> = MemoryEventStorage::new();
    let state = CustomerAggregate(Customer::default());
    assert_eq!(storage.select_snapshot("customer", "X").unwrap(), None);

    // nothing stored counts as sequence 0
    let error = storage.update_snapshot("customer", "X", 4, &state, 2).unwrap_err();
    assert_eq!(error.kind, ErrorKind::Storage);
    assert_eq!(storage.select_snapshot("customer", "X").unwrap(), None);

    storage.update_snapshot("customer", "X", 2, &state, 0).unwrap();
    assert_eq!(
        storage.select_snapshot("customer", "X").unwrap(),
        Some((2, state.clone()))
    );

    let error = storage.update_snapshot("customer", "X", 4, &state, 0).unwrap_err();
    assert_eq!(error.kind, ErrorKind::Storage);
    storage.update_snapshot("customer", "X", 4, &state, 2).unwrap();
    assert_eq!(
        storage.select_snapshot("customer", "X").unwrap(),
        Some((4, state.clone()))
    );
    assert_eq!(storage.select_snapshot("customer", "Y").unwrap(), None);
}

#[test]
fn second_commit_against_the_context_of_the_first() {
    let mut store = fresh_store(false);

    let first = store
        .commit(vec![name_added("A")], context_at("X", Customer::default(), 0), metadata())
        .unwrap();
    assert_eq!(
        first,
        vec![ThisEventContext::new("X".to_string(), 1, name_added("A"), metadata())]
    );

    let mut customer = CustomerAggregate(Customer::default());
    customer.apply(&first[0].payload);
    let context = ThisAggregateContext::new(first[0].aggregate_id.clone(), customer, first[0].sequence);
    let second = store
        .commit(vec![email_updated("a@x.com")], context, metadata())
        .unwrap();
    assert_eq!(
        second,
        vec![ThisEventContext::new("X".to_string(), 2, email_updated("a@x.com"), metadata())]
    );

    let loaded = store.load_aggregate("X").unwrap();
    assert_eq!(loaded.current_sequence, 2);
    assert_eq!(loaded.aggregate.0.name, "A");
    assert_eq!(loaded.aggregate.0.email, "a@x.com");
}

/// A backend that loses its connection after a number of writes, and can
/// be told to fail its reads.
struct FlakyStorage {
    inner: MemoryEventStorage<CustomerAggregate>,
    writes_left: usize,
    reads_fail: bool,
}

impl FlakyStorage {
    fn failing_after(writes: usize) -> Self {
        FlakyStorage {
            inner: MemoryEventStorage::new(),
            writes_left: writes,
            reads_fail: false,
        }
    }

    fn write(&mut self) -> Result<(), Error> {
        if self.writes_left == 0 {
            return Err(Error::storage("connection lost"));
        }
        self.writes_left -= 1;
        Ok(())
    }

    fn read(&self) -> Result<(), Error> {
        if self.reads_fail {
            return Err(Error::serialization("row does not decode"));
        }
        Ok(())
    }
}

impl IEventStorage<CustomerAggregate> for FlakyStorage {
    fn log(&self) -> EventLog<CustomerAggregate> {
        unreachable!()
    }

    fn dependable(&self) -> bool {
        unreachable!()
    }

    fn insert_event(
        &mut self,
        aggregate_type: &str,
        aggregate_id: &str,
        sequence: usize,
        payload: &Event,
        metadata: &HashMap<String, String>,
    ) -> Result<(), Error> {
        self.write()?;
        self.inner
            .insert_event(aggregate_type, aggregate_id, sequence, payload, metadata)
    }

    fn select_events_only(
        &mut self,
        aggregate_type: &str,
        aggregate_id: &str,
    ) -> Result<Vec<(usize, Event)>, Error> {
        self.read()?;
        self.inner.select_events_only(aggregate_type, aggregate_id)
    }

    fn select_events_with_metadata(
        &mut self,
        aggregate_type: &str,
        aggregate_id: &str,
    ) -> Result<Vec<(usize, Event, HashMap<String, String>)>, Error> {
        self.read()?;
        self.inner
            .select_events_with_metadata(aggregate_type, aggregate_id)
    }

    fn select_snapshot(
        &mut self,
        aggregate_type: &str,
        aggregate_id: &str,
    ) -> Result<Option<(usize, CustomerAggregate)>, Error> {
        self.read()?;
        self.inner.select_snapshot(aggregate_type, aggregate_id)
    }

    fn update_snapshot(
        &mut self,
        aggregate_type: &str,
        aggregate_id: &str,
        last_sequence: usize,
        payload: &CustomerAggregate,
        expected_prior_sequence: usize,
    ) -> Result<(), Error> {
        self.write()?;
        self.inner.update_snapshot(
            aggregate_type,
            aggregate_id,
            last_sequence,
            payload,
            expected_prior_sequence,
        )
    }
}

type FlakyStore = EventStore<CustomerAggregate, FlakyStorage>;

#[test]
fn backend_failure_in_the_middle_of_a_batch_keeps_the_events_before_it() {
    let mut store = FlakyStore::new(FlakyStorage::failing_after(2), false);
    let error = store
        .commit(
            vec![name_added("A"), email_updated("a@x.com"), address_updated("one")],
            context_at("X", Customer::default(), 0),
            metadata(),
        )
        .unwrap_err();
    assert_eq!(error, Error::storage("connection lost"));
    assert_eq!(
        store.load_events("X", true).unwrap(),
        vec![
            ThisEventContext::new("X".to_string(), 1, name_added("A"), metadata()),
            ThisEventContext::new("X".to_string(), 2, email_updated("a@x.com"), metadata()),
        ]
    );
}

#[test]
fn backend_failure_on_the_snapshot_keeps_the_whole_batch() {
    let mut store = FlakyStore::new(FlakyStorage::failing_after(2), true);
    let error = store
        .commit(
            vec![name_added("A"), email_updated("a@x.com")],
            context_at("X", Customer::default(), 0),
            metadata(),
        )
        .unwrap_err();
    assert_eq!(error, Error::storage("connection lost"));
    assert_eq!(store.load_events("X", false).unwrap().len(), 2);
    // the snapshot was not written: the aggregate loads as it did before
    assert_eq!(
        store.load_aggregate("X").unwrap(),
        context_at("X", Customer::default(), 0)
    );
}

#[test]
fn backend_failure_on_a_read_is_passed_on() {
    for with_snapshots in [false, true] {
        let mut storage = FlakyStorage::failing_after(0);
        storage.reads_fail = true;
        let mut store = FlakyStore::new(storage, with_snapshots);
        assert_eq!(
            store.load_aggregate("X").unwrap_err(),
            Error::serialization("row does not decode")
        );
        assert_eq!(
            store.load_events("X", false).unwrap_err().kind,
            ErrorKind::Serialization
        );
        assert_eq!(
            store.load_events("X", true).unwrap_err().kind,
            ErrorKind::Serialization
        );
    }
}
