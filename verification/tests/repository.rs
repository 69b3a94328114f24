use std::cell::RefCell;
use std::collections::HashMap;
use std::rc::Rc;

use cqrs_es2::example_impl::{
    AddAddress, AddCustomerName, AddressUpdated, Customer, CustomerCommand, CustomerContactQuery,
    CustomerEvent, EmailUpdated, NameAdded, UpdateEmail,
};
use cqrs_es2::{ICommandHandler, IEventConsumer, IEventHandler};

use cqrs_store::{
    dispatch_all, CustomDispatcher, Decision, Deliveries, Error, ErrorKind, EventContext,
    EventContextView, EventStore, IAggregate, IEvent, IEventDispatcher, IEventStore, IQuery,
    IQueryStorage, MemoryEventStorage, MemoryQueryStorage, QueryContext, QueryStore, QueryTable,
    Repository, Text,
};

#[derive(Debug, Clone, PartialEq)]
struct Event(CustomerEvent);

impl IEvent for Event {
    fn duplicate(&self) -> Self {
        self.clone()
    }
}

#[derive(Debug, Clone, PartialEq, Default)]
struct CustomerAggregate(Customer);

impl IAggregate for CustomerAggregate {
    type Command = CustomerCommand;
    type Event = Event;

    fn spec_aggregate_type() -> Text {
        unreachable!()
    }

    fn spec_initial() -> Self {
        unreachable!()
    }

    fn spec_apply(self, _event: Event) -> Self {
        unreachable!()
    }

    fn spec_handle(self, _command: CustomerCommand) -> Decision<Event> {
        unreachable!()
    }

    fn aggregate_type() -> &'static str {
        <Customer as cqrs_es2::IAggregate<CustomerCommand, CustomerEvent>>::aggregate_type()
    }

    fn initial() -> Self {
        CustomerAggregate(Customer::default())
    }

    fn apply(&mut self, event: &Event) {
        self.0.apply(&event.0)
    }

    fn handle(&self, command: CustomerCommand) -> Result<Vec<Event>, String> {
        match self.0.handle(command) {
            Ok(events) => Ok(events.into_iter().map(Event).collect()),
            Err(e) => Err(e.to_string()),
        }
    }

    fn duplicate(&self) -> Self {
        self.clone()
    }
}

#[derive(Debug, Clone, PartialEq, Default)]
struct ContactQuery(CustomerContactQuery);

impl IQuery<Event> for ContactQuery {
    fn spec_query_type() -> Text {
        unreachable!()
    }

    fn spec_initial() -> Self {
        unreachable!()
    }

    fn spec_update(self, _event: EventContextView<Event>) -> Self {
        unreachable!()
    }

    fn query_type() -> &'static str {
        <CustomerContactQuery as cqrs_es2::IQuery<CustomerCommand, CustomerEvent>>::query_type()
    }

    fn initial() -> Self {
        ContactQuery(CustomerContactQuery::default())
    }

    fn update(&mut self, event: &EventContext<Event>) {
        let outside = cqrs_es2::EventContext::new(
            event.aggregate_id.clone(),
            event.sequence,
            event.payload.0.clone(),
            event.metadata.clone(),
        );
        self.0.update(&outside)
    }

    fn duplicate(&self) -> Self {
        self.clone()
    }
}

/// A query backend that several owners can look into.
#[derive(Clone)]
struct SharedQueryStorage(Rc<RefCell<MemoryQueryStorage<Event, ContactQuery>>>);

impl SharedQueryStorage {
    fn new() -> Self {
        SharedQueryStorage(Rc::new(RefCell::new(MemoryQueryStorage::new())))
    }
}

impl IQueryStorage<Event, ContactQuery> for SharedQueryStorage {
    fn table(&self) -> QueryTable<ContactQuery> {
        unreachable!()
    }

    fn dependable(&self) -> bool {
        unreachable!()
    }

    fn select_query(
        &mut self,
        aggregate_type: &str,
        aggregate_id: &str,
        query_type: &str,
    ) -> Result<Option<(i64, ContactQuery)>, Error> {
        self.0
            .borrow_mut()
            .select_query(aggregate_type, aggregate_id, query_type)
    }

    fn insert_query(
        &mut self,
        aggregate_type: &str,
        aggregate_id: &str,
        query_type: &str,
        version: i64,
        payload: &ContactQuery,
    ) -> Result<(), Error> {
        self.0
            .borrow_mut()
            .insert_query(aggregate_type, aggregate_id, query_type, version, payload)
    }

    fn update_query(
        &mut self,
        aggregate_type: &str,
        aggregate_id: &str,
        query_type: &str,
        version: i64,
        payload: &ContactQuery,
    ) -> Result<(), Error> {
        self.0
            .borrow_mut()
            .update_query(aggregate_type, aggregate_id, query_type, version, payload)
    }
}

type Calls = Rc<RefCell<Vec<(String, Vec<EventContext<Event>>)>>>;

/// Remembers every call in a list that the test keeps a handle on.
struct Recorder(Calls);

impl IEventDispatcher<Event> for Recorder {
    fn deliveries(&self) -> Deliveries<Event> {
        unreachable!()
    }

    fn dispatch(&mut self, aggregate_id: &str, events: &Vec<EventContext<Event>>) -> Result<(), Error> {
        self.0
            .borrow_mut()
            .push((aggregate_id.to_string(), events.clone()));
        Ok(())
    }
}

/// Fails every call, with a failure of its own kind.
struct FailingDispatcher;

impl IEventDispatcher<Event> for FailingDispatcher {
    fn deliveries(&self) -> Deliveries<Event> {
        unreachable!()
    }

    fn dispatch(&mut self, _aggregate_id: &str, _events: &Vec<EventContext<Event>>) -> Result<(), Error> {
        Err(Error::storage("sink is down"))
    }
}

type ThisEventStore = EventStore<CustomerAggregate, MemoryEventStorage<CustomerAggregate>>;

type ThisQueryStore = QueryStore<CustomerAggregate, ContactQuery, SharedQueryStorage>;

type ThisRepository = Repository<CustomerAggregate, ThisEventStore>;

fn add_name(name: &str) -> CustomerCommand {
    CustomerCommand::AddCustomerName(AddCustomerName {
        changed_name: name.to_string(),
    })
}

fn update_email(email: &str) -> CustomerCommand {
    CustomerCommand::UpdateEmail(UpdateEmail {
        new_email: email.to_string(),
    })
}

fn add_address(address: &str) -> CustomerCommand {
    CustomerCommand::AddAddress(AddAddress {
        new_address: address.to_string(),
    })
}

fn name_added(name: &str) -> Event {
    Event(CustomerEvent::NameAdded(NameAdded {
        changed_name: name.to_string(),
    }))
}

fn email_updated(email: &str) -> Event {
    Event(CustomerEvent::EmailUpdated(EmailUpdated {
        new_email: email.to_string(),
    }))
}

fn address_updated(address: &str) -> Event {
    Event(CustomerEvent::AddressUpdated(AddressUpdated {
        new_address: address.to_string(),
    }))
}

fn contact(name: &str, email: &str, latest_address: &str) -> ContactQuery {
    ContactQuery(CustomerContactQuery {
        name: name.to_string(),
        email: email.to_string(),
        latest_address: latest_address.to_string(),
    })
}

fn stamp() -> HashMap<String, String> {
    let mut metadata = HashMap::new();
    metadata.insert("time".to_string(), "2021-03-18T12:32:45.930Z".to_string());
    metadata
}

fn repository(
    with_snapshots: bool,
    dispatchers: Vec<Box<dyn IEventDispatcher<Event>>>,
) -> ThisRepository {
    Repository::new(
        EventStore::new(MemoryEventStorage::new(), with_snapshots),
        dispatchers,
    )
}

#[test]
fn execute_commits_and_informs_every_dispatcher_in_order() {
    for with_snapshots in [false, true] {
        let first: Calls = Rc::new(RefCell::new(vec![]));
        let second: Calls = Rc::new(RefCell::new(vec![]));
        let mut repository = repository(
            with_snapshots,
            vec![Box::new(Recorder(first.clone())), Box::new(Recorder(second.clone()))],
        );

        repository.execute("X", add_name("A")).unwrap();
        repository
            .execute_with_metadata("X", update_email("a@x.com"), stamp())
            .unwrap();

        let expected = vec![
            (
                "X".to_string(),
                vec![EventContext::new("X".to_string(), 1, name_added("A"), HashMap::new())],
            ),
            (
                "X".to_string(),
                vec![EventContext::new("X".to_string(), 2, email_updated("a@x.com"), stamp())],
            ),
        ];
        assert_eq!(*first.borrow(), expected);
        assert_eq!(*second.borrow(), expected);

        let (mut store, dispatchers) = repository.into_parts();
        assert_eq!(dispatchers.len(), 2);
        assert_eq!(
            store.load_events("X", true).unwrap(),
            vec![
                EventContext::new("X".to_string(), 1, name_added("A"), HashMap::new()),
                EventContext::new("X".to_string(), 2, email_updated("a@x.com"), stamp()),
            ]
        );
        let loaded = store.load_aggregate("X").unwrap();
        assert_eq!(loaded.current_sequence, 2);
        assert_eq!(loaded.aggregate.0.name, "A");
        assert_eq!(loaded.aggregate.0.email, "a@x.com");
    }
}

#[test]
fn rejected_command_writes_and_dispatches_nothing() {
    for with_snapshots in [false, true] {
        let calls: Calls = Rc::new(RefCell::new(vec![]));
        let mut repository = repository(with_snapshots, vec![Box::new(Recorder(calls.clone()))]);
        repository.execute("X", add_name("A")).unwrap();

        let error = repository.execute("X", add_name("B")).unwrap_err();
        assert_eq!(error.kind, ErrorKind::Validation);
        assert!(error
            .message()
            .contains("a name has already been added for this customer"));

        assert_eq!(calls.borrow().len(), 1);
        let (mut store, _) = repository.into_parts();
        assert_eq!(store.load_events("X", false).unwrap().len(), 1);
        assert_eq!(store.load_aggregate("X").unwrap().aggregate.0.name, "A");
    }
}

#[test]
fn dispatcher_failure_is_reported_with_the_events_and_the_projection_kept() {
    for with_snapshots in [false, true] {
        let rows = SharedQueryStorage::new();
        let after_failure: Calls = Rc::new(RefCell::new(vec![]));
        let mut repository = repository(
            with_snapshots,
            vec![
                Box::new(ThisQueryStore::new(rows.clone())),
                Box::new(FailingDispatcher),
                Box::new(Recorder(after_failure.clone())),
            ],
        );

        let error = repository.execute("X", add_name("A")).unwrap_err();
        assert_eq!(error.kind, ErrorKind::Dispatch);
        assert_eq!(error.message(), "sink is down");

        // the commit stands
        let (mut store, _) = repository.into_parts();
        assert_eq!(
            store.load_events("X", false).unwrap(),
            vec![EventContext::new("X".to_string(), 1, name_added("A"), HashMap::new())]
        );
        assert_eq!(store.load_aggregate("X").unwrap().current_sequence, 1);

        // the query store in front of the failing dispatcher was updated
        assert_eq!(
            ThisQueryStore::new(rows).load_query("X").unwrap(),
            QueryContext::new("X".to_string(), 1, contact("A", "", ""))
        );

        // the dispatcher behind it was not called
        assert_eq!(after_failure.borrow().len(), 0);
    }
}

#[test]
fn query_store_follows_the_repository() {
    let rows = SharedQueryStorage::new();
    let mut repository = repository(true, vec![Box::new(ThisQueryStore::new(rows.clone()))]);
    repository.execute("X", add_name("A")).unwrap();
    repository.execute("X", update_email("a@x.com")).unwrap();
    repository.execute("X", add_address("one")).unwrap();
    repository.execute("X", add_address("two")).unwrap();
    repository.execute("Y", add_name("B")).unwrap();

    let mut queries = ThisQueryStore::new(rows);
    assert_eq!(
        queries.load_query("X").unwrap(),
        QueryContext::new("X".to_string(), 4, contact("A", "a@x.com", "two"))
    );
    assert_eq!(
        queries.load_query("Y").unwrap(),
        QueryContext::new("Y".to_string(), 1, contact("B", "", ""))
    );
}

#[test]
fn repository_without_dispatchers_only_commits() {
    let mut repository = repository(false, vec![]);
    repository.execute("X", add_name("A")).unwrap();
    let (mut store, dispatchers) = repository.into_parts();
    assert_eq!(dispatchers.len(), 0);
    assert_eq!(store.load_aggregate("X").unwrap().current_sequence, 1);
}

#[test]
fn fan_out_stops_at_the_first_failure() {
    let first: Calls = Rc::new(RefCell::new(vec![]));
    let last: Calls = Rc::new(RefCell::new(vec![]));
    let mut dispatchers: Vec<Box<dyn IEventDispatcher<Event>>> = vec![
        Box::new(Recorder(first.clone())),
        Box::new(FailingDispatcher),
        Box::new(Recorder(last.clone())),
    ];
    let batch = vec![
        EventContext::new("X".to_string(), 1, name_added("A"), stamp()),
        EventContext::new("X".to_string(), 2, address_updated("one"), stamp()),
    ];

    let error = dispatch_all(&mut dispatchers, "X", &batch).unwrap_err();
    assert_eq!(error, Error::dispatch("sink is down"));
    assert_eq!(*first.borrow(), vec![("X".to_string(), batch.clone())]);
    assert_eq!(last.borrow().len(), 0);
    assert_eq!(dispatchers.len(), 3);
}

#[test]
fn fan_out_over_willing_dispatchers_succeeds() {
    let first: Calls = Rc::new(RefCell::new(vec![]));
    let second: Calls = Rc::new(RefCell::new(vec![]));
    let mut dispatchers: Vec<Box<dyn IEventDispatcher<Event>>> =
        vec![Box::new(Recorder(first.clone())), Box::new(Recorder(second.clone()))];
    let batch = vec![EventContext::new("X".to_string(), 1, name_added("A"), stamp())];

    dispatch_all(&mut dispatchers, "X", &batch).unwrap();
    assert_eq!(*first.borrow(), vec![("X".to_string(), batch.clone())]);
    assert_eq!(*second.borrow(), vec![("X".to_string(), batch.clone())]);

    let mut nobody: Vec<Box<dyn IEventDispatcher<Event>>> = vec![];
    dispatch_all(&mut nobody, "X", &batch).unwrap();
}

#[test]
fn custom_dispatcher_collects_what_it_is_handed() {
    let kept = vec![EventContext::new("W".to_string(), 9, name_added("kept"), HashMap::new())];
    let mut dispatcher = CustomDispatcher::new(kept.clone());
    assert_eq!(*dispatcher.events(), kept);

    let batch = vec![
        EventContext::new("X".to_string(), 1, name_added("A"), stamp()),
        EventContext::new("X".to_string(), 2, email_updated("a@x.com"), stamp()),
    ];
    dispatcher.dispatch("X", &batch).unwrap();
    dispatcher.dispatch("X", &vec![]).unwrap();

    let mut expected = kept;
    expected.extend(batch);
    assert_eq!(*dispatcher.events(), expected);
}
