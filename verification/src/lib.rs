//! An event-sourcing persistence and command-execution engine.
//!
//! Aggregates are rebuilt from an append-only, per-aggregate event stream
//! (optionally short-cut by a snapshot), commands are turned into events,
//! the events are committed with gap-free sequence numbers, and every
//! committed batch is handed, in order, to the registered dispatchers.
//!
//! The backends are behind two interfaces, [`IEventStorage`] and
//! [`IQueryStorage`]; the contracts of the stores and of the repository
//! are stated over the mathematical state of those backends, and
//! [`laws`] proves what follows from them for the engine as a whole.
//! [`memory_store`] holds backends that keep everything in memory, and
//! [`example_impl`] a small domain to try the engine on.

pub mod contexts;
pub mod domain;
pub mod errors;
pub mod example_impl;
pub mod laws;
pub mod memory_store;
pub mod repository;
pub mod storage;
pub mod store;

pub use contexts::{AggregateContext, EventContext, EventContextView, QueryContext};
pub use domain::{Decision, IAggregate, IEvent, IQuery, Text};
pub use errors::{Error, ErrorKind};
pub use memory_store::event_storage::MemoryEventStorage;
pub use memory_store::query_storage::MemoryQueryStorage;
pub use repository::dispatchers::CustomDispatcher;
pub use repository::i_event_dispatcher::{dispatch_all, Deliveries, IEventDispatcher};
pub use repository::i_event_store::IEventStore;
pub use repository::repository::Repository;
pub use storage::event_log::EventLog;
pub use storage::i_event_storage::IEventStorage;
pub use storage::i_query_storage::IQueryStorage;
pub use storage::query_table::QueryTable;
pub use store::event_store::{apply_events, EventStore};
pub use store::query_store::QueryStore;
