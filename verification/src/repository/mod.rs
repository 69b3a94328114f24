//! Command execution: the interfaces of the event store and of the
//! dispatchers, and the repository that drives them.

pub mod dispatchers;
pub mod i_event_dispatcher;
pub mod i_event_store;
pub mod repository;
