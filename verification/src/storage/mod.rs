//! What the engine requires of a durable backend, and the mathematical
//! state against which those requirements are stated.

pub mod event_log;
pub mod i_event_storage;
pub mod i_query_storage;
pub mod query_table;
