//! The stores built on the backend interfaces.

pub mod event_store;
pub mod query_store;
