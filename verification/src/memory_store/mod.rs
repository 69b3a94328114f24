//! Backends that keep everything in memory.

pub mod event_storage;
mod keys;
pub mod query_storage;
mod table;
