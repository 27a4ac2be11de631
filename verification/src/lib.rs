//! A small verified journal library: dated text entries kept in a local
//! SQLite table, with create / list / fetch / update / delete operations.

pub mod date;
pub mod error;
pub mod store;
pub mod laws;
