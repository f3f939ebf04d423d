//! Durable block-volume engine: typed records, a bounded guest protocol for
//! `SQLite` files, and the decision procedures of the storage daemon.
//!
//! Everything here is pure: a function reads the state it is given and either
//! changes it or returns what the surrounding runtime has to do next. Reading
//! and writing blobs, talking to the object store and waiting are left to the
//! runtime.

pub mod arith;
pub mod authority;
pub mod database;
pub mod dbproto;
pub mod engine;
pub mod format;
pub mod head;
pub mod journal;
pub mod manifest;
pub mod objects;
pub mod placement;
pub mod protocol;
pub mod store;
pub mod types;
