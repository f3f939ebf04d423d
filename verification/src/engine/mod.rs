//! The storage engine of one host.

pub mod archive;
pub mod authority;
pub mod bases;
pub mod capture;
pub mod capturing;
pub mod checkpoint;
pub mod checksum;
pub mod committing;
pub mod compaction;
pub mod database;
pub mod error;
pub mod fault;
pub mod fetch;
pub mod heads;
pub mod hydration;
pub mod keyed_queue;
pub mod laws;
pub mod lease;
pub mod lineage;
pub mod maps;
pub mod persist;
pub mod publication;
pub mod publish;
pub mod reconcile;
pub mod records;
pub mod recovery;
pub mod schedule;
pub mod serving;
pub mod sources;
pub mod stash;
pub mod state;
pub mod stats;
pub mod task;
pub mod volume;
