//! What the operations of a host are for: properties of what goes in and what
//! comes out, stated over the fields of states and records themselves.

pub mod archive;
pub mod bases;
pub mod capture;
pub mod capturing;
pub mod checkpoint;
pub mod commits;
pub mod compaction;
pub mod database;
pub mod fault;
pub mod frames;
pub mod hydration;
pub mod lease;
pub mod publish;
pub mod reconcile;
pub mod records;
pub mod recovery;
pub mod schedule;
pub mod seqs;
pub mod serving;
pub mod state;
pub mod task;
