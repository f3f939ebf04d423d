//! What the object store and the local blob device can answer.

use vstd::prelude::*;

verus! {

#[derive(Clone, Copy, Debug, PartialEq, Eq, Structural)]
pub enum StoreFault {
    Unavailable,
    /// The object is not at the version the writer expected.
    CasConflict { actual: Option<u64> },
}

#[derive(Clone, Copy, Debug, PartialEq, Eq, Structural)]
pub enum StoreError {
    Fault(StoreFault),
    TooLarge,
}

#[derive(Clone, Copy, Debug, PartialEq, Eq, Structural)]
pub enum BlobError {
    Full,
    Io,
}

} // verus!
