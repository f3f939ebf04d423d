//! Conditions a host cannot continue from.

use vstd::prelude::*;

verus! {

/// A host stops: what it holds can no longer be trusted or served.
#[derive(Clone, Copy, Debug, PartialEq, Eq)]
pub struct HostFatal {
    pub reason: &'static str,
}

impl HostFatal {
    pub fn new(reason: &'static str) -> (fatal: Self)
        ensures
            fatal.reason@ == reason@,
    {
        Self { reason }
    }
}

} // verus!
