//! Identifiers shared by every part of the engine.

use vstd::prelude::*;

verus! {

/// A set of volumes that is captured, published and restored as one unit.
#[derive(Clone, Copy, PartialEq, Eq, PartialOrd, Ord, Hash, Debug, Structural)]
pub struct VsetId(pub u64);

/// A guest virtual machine, as the host identifies it.
#[derive(Clone, Copy, PartialEq, Eq, PartialOrd, Ord, Hash, Debug, Structural)]
pub struct VmId(pub u64);

/// Correlates one request with its reply.
#[derive(Clone, Copy, PartialEq, Eq, PartialOrd, Ord, Hash, Debug, Structural)]
pub struct ReqId(pub u64);

/// One host of the cluster.
#[derive(Clone, Copy, PartialEq, Eq, PartialOrd, Ord, Hash, Debug, Structural)]
pub struct HostId(pub u16);

/// Position of a volume inside its vset.
#[derive(Clone, Copy, PartialEq, Eq, PartialOrd, Ord, Hash, Debug, Structural)]
pub struct VolumeIdx(pub u8);

#[derive(Clone, Copy, PartialEq, Eq, PartialOrd, Ord, Hash, Debug, Structural)]
pub struct VolumeId {
    pub vset: VsetId,
    pub idx: VolumeIdx,
}

/// Page number inside one volume.
#[derive(Clone, Copy, PartialEq, Eq, PartialOrd, Ord, Hash, Debug, Structural)]
pub struct PageNo(pub u32);

#[derive(Clone, Copy, PartialEq, Eq, PartialOrd, Ord, Hash, Debug, Structural)]
pub struct PageId {
    pub volume: VolumeId,
    pub page: PageNo,
}

} // verus!
