//! The record that names a volume's holder and its newest archived state.

use crate::types::HostId;
use vstd::prelude::*;

verus! {

/// An archived state of a volume.
#[derive(Clone, Copy, PartialEq, Eq, Hash, Debug, Structural)]
pub struct ManifestPtr {
    pub fence: u64,
    /// Number among the archived states.
    pub seq: u64,
    /// Number of the journal record it was made from.
    pub journal_seq: u64,
    pub capture_seq: u64,
    pub checksum: u64,
}

/// The host that keeps a volume's newest commits beside the holder.
#[derive(Clone, Copy, PartialEq, Eq, Hash, Debug, Structural)]
pub struct StashAssignment {
    pub assignment_epoch: u64,
    pub active_peer: HostId,
    pub active_assignment_epoch: u64,
    pub transition_peer: Option<HostId>,
    pub membership_epoch: u64,
}

/// An earlier assignment whose copies have not been released.
#[derive(Clone, Copy, PartialEq, Eq, Hash, Debug, Structural)]
pub struct RetiredStash {
    pub peer: HostId,
    pub assignment_epoch: u64,
    /// The last commit it holds.
    pub through: ReplicaCommitInfo,
}

/// A commit, as replicas name it.
#[derive(Clone, Copy, PartialEq, Eq, Hash, Debug, Structural)]
pub struct ReplicaCommitInfo {
    pub writer_fence: u64,
    pub seq: u64,
    pub sync_covered_through: u64,
}

impl ReplicaCommitInfo {
    pub open spec fn at_least_spec(self, other: ReplicaCommitInfo) -> bool {
        if self.writer_fence != other.writer_fence {
            self.writer_fence > other.writer_fence
        } else if self.seq != other.seq {
            self.seq > other.seq
        } else {
            self.sync_covered_through >= other.sync_covered_through
        }
    }

    /// Whether this commit is `other` or comes after it: by writer, then by
    /// number, then by what it covers.
    #[verifier::when_used_as_spec(at_least_spec)]
    pub fn at_least(self, other: ReplicaCommitInfo) -> (yes: bool)
        ensures
            yes == self.at_least_spec(other),
    {
        if self.writer_fence != other.writer_fence {
            self.writer_fence > other.writer_fence
        } else if self.seq != other.seq {
            self.seq > other.seq
        } else {
            self.sync_covered_through >= other.sync_covered_through
        }
    }

    pub open spec fn record_before_spec(self, other: ReplicaCommitInfo) -> bool {
        self.writer_fence < other.writer_fence || (self.writer_fence == other.writer_fence
            && self.seq < other.seq)
    }

    /// Whether this commit's record was written before `other`'s.
    #[verifier::when_used_as_spec(record_before_spec)]
    pub fn record_before(self, other: ReplicaCommitInfo) -> (yes: bool)
        ensures
            yes == self.record_before_spec(other),
    {
        self.writer_fence < other.writer_fence || (self.writer_fence == other.writer_fence
            && self.seq < other.seq)
    }
}

/// The holder of a volume and what it has archived.
#[derive(Clone, Debug)]
pub struct HeadRecord {
    pub volume: u64,
    pub holder: HostId,
    pub fence: u64,
    pub manifest: Option<ManifestPtr>,
    pub stash: Option<StashAssignment>,
    pub retired_stashes: Vec<RetiredStash>,
}

impl HeadRecord {
    /// Equal, field by field.
    pub open spec fn same(self, other: HeadRecord) -> bool {
        &&& self.volume == other.volume
        &&& self.holder == other.holder
        &&& self.fence == other.fence
        &&& self.manifest == other.manifest
        &&& self.stash == other.stash
        &&& self.retired_stashes@ == other.retired_stashes@
    }

    pub fn equals(&self, other: &HeadRecord) -> (equal: bool)
        ensures
            equal == self.same(*other),
    {
        if self.volume != other.volume || self.holder != other.holder || self.fence != other.fence
            || self.manifest != other.manifest || self.stash != other.stash {
            return false;
        }
        if self.retired_stashes.len() != other.retired_stashes.len() {
            return false;
        }
        let mut i: usize = 0;
        while i < self.retired_stashes.len()
            invariant
                i <= self.retired_stashes@.len(),
                self.retired_stashes@.len() == other.retired_stashes@.len(),
                forall|a: int|
                    0 <= a < i ==> self.retired_stashes@[a] == other.retired_stashes@[a],
            decreases self.retired_stashes@.len() - i,
        {
            if self.retired_stashes[i] != other.retired_stashes[i] {
                return false;
            }
            i = i + 1;
        }
        proof {
            assert(self.retired_stashes@ =~= other.retired_stashes@);
        }
        true
    }
}

/// A copy of a list of retired assignments.
pub fn copy_retired(stashes: &Vec<RetiredStash>) -> (copy: Vec<RetiredStash>)
    ensures
        copy@ == stashes@,
{
    let mut copy: Vec<RetiredStash> = Vec::new();
    let mut i: usize = 0;
    while i < stashes.len()
        invariant
            i <= stashes@.len(),
            copy@ == stashes@.take(i as int),
        decreases stashes@.len() - i,
    {
        copy.push(stashes[i]);
        i = i + 1;
    }
    copy
}

} // verus!
