//! The hosts of a cluster and how their roster changes.

use crate::types::HostId;
use vstd::prelude::*;

verus! {

/// The roster of a cluster at one epoch.
pub struct ClusterPlacement {
    pub cluster_id: u64,
    pub epoch: u64,
    pub hosts: Vec<HostId>,
}

impl ClusterPlacement {
    /// A cluster and an epoch are named, and the roster lists at least one
    /// host and none twice.
    pub open spec fn valid(self) -> bool {
        &&& self.cluster_id != 0
        &&& self.epoch != 0
        &&& self.hosts@.len() > 0
        &&& self.hosts@.no_duplicates()
    }

    pub fn new(cluster_id: u64, epoch: u64, hosts: Vec<HostId>) -> (placement: Option<
        ClusterPlacement,
    >)
        ensures
            placement matches Some(p) ==> p == (ClusterPlacement { cluster_id, epoch, hosts })
                && p.valid(),
            placement is None ==> !(ClusterPlacement { cluster_id, epoch, hosts }).valid(),
    {
        let placement = ClusterPlacement { cluster_id, epoch, hosts };
        if placement.validate() {
            Some(placement)
        } else {
            None
        }
    }

    pub fn validate(&self) -> (valid: bool)
        ensures
            valid == self.valid(),
    {
        if self.cluster_id == 0 || self.epoch == 0 || self.hosts.len() == 0 {
            return false;
        }
        let mut i: usize = 0;
        while i < self.hosts.len()
            invariant
                i <= self.hosts@.len(),
                forall|a: int, b: int| 0 <= a < b < i ==> self.hosts@[a] != self.hosts@[b],
            decreases self.hosts@.len() - i,
        {
            if contains_host(&self.hosts, i, self.hosts[i]) {
                proof {
                    let a = choose|a: int| 0 <= a < i && self.hosts@[a] == self.hosts@[i as int];
                }
                return false;
            }
            i = i + 1;
        }
        true
    }
}

/// Whether `host` is among the first `end` of `hosts`.
pub fn contains_host(hosts: &Vec<HostId>, end: usize, host: HostId) -> (found: bool)
    requires
        end <= hosts@.len(),
    ensures
        found <==> exists|a: int| 0 <= a < end && hosts@[a] == host,
{
    let mut a: usize = 0;
    while a < end
        invariant
            a <= end <= hosts@.len(),
            forall|b: int| 0 <= b < a ==> hosts@[b] != host,
        decreases end - a,
    {
        if hosts[a].0 == host.0 {
            return true;
        }
        a = a + 1;
    }
    false
}

/// Whether a cluster may go from one roster to another: it stays the same
/// cluster and takes exactly one step.
pub open spec fn placement_follows(previous: ClusterPlacement, next: ClusterPlacement) -> bool {
    &&& next.cluster_id == previous.cluster_id
    &&& next.epoch == previous.epoch + 1
}

pub fn valid_placement_transition(previous: &ClusterPlacement, next: &ClusterPlacement) -> (valid:
    bool)
    ensures
        valid == placement_follows(*previous, *next),
{
    next.cluster_id == previous.cluster_id && previous.epoch < u64::MAX && next.epoch
        == previous.epoch + 1
}

} // verus!
