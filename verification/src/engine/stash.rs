//! Which host keeps a volume's newest commits beside its holder.

use super::state::ReplicaRelease;
use super::volume::VolumeState;
use crate::head::StashAssignment;
use crate::protocol::{AdminError, AdminResult, AdminSuccess};
use crate::types::HostId;
use vstd::prelude::*;
use vstd::seq_lib::{group_to_multiset_ensures, to_multiset_insert};

verus! {

/// A host that may keep commits of other hosts.
#[derive(Clone, Copy, PartialEq, Eq, Debug, Structural)]
pub struct PeerCandidate {
    pub host: HostId,
    pub failure_domain: u16,
    pub drained: bool,
    /// The host's weighted draw for the volume; every host of a roster computes
    /// the same.
    pub score: u64,
}

impl PeerCandidate {
    /// The candidate comes first: the higher draw, and of equal draws the lower
    /// number.
    pub open spec fn before_spec(self, other: PeerCandidate) -> bool {
        self.score > other.score || (self.score == other.score && self.host.0 < other.host.0)
    }

    #[verifier::when_used_as_spec(before_spec)]
    pub fn before(self, other: PeerCandidate) -> (first: bool)
        ensures
            first == self.before_spec(other),
    {
        self.score > other.score || (self.score == other.score && self.host.0 < other.host.0)
    }

    pub open spec fn eligible_spec(self, source: HostId, failure_domain: u16) -> bool {
        self.host != source && self.failure_domain != failure_domain && !self.drained
    }

    /// Whether the candidate can keep what `source` commits: another host that
    /// does not fail together with it and is not being emptied.
    #[verifier::when_used_as_spec(eligible_spec)]
    pub fn eligible(self, source: HostId, failure_domain: u16) -> (yes: bool)
        ensures
            yes == self.eligible_spec(source, failure_domain),
    {
        self.host.0 != source.0 && self.failure_domain != failure_domain && !self.drained
    }
}

/// The candidates that can keep what `source` commits.
pub open spec fn eligible_candidates(
    roster: Seq<PeerCandidate>,
    source: HostId,
    failure_domain: u16,
) -> Seq<PeerCandidate> {
    roster.filter(|c: PeerCandidate| c.eligible(source, failure_domain))
}

/// Best candidate first.
pub open spec fn ranked(list: Seq<PeerCandidate>) -> bool {
    forall|i: int, j: int| 0 <= i < j < list.len() ==> !list[j].before(list[i])
}

/// Ranks the candidates that can keep what `source` commits.
pub fn rank_stash_candidates(
    roster: &Vec<PeerCandidate>,
    source: HostId,
    failure_domain: u16,
) -> (list: Vec<PeerCandidate>)
    ensures
        ranked(list@),
        list@.to_multiset() == eligible_candidates(
            roster@,
            source,
            failure_domain,
        ).to_multiset(),
        list@.len() == eligible_candidates(roster@, source, failure_domain).len(),
{
    let mut list: Vec<PeerCandidate> = Vec::new();
    let mut i: usize = 0;
    proof {
        reveal(Seq::filter);
        assert(roster@.take(0) =~= Seq::<PeerCandidate>::empty());
    }
    while i < roster.len()
        invariant
            i <= roster@.len(),
            ranked(list@),
            list@.to_multiset() == eligible_candidates(
                roster@.take(i as int),
                source,
                failure_domain,
            ).to_multiset(),
        decreases roster@.len() - i,
    {
        let candidate: PeerCandidate = roster[i];
        let ghost shorter = eligible_candidates(roster@.take(i as int), source, failure_domain);
        proof {
            reveal(Seq::filter);
            assert(roster@.take(i + 1).drop_last() =~= roster@.take(i as int));
        }
        if candidate.eligible(source, failure_domain) {
            let ghost before = list@;
            let mut at: usize = 0;
            while at < list.len() && !candidate.before(list[at])
                invariant
                    at <= list@.len(),
                    list@ == before,
                    forall|a: int| 0 <= a < at ==> !candidate.before(#[trigger] list@[a]),
                decreases list@.len() - at,
            {
                at = at + 1;
            }
            list.insert(at, candidate);
            proof {
                assert(list@ =~= before.insert(at as int, candidate));
                to_multiset_insert(before, at as int, candidate);
                broadcast use group_to_multiset_ensures;

                assert(shorter.push(candidate).to_multiset() =~= shorter.to_multiset().insert(
                    candidate,
                ));
                lemma_still_ranked(before, at as int, candidate);
            }
        }
        i = i + 1;
    }
    proof {
        assert(roster@.take(i as int) =~= roster@);
        broadcast use group_to_multiset_ensures;

        assert(list@.len() == list@.to_multiset().len());
    }
    list
}

proof fn lemma_still_ranked(before: Seq<PeerCandidate>, at: int, candidate: PeerCandidate)
    requires
        ranked(before),
        0 <= at <= before.len(),
        forall|a: int| 0 <= a < at ==> !candidate.before(#[trigger] before[a]),
        at < before.len() ==> candidate.before(before[at]),
    ensures
        ranked(before.insert(at, candidate)),
{
    let after = before.insert(at, candidate);
    assert forall|i: int, j: int| 0 <= i < j < after.len() implies !after[j].before(after[i]) by {
        let old_i = if i < at {
            i
        } else {
            i - 1
        };
        let old_j = if j < at {
            j
        } else {
            j - 1
        };
        if i == at {
            // Everything behind is not before what the candidate is before.
            assert(after[j] == before[old_j]);
            if old_j > at {
                assert(!before[old_j].before(before[at]));
            }
        } else if j == at {
            assert(after[i] == before[old_i]);
        } else {
            assert(after[i] == before[old_i] && after[j] == before[old_j]);
            assert(!before[old_j].before(before[old_i]));
        }
    }
}

/// The keeper of an assignment: the candidates take turns.
pub open spec fn keeper_spec(list: Seq<PeerCandidate>, assignment_epoch: u64) -> Option<HostId> {
    if list.len() == 0 || assignment_epoch == 0 {
        None
    } else {
        Some(list[((assignment_epoch - 1) as int) % (list.len() as int)].host)
    }
}

pub fn keeper(list: &Vec<PeerCandidate>, assignment_epoch: u64) -> (host: Option<HostId>)
    ensures
        host == keeper_spec(list@, assignment_epoch),
{
    if list.len() == 0 || assignment_epoch == 0 {
        None
    } else {
        let turn: u64 = (assignment_epoch - 1) % (list.len() as u64);
        Some(list[turn as usize].host)
    }
}

/// Whether `host` may keep commits under an assignment.
pub fn keeper_authorized(list: &Vec<PeerCandidate>, assignment_epoch: u64, host: HostId) -> (yes: bool)
    ensures
        yes == (keeper_spec(list@, assignment_epoch) == Some(host)),
{
    match keeper(list, assignment_epoch) {
        Some(found) => found.0 == host.0,
        None => false,
    }
}

/// No two hosts may keep commits under the same assignment.
pub proof fn one_keeper_per_assignment(
    list: Seq<PeerCandidate>,
    assignment_epoch: u64,
    a: HostId,
    b: HostId,
)
    requires
        keeper_spec(list, assignment_epoch) == Some(a),
        keeper_spec(list, assignment_epoch) == Some(b),
    ensures
        a == b,
{
}

/// The assignment a volume starts with.
pub open spec fn first_assignment(peer: HostId, membership_epoch: u64) -> StashAssignment {
    StashAssignment {
        assignment_epoch: 1,
        active_peer: peer,
        active_assignment_epoch: 1,
        transition_peer: None,
        membership_epoch,
    }
}

/// The first keeper of a volume, if there is any candidate.
pub fn initial_stash(list: &Vec<PeerCandidate>, membership_epoch: u64) -> (stash: Option<
    StashAssignment,
>)
    ensures
        stash == (if list@.len() == 0 {
            None
        } else {
            Some(first_assignment(list@[0].host, membership_epoch))
        }),
{
    if list.len() == 0 {
        None
    } else {
        Some(
            StashAssignment {
                assignment_epoch: 1,
                active_peer: list[0].host,
                active_assignment_epoch: 1,
                transition_peer: None,
                membership_epoch,
            },
        )
    }
}

/// A host that may keep commits of others.
#[derive(Clone, Copy, PartialEq, Eq, Debug, Structural)]
pub struct RosterMember {
    pub host: HostId,
    pub weight: u64,
    pub failure_domain: u16,
    pub drained: bool,
}

/// The hosts that may keep commits, as of one change of the membership.
pub struct ReplicaPlacement {
    pub membership_epoch: u64,
    pub roster: Vec<RosterMember>,
}

/// The placement a host goes by, and those it went by before, oldest first.
/// Assignments that were made under an earlier one are still judged by it.
pub struct ReplicaPlacements {
    pub current: Option<ReplicaPlacement>,
    pub history: Vec<ReplicaPlacement>,
}

impl ReplicaPlacements {
    /// All placements, the newest last.
    pub open spec fn all(self) -> Seq<ReplicaPlacement> {
        match self.current {
            Some(current) => self.history@.push(current),
            None => self.history@,
        }
    }

    /// Later placements are of later changes.
    pub open spec fn wf(self) -> bool {
        forall|i: int, j: int|
            0 <= i < j < self.all().len() ==> (#[trigger] self.all()[i]).membership_epoch < (
            #[trigger] self.all()[j]).membership_epoch
    }

    pub fn new(current: Option<ReplicaPlacement>) -> (placements: ReplicaPlacements)
        ensures
            placements.current == current,
            placements.history@ == Seq::<ReplicaPlacement>::empty(),
            placements.wf(),
    {
        ReplicaPlacements { current, history: Vec::new() }
    }

    /// Goes by a newer placement from now on, and keeps the one before.
    pub fn update(&mut self, next: ReplicaPlacement) -> (result: AdminResult)
        requires
            old(self).wf(),
            forall|i: int|
                0 <= i < old(self).all().len() ==> (#[trigger] old(
                    self,
                ).all()[i]).membership_epoch < next.membership_epoch,
        ensures
            final(self).wf(),
            final(self).current == Some(next),
            final(self).history@ == old(self).all(),
            result == Ok::<AdminSuccess, AdminError>(AdminSuccess::ReplicaPlacementUpdated),
    {
        let before: Option<ReplicaPlacement> = self.current.take();
        if let Some(before) = before {
            self.history.push(before);
        }
        self.current = Some(next);
        proof {
            assert(self.history@ =~= old(self).all());
            assert(self.all() =~= old(self).all().push(next));
        }
        Ok(AdminSuccess::ReplicaPlacementUpdated)
    }

    /// Whether a placement of this change would be newer than all that are known.
    pub fn is_newer(&self, membership_epoch: u64) -> (newer: bool)
        ensures
            newer == forall|i: int|
                0 <= i < self.all().len() ==> (#[trigger] self.all()[i]).membership_epoch
                    < membership_epoch,
    {
        if let Some(current) = &self.current {
            if current.membership_epoch >= membership_epoch {
                proof {
                    assert(self.all()[self.history@.len() as int].membership_epoch
                        >= membership_epoch);
                }
                return false;
            }
        }
        let mut i: usize = 0;
        while i < self.history.len()
            invariant
                i <= self.history@.len(),
                forall|a: int|
                    0 <= a < i ==> (#[trigger] self.all()[a]).membership_epoch < membership_epoch,
            decreases self.history@.len() - i,
        {
            proof {
                assert(self.all()[i as int] == self.history@[i as int]);
            }
            if self.history[i].membership_epoch >= membership_epoch {
                return false;
            }
            i = i + 1;
        }
        true
    }

    /// The placement of this change, if it is known.
    pub fn of_membership(&self, membership_epoch: u64) -> (found: Option<&ReplicaPlacement>)
        ensures
            match found {
                Some(placement) => placement.membership_epoch == membership_epoch
                    && self.all().contains(*placement),
                None => forall|i: int|
                    0 <= i < self.all().len() ==> (#[trigger] self.all()[i]).membership_epoch
                        != membership_epoch,
            },
    {
        if let Some(current) = &self.current {
            if current.membership_epoch == membership_epoch {
                proof {
                    assert(self.all()[self.history@.len() as int] == *current);
                }
                return Some(current);
            }
        }
        let mut i: usize = 0;
        while i < self.history.len()
            invariant
                i <= self.history@.len(),
                forall|a: int|
                    0 <= a < i ==> (#[trigger] self.all()[a]).membership_epoch
                        != membership_epoch,
            decreases self.history@.len() - i,
        {
            proof {
                assert(self.all()[i as int] == self.history@[i as int]);
            }
            if self.history[i].membership_epoch == membership_epoch {
                return Some(&self.history[i]);
            }
            i = i + 1;
        }
        None
    }
}

/// An update takes nothing back: every placement that was known still is, and
/// the new one is the current one.
pub proof fn updates_keep_earlier_placements(
    before: ReplicaPlacements,
    after: ReplicaPlacements,
    next: ReplicaPlacement,
    i: int,
)
    requires
        after.current == Some(next),
        after.history@ == before.all(),
        0 <= i < before.all().len(),
    ensures
        after.all().contains(before.all()[i]),
        after.all().last() == next,
{
    assert(after.all()[i] == before.all()[i]);
}

/// What the active keeper can give up: everything that is archived.
pub fn published_release(state: &VolumeState, volume: u64) -> (release: Option<ReplicaRelease>)
    ensures
        release == (match (state.stash_assignment, state.peer_published) {
            (Some(stash), Some(through)) => Some(
                ReplicaRelease {
                    peer: stash.active_peer,
                    volume,
                    assignment_epoch: stash.active_assignment_epoch,
                    through,
                },
            ),
            _ => None,
        }),
{
    match (state.stash_assignment, state.peer_published) {
        (Some(stash), Some(through)) => Some(
            ReplicaRelease {
                peer: stash.active_peer,
                volume,
                assignment_epoch: stash.active_assignment_epoch,
                through,
            },
        ),
        _ => None,
    }
}

} // verus!
