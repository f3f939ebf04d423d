//! Taking and moving the head of a volume in the object store.
//!
//! The store may lose an answer: a write that was reported as failed can have
//! happened. Each procedure therefore reads back what is there before it
//! decides.

use super::state::{follows, Counters, HostState};
use super::volume::VolumeState;
use crate::head::{copy_retired, HeadRecord, ManifestPtr, RetiredStash, StashAssignment};
use crate::store::{StoreError, StoreFault};
use crate::types::HostId;
use vstd::prelude::*;

verus! {

broadcast use vstd::std_specs::btree::group_btree_axioms;

/// A head as it was read: its version, and the record if the bytes are one.
#[derive(Clone, Debug)]
pub struct FoundHead {
    pub version: u64,
    pub record: Option<HeadRecord>,
}

// ---------------------------------------------------------------------------
// The first head
// ---------------------------------------------------------------------------

/// The head of a volume that has not been archived.
pub open spec fn is_new_head(
    head: HeadRecord,
    volume: u64,
    holder: HostId,
    stash: Option<StashAssignment>,
) -> bool {
    &&& head.volume == volume
    &&& head.holder == holder
    &&& head.fence == 0
    &&& head.manifest is None
    &&& head.stash == stash
    &&& head.retired_stashes@ == Seq::<RetiredStash>::empty()
}

pub fn new_head(volume: u64, holder: HostId, stash: Option<StashAssignment>) -> (head: HeadRecord)
    ensures
        is_new_head(head, volume, holder, stash),
{
    HeadRecord { volume, holder, fence: 0, manifest: None, stash, retired_stashes: Vec::new() }
}

#[derive(Clone, Copy, PartialEq, Eq, Debug, Structural)]
pub enum ClaimStep {
    /// The head is this host's, at this version.
    Claimed(u64),
    /// The head is not this host's.
    Refused,
    /// Read what is there; `lost` if the answer to the write got lost.
    ReadBack { lost: bool },
    /// Wait, then write again.
    Retry,
}

pub open spec fn claim_written_step(outcome: Result<u64, StoreError>) -> ClaimStep {
    match outcome {
        Ok(version) => ClaimStep::Claimed(version),
        Err(StoreError::Fault(StoreFault::CasConflict { .. })) => ClaimStep::ReadBack {
            lost: false,
        },
        Err(StoreError::Fault(StoreFault::Unavailable)) => ClaimStep::ReadBack { lost: true },
        Err(StoreError::TooLarge) => ClaimStep::Refused,
    }
}

/// What follows the write of a new head.
pub fn claim_written(counters: &mut Counters, outcome: Result<u64, StoreError>) -> (step: ClaimStep)
    requires
        old(counters).room(1),
    ensures
        step == claim_written_step(outcome),
        *final(counters) == (match step {
            ClaimStep::ReadBack { lost: false } => Counters {
                assignment_claim_conflicts: (old(counters).assignment_claim_conflicts + 1) as u64,
                ..*old(counters)
            },
            ClaimStep::ReadBack { lost: true } => Counters {
                store_retries: (old(counters).store_retries + 1) as u64,
                ..*old(counters)
            },
            _ => *old(counters),
        }),
{
    match outcome {
        Ok(version) => ClaimStep::Claimed(version),
        Err(StoreError::Fault(StoreFault::CasConflict { .. })) => {
            counters.assignment_claim_conflicts = counters.assignment_claim_conflicts + 1;
            ClaimStep::ReadBack { lost: false }
        },
        Err(StoreError::Fault(StoreFault::Unavailable)) => {
            counters.store_retries = counters.store_retries + 1;
            ClaimStep::ReadBack { lost: true }
        },
        Err(StoreError::TooLarge) => ClaimStep::Refused,
    }
}

/// The head that is there is the one this host wanted to write.
pub open spec fn claim_is_ours(found: FoundHead, host: HostId, stash: Option<StashAssignment>) ->
    bool {
    match found.record {
        Some(head) => head.holder == host && head.fence == 0 && head.manifest is None && head.stash
            == stash,
        None => false,
    }
}

fn is_ours(found: &FoundHead, host: HostId, stash: Option<StashAssignment>) -> (ours: bool)
    ensures
        ours == claim_is_ours(*found, host, stash),
{
    match &found.record {
        Some(head) => head.holder == host && head.fence == 0 && head.manifest.is_none()
            && head.stash == stash,
        None => false,
    }
}

pub open spec fn claim_read_step(
    host: HostState,
    volume: u64,
    incarnation: u64,
    stash: Option<StashAssignment>,
    lost: bool,
    found: Result<Option<FoundHead>, StoreError>,
) -> ClaimStep {
    match found {
        Ok(Some(found)) => if claim_is_ours(found, host.host, stash) && (!lost
            || host.volume_at_spec(volume, incarnation) is Some) {
            ClaimStep::Claimed(found.version)
        } else {
            ClaimStep::Refused
        },
        Ok(None) => if lost {
            ClaimStep::Retry
        } else {
            ClaimStep::Refused
        },
        Err(error) => if lost && error == StoreError::Fault(StoreFault::Unavailable) {
            ClaimStep::Retry
        } else {
            ClaimStep::Refused
        },
    }
}

/// What follows from the head that was read back.
pub fn claim_read(
    host: &HostState,
    volume: u64,
    incarnation: u64,
    stash: Option<StashAssignment>,
    lost: bool,
    found: Result<Option<FoundHead>, StoreError>,
) -> (step: ClaimStep)
    ensures
        step == claim_read_step(*host, volume, incarnation, stash, lost, found),
{
    match found {
        Ok(Some(found)) => {
            let ours: bool = is_ours(&found, host.host, stash);
            let here: bool = host.volume_at(volume, incarnation).is_some();
            if ours && (!lost || here) {
                ClaimStep::Claimed(found.version)
            } else {
                ClaimStep::Refused
            }
        },
        Ok(None) => if lost {
            ClaimStep::Retry
        } else {
            ClaimStep::Refused
        },
        Err(StoreError::Fault(StoreFault::Unavailable)) => if lost {
            ClaimStep::Retry
        } else {
            ClaimStep::Refused
        },
        Err(_) => ClaimStep::Refused,
    }
}

/// A host never takes another host's head for its own.
pub proof fn only_own_heads_are_claimed(
    host: HostState,
    volume: u64,
    incarnation: u64,
    stash: Option<StashAssignment>,
    lost: bool,
    found: FoundHead,
    head: HeadRecord,
)
    requires
        found.record == Some(head),
        claim_read_step(host, volume, incarnation, stash, lost, Ok(Some(found)))
            is Claimed,
    ensures
        head.holder == host.host,
        head.stash == stash,
{
}

// ---------------------------------------------------------------------------
// Moving the head to a newer archived state
// ---------------------------------------------------------------------------

/// The head that makes `pointer` the newest archived state.
pub open spec fn is_next_head(
    head: HeadRecord,
    state: VolumeState,
    volume: u64,
    holder: HostId,
    pointer: ManifestPtr,
) -> bool {
    &&& head.volume == volume
    &&& head.holder == holder
    &&& head.fence == state.fence
    &&& head.manifest == Some(pointer)
    &&& head.stash == state.stash_assignment
    &&& head.retired_stashes@ == state.retired_stashes@
}

/// The version to be replaced, and by what.
pub struct HeadWrite {
    pub expected: u64,
    pub head: HeadRecord,
}

/// Prepares the write of a head. A volume that has gone, or has no head, has
/// none to move.
pub fn plan_head(host: &HostState, volume: u64, incarnation: u64, pointer: ManifestPtr) -> (write:
    Option<HeadWrite>)
    ensures
        write is Some <==> (match host.volume_at_spec(volume, incarnation) {
            Some(state) => state.head_version is Some,
            None => false,
        }),
        match write {
            Some(w) => Some(w.expected) == host.volumes@[volume].head_version && is_next_head(
                w.head,
                host.volumes@[volume],
                volume,
                host.host,
                pointer,
            ),
            None => true,
        },
{
    match host.volume_at(volume, incarnation) {
        Some(state) => match state.head_version {
            Some(expected) => Some(
                HeadWrite {
                    expected,
                    head: HeadRecord {
                        volume,
                        holder: host.host,
                        fence: state.fence,
                        manifest: Some(pointer),
                        stash: state.stash_assignment,
                        retired_stashes: copy_retired(&state.retired_stashes),
                    },
                },
            ),
            None => None,
        },
        None => None,
    }
}

#[derive(Clone, Copy, PartialEq, Eq, Debug, Structural)]
pub enum PublishStep {
    Published(u64),
    /// The volume is another host's.
    Fenced,
    Fatal,
    ReadBack,
    /// Prepare the write anew, at once.
    Again,
    /// Wait, then prepare the write anew.
    Retry,
}

/// What follows the write of a head.
pub fn head_written(counters: &mut Counters, outcome: Result<u64, StoreError>) -> (step: PublishStep)
    requires
        old(counters).room(1),
    ensures
        step == (match outcome {
            Ok(version) => PublishStep::Published(version),
            Err(StoreError::TooLarge) => PublishStep::Fatal,
            Err(StoreError::Fault(_)) => PublishStep::ReadBack,
        }),
        *final(counters) == (if outcome == Err::<u64, StoreError>(
            StoreError::Fault(StoreFault::Unavailable),
        ) {
            Counters { store_retries: (old(counters).store_retries + 1) as u64, ..*old(counters) }
        } else {
            *old(counters)
        }),
{
    match outcome {
        Ok(version) => PublishStep::Published(version),
        Err(StoreError::TooLarge) => PublishStep::Fatal,
        Err(StoreError::Fault(StoreFault::Unavailable)) => {
            counters.store_retries = counters.store_retries + 1;
            PublishStep::ReadBack
        },
        Err(StoreError::Fault(StoreFault::CasConflict { .. })) => PublishStep::ReadBack,
    }
}

/// Archived state `a` is `b` or a later one.
pub open spec fn archived_at_least(a: ManifestPtr, b: ManifestPtr) -> bool {
    a.capture_seq > b.capture_seq || (a.capture_seq == b.capture_seq && a.seq >= b.seq)
}

pub open spec fn head_read_step(
    wanted: HeadRecord,
    pointer: ManifestPtr,
    found: Result<Option<FoundHead>, StoreError>,
) -> PublishStep {
    match found {
        Ok(Some(found)) => match found.record {
            None => PublishStep::Fatal,
            Some(head) => if head.holder != wanted.holder || head.fence != wanted.fence {
                PublishStep::Fenced
            } else {
                match head.manifest {
                    Some(manifest) => if archived_at_least(manifest, pointer) {
                        PublishStep::Published(found.version)
                    } else {
                        PublishStep::Again
                    },
                    None => PublishStep::Again,
                }
            },
        },
        Ok(None) => PublishStep::Fenced,
        Err(error) => if error == StoreError::Fault(StoreFault::Unavailable) {
            PublishStep::Retry
        } else {
            PublishStep::Fatal
        },
    }
}

/// What follows from the head that was read back. Where the write has to be
/// made anew, it will replace the head that was found.
pub fn head_read(
    host: &mut HostState,
    volume: u64,
    wanted: &HeadRecord,
    pointer: ManifestPtr,
    found: Result<Option<FoundHead>, StoreError>,
) -> (step: PublishStep)
    ensures
        step == head_read_step(*wanted, pointer, found),
        step != PublishStep::Again || !old(host).volumes@.contains_key(volume) ==> *final(host)
            == *old(host),
        step == PublishStep::Again && old(host).volumes@.contains_key(volume) ==> {
            let before = old(host).volumes@[volume];
            let after = final(host).volumes@[volume];
            &&& *final(host) == (HostState { volumes: final(host).volumes, ..*old(host) })
            &&& final(host).volumes@ == old(host).volumes@.insert(volume, after)
            &&& after == (VolumeState { head_version: Some(found->Ok_0->0.version), ..before })
        },
        follows(*old(host), *final(host)),
{
    match found {
        Ok(Some(found)) => match found.record {
            None => PublishStep::Fatal,
            Some(head) => {
                if head.holder != wanted.holder || head.fence != wanted.fence {
                    return PublishStep::Fenced;
                }
                if let Some(manifest) = head.manifest {
                    if manifest.capture_seq > pointer.capture_seq || (manifest.capture_seq
                        == pointer.capture_seq && manifest.seq >= pointer.seq) {
                        return PublishStep::Published(found.version);
                    }
                }
                if host.volumes.contains_key(&volume) {
                    let ghost was = host.volumes@;
                    if let Some(mut state) = host.volumes.remove(&volume) {
                        state.head_version = Some(found.version);
                        host.volumes.insert(volume, state);
                        proof {
                            assert(was.remove(volume).insert(volume, state) =~= was.insert(
                                volume,
                                state,
                            ));
                        }
                    }
                }
                PublishStep::Again
            },
        },
        Ok(None) => PublishStep::Fenced,
        Err(StoreError::Fault(StoreFault::Unavailable)) => PublishStep::Retry,
        Err(_) => PublishStep::Fatal,
    }
}

/// A head that names a state as late as the one to be published is left as it
/// is: publishing never goes back to an earlier state.
pub proof fn publishing_never_goes_back(
    wanted: HeadRecord,
    pointer: ManifestPtr,
    found: FoundHead,
    head: HeadRecord,
    manifest: ManifestPtr,
)
    requires
        found.record == Some(head),
        head.manifest == Some(manifest),
        archived_at_least(manifest, pointer),
    ensures
        head_read_step(wanted, pointer, Ok(Some(found))) != PublishStep::Again,
{
}

/// A host that no longer holds the volume stops publishing.
pub proof fn a_foreign_head_fences(
    wanted: HeadRecord,
    pointer: ManifestPtr,
    found: FoundHead,
    head: HeadRecord,
)
    requires
        found.record == Some(head),
        head.holder != wanted.holder || head.fence != wanted.fence,
    ensures
        head_read_step(wanted, pointer, Ok(Some(found))) == PublishStep::Fenced,
{
}

// ---------------------------------------------------------------------------
// Writing a head once
// ---------------------------------------------------------------------------

/// What follows the write of a head that must replace a known version. Unlike
/// publication this does not look for a newer state: another head is a refusal.
pub fn exact_written(counters: &mut Counters, outcome: Result<u64, StoreError>) -> (step: ClaimStep)
    requires
        old(counters).room(1),
    ensures
        step == (match outcome {
            Ok(version) => ClaimStep::Claimed(version),
            Err(error) => if error == StoreError::Fault(StoreFault::Unavailable) {
                ClaimStep::ReadBack { lost: true }
            } else {
                ClaimStep::Refused
            },
        }),
        *final(counters) == (if outcome == Err::<u64, StoreError>(
            StoreError::Fault(StoreFault::Unavailable),
        ) {
            Counters { store_retries: (old(counters).store_retries + 1) as u64, ..*old(counters) }
        } else {
            *old(counters)
        }),
{
    match outcome {
        Ok(version) => ClaimStep::Claimed(version),
        Err(StoreError::Fault(StoreFault::Unavailable)) => {
            counters.store_retries = counters.store_retries + 1;
            ClaimStep::ReadBack { lost: true }
        },
        Err(_) => ClaimStep::Refused,
    }
}

pub open spec fn exact_read_step(
    wanted: HeadRecord,
    found: Result<Option<FoundHead>, StoreError>,
) -> ClaimStep {
    match found {
        Ok(Some(found)) => match found.record {
            Some(head) => if head.same(wanted) {
                ClaimStep::Claimed(found.version)
            } else {
                ClaimStep::Refused
            },
            None => ClaimStep::Refused,
        },
        Ok(None) => ClaimStep::Refused,
        Err(error) => if error == StoreError::Fault(StoreFault::Unavailable) {
            ClaimStep::Retry
        } else {
            ClaimStep::Refused
        },
    }
}

pub fn exact_read(wanted: &HeadRecord, found: Result<Option<FoundHead>, StoreError>) -> (step:
    ClaimStep)
    ensures
        step == exact_read_step(*wanted, found),
{
    match found {
        Ok(Some(found)) => match &found.record {
            Some(head) => if head.equals(wanted) {
                ClaimStep::Claimed(found.version)
            } else {
                ClaimStep::Refused
            },
            None => ClaimStep::Refused,
        },
        Ok(None) => ClaimStep::Refused,
        Err(StoreError::Fault(StoreFault::Unavailable)) => ClaimStep::Retry,
        Err(_) => ClaimStep::Refused,
    }
}

} // verus!
