//! The course of a volume's recovery: what is asked of the object store next,
//! until the volume opens or is fenced off.

use super::heads::{is_new_head, FoundHead};
use super::maps::lists_keys;
use super::publish::fence_volume;
use super::recovery::{
    archives, assignment_written, finish_recovery, finish_upgrade, first_headed, is_upgraded,
    may_open, membership_matches, opened, opening_verdict, plan_upgrade, publication_is_ours,
    recovered, recovered_commit, recovery_created, recovery_head, recovery_read, verdict_is_kept,
    ArchiveClosure, AssignmentWritten, ManifestSummary, OpenStep, ReadStep, Upgrade, UpgradeStep,
};
use super::state::{follows, with_scheduled, Counters, HostState};
use super::volume::{Verdict, VolumeState};
use crate::head::{HeadRecord, ManifestPtr, ReplicaCommitInfo, StashAssignment};
use crate::store::{StoreError, StoreFault};
use vstd::prelude::*;

verus! {

broadcast use vstd::std_specs::btree::group_btree_axioms;

/// A head that is to be opened under.
pub struct PendingOpen {
    /// The volume it was upgraded for; none if it was found as it is.
    pub incarnation: Option<u64>,
    pub version: u64,
    pub head: HeadRecord,
    pub closure: ArchiveClosure,
}

pub enum RecoveryEnd {
    /// The volume must not open. If it was still here, its pages are to be
    /// dropped.
    Fenced(Option<Vec<u64>>),
    /// The volume is no longer here.
    Gone,
    /// The volume is open, with the verdict to be reported, or being handed over.
    Open(Option<Verdict>),
}

pub enum ReconcileStep {
    /// Read the head, after a while if `wait`.
    Read { wait: bool },
    /// Load what the head names.
    Load { version: u64, head: HeadRecord },
    /// Write a first head.
    Create { head: HeadRecord, stash: StashAssignment },
    /// Replace the head of this version.
    Upgrade { version: u64, upgrade: Upgrade, closure: ArchiveClosure },
    /// Read the manifest the head names, after a while if `wait`.
    Manifest { pointer: ManifestPtr, pending: PendingOpen, wait: bool },
    End(RecoveryEnd),
}

/// `after` is `before` without the volume.
pub open spec fn fenced_off(
    before: HostState,
    after: HostState,
    volume: u64,
    pages: Option<Vec<u64>>,
) -> bool {
    if before.volumes@.contains_key(volume) {
        &&& pages is Some
        &&& lists_keys(pages->0@, before.volumes@[volume].pages@)
        &&& after == (HostState {
            volumes: after.volumes,
            counters: Counters {
                fenced: (before.counters.fenced + 1) as u64,
                ..before.counters
            },
            ..before
        })
        &&& after.volumes@ == before.volumes@.remove(volume)
    } else {
        pages is None && after == before
    }
}

/// The step ends recovery without the volume.
pub open spec fn fences(
    before: HostState,
    after: HostState,
    volume: u64,
    step: ReconcileStep,
) -> bool {
    match step {
        ReconcileStep::End(RecoveryEnd::Fenced(pages)) => fenced_off(before, after, volume, pages),
        _ => false,
    }
}

/// `after` is `before` with one more store operation to be tried again.
pub open spec fn retries(before: HostState, after: HostState) -> bool {
    after == (HostState {
        counters: Counters {
            store_retries: (before.counters.store_retries + 1) as u64,
            ..before.counters
        },
        ..before
    })
}

fn fence(host: &mut HostState, volume: u64) -> (step: ReconcileStep)
    requires
        old(host).counters.room(1),
    ensures
        fences(*old(host), *final(host), volume, step),
{
    let pages: Option<Vec<u64>> = fence_volume(host, volume, None);
    ReconcileStep::End(RecoveryEnd::Fenced(pages))
}

// ---------------------------------------------------------------------------
// The head was read
// ---------------------------------------------------------------------------

/// What follows from the head that was read. `stash` is the second keeper a
/// volume without one would get.
pub fn head_found(
    host: &mut HostState,
    volume: u64,
    found: Result<Option<FoundHead>, StoreError>,
    stash: Option<StashAssignment>,
) -> (step: ReconcileStep)
    requires
        old(host).counters.room(1),
    ensures
        match found {
            Ok(Some(f)) => match f.record {
                Some(head) => step == (ReconcileStep::Load { version: f.version, head })
                    && *final(host) == *old(host),
                None => fences(*old(host), *final(host), volume, step),
            },
            Ok(None) => match stash {
                Some(keeper) => *final(host) == *old(host) && match step {
                    ReconcileStep::Create { head, stash: s } => s == keeper && is_new_head(
                        head,
                        volume,
                        old(host).host,
                        Some(keeper),
                    ),
                    _ => false,
                },
                None => fences(*old(host), *final(host), volume, step),
            },
            Err(StoreError::Fault(StoreFault::Unavailable)) => step == (ReconcileStep::Read {
                wait: true,
            }) && retries(*old(host), *final(host)),
            Err(_) => fences(*old(host), *final(host), volume, step),
        },
        follows(*old(host), *final(host)),
{
    match recovery_read(&mut host.counters, &found) {
        ReadStep::Fence => fence(host, volume),
        ReadStep::Retry => ReconcileStep::Read { wait: true },
        ReadStep::Missing => match recovery_head(host, volume, stash) {
            Some(head) => match stash {
                Some(keeper) => ReconcileStep::Create { head, stash: keeper },
                None => fence(host, volume),
            },
            None => fence(host, volume),
        },
        ReadStep::Found => match found {
            Ok(Some(f)) => match f.record {
                Some(head) => ReconcileStep::Load { version: f.version, head },
                None => fence(host, volume),
            },
            _ => fence(host, volume),
        },
    }
}

// ---------------------------------------------------------------------------
// A first head was written
// ---------------------------------------------------------------------------

/// What follows the write of a first head.
pub fn first_head_written(
    host: &mut HostState,
    volume: u64,
    stash: StashAssignment,
    outcome: Result<u64, StoreError>,
) -> (step: ReconcileStep)
    requires
        old(host).counters.room(1),
    ensures
        match outcome {
            Ok(version) => if old(host).volumes@.contains_key(volume) {
                let before = old(host).volumes@[volume];
                let after = final(host).volumes@[volume];
                &&& step == ReconcileStep::End(RecoveryEnd::Open(opening_verdict(before)))
                &&& *final(host) == (HostState {
                    volumes: final(host).volumes,
                    scheduled: final(host).scheduled,
                    counters: Counters {
                        assignment_claims: (old(host).counters.assignment_claims + 1) as u64,
                        ..old(host).counters
                    },
                    ..*old(host)
                })
                &&& final(host).scheduled@ == with_scheduled(old(host).scheduled@, volume)
                &&& final(host).volumes@ == old(host).volumes@.insert(volume, after)
                &&& exists|headed: VolumeState| #[trigger]
                    first_headed(before, headed, version, stash) && opened(headed, after)
            } else {
                step == ReconcileStep::End(RecoveryEnd::Gone) && *final(host) == *old(host)
            },
            Err(StoreError::Fault(StoreFault::CasConflict { .. })) => step
                == (ReconcileStep::Read { wait: false }) && *final(host) == (HostState {
                counters: Counters {
                    assignment_claim_conflicts: (old(host).counters.assignment_claim_conflicts
                        + 1) as u64,
                    ..old(host).counters
                },
                ..*old(host)
            }),
            Err(StoreError::Fault(StoreFault::Unavailable)) => step == (ReconcileStep::Read {
                wait: true,
            }) && retries(*old(host), *final(host)),
            Err(StoreError::TooLarge) => fences(*old(host), *final(host), volume, step),
        },
        follows(*old(host), *final(host)),
{
    match recovery_created(host, volume, stash, outcome) {
        OpenStep::Gone => ReconcileStep::End(RecoveryEnd::Gone),
        OpenStep::Fence => fence(host, volume),
        OpenStep::Retry => ReconcileStep::Read { wait: true },
        OpenStep::Again => ReconcileStep::Read { wait: false },
        OpenStep::Open(verdict) => ReconcileStep::End(RecoveryEnd::Open(verdict)),
    }
}

// ---------------------------------------------------------------------------
// Opening
// ---------------------------------------------------------------------------

/// `after` is `before` with the volume opened under the head.
pub open spec fn opens(
    before: HostState,
    after: HostState,
    volume: u64,
    pending: PendingOpen,
    published: Option<ReplicaCommitInfo>,
) -> bool {
    &&& after == (HostState { volumes: after.volumes, scheduled: after.scheduled, ..before })
    &&& after.scheduled@ == with_scheduled(before.scheduled@, volume)
    &&& after.volumes@ == before.volumes@.insert(volume, after.volumes@[volume])
    &&& recovered(
        before.volumes@[volume],
        after.volumes@[volume],
        pending.version,
        pending.head,
        pending.closure,
        volume,
        published,
    )
}

/// How recovery ends once the commit that was archived last is known.
pub open spec fn settled(
    before: HostState,
    after: HostState,
    volume: u64,
    pending: PendingOpen,
    published: Option<ReplicaCommitInfo>,
    step: ReconcileStep,
) -> bool {
    let here = match pending.incarnation {
        Some(incarnation) => before.volume_at_spec(volume, incarnation) is Some,
        None => before.volumes@.contains_key(volume),
    };
    if !here {
        step == ReconcileStep::End(RecoveryEnd::Gone) && after == before
    } else if pending.incarnation is None && !may_open(
        before,
        before.volumes@[volume],
        pending.head,
    ) {
        &&& after.scheduled@ == with_scheduled(before.scheduled@, volume)
        &&& fences(HostState { scheduled: after.scheduled, ..before }, after, volume, step)
    } else {
        &&& step == ReconcileStep::End(
            RecoveryEnd::Open(opening_verdict(before.volumes@[volume])),
        )
        &&& opens(before, after, volume, pending, published)
    }
}

fn settle(
    host: &mut HostState,
    volume: u64,
    pending: &PendingOpen,
    published: Option<ReplicaCommitInfo>,
) -> (step: ReconcileStep)
    requires
        old(host).counters.room(1),
        pending.incarnation is None ==> verdict_is_kept(*old(host), volume, pending.head),
    ensures
        settled(*old(host), *final(host), volume, *pending, published, step),
{
    let step: OpenStep = match pending.incarnation {
        Some(incarnation) => finish_upgrade(
            host,
            volume,
            incarnation,
            pending.version,
            &pending.head,
            &pending.closure,
            published,
        ),
        None => finish_recovery(
            host,
            volume,
            pending.version,
            &pending.head,
            &pending.closure,
            published,
        ),
    };
    match step {
        OpenStep::Open(verdict) => ReconcileStep::End(RecoveryEnd::Open(verdict)),
        OpenStep::Fence => fence(host, volume),
        _ => ReconcileStep::End(RecoveryEnd::Gone),
    }
}

/// The manifest that has to be read before the volume opens.
pub open spec fn manifest_wanted(host: HostState, volume: u64, pending: PendingOpen) -> Option<
    ManifestPtr,
> {
    let ours = pending.incarnation is Some || (host.volumes@.contains_key(volume) && may_open(
        host,
        host.volumes@[volume],
        pending.head,
    ));
    if ours {
        pending.head.manifest
    } else {
        None
    }
}

/// How recovery goes on with a head to open under.
pub open spec fn goes_on_with_head(
    before: HostState,
    after: HostState,
    volume: u64,
    pending: PendingOpen,
    step: ReconcileStep,
) -> bool {
    match manifest_wanted(before, volume, pending) {
        Some(pointer) => after == before && step == (ReconcileStep::Manifest {
            pointer,
            pending,
            wait: false,
        }),
        None => settled(before, after, volume, pending, None, step),
    }
}

fn go_on_with_head(host: &mut HostState, volume: u64, pending: PendingOpen) -> (step: ReconcileStep)
    requires
        old(host).counters.room(1),
        pending.incarnation is None && manifest_wanted(*old(host), volume, pending) is None
            ==> verdict_is_kept(*old(host), volume, pending.head),
    ensures
        goes_on_with_head(*old(host), *final(host), volume, pending, step),
{
    let ours: bool = pending.incarnation.is_some() || publication_is_ours(
        host,
        volume,
        &pending.head,
    );
    if ours {
        if let Some(pointer) = pending.head.manifest {
            return ReconcileStep::Manifest { pointer, pending, wait: false };
        }
    }
    settle(host, volume, &pending, None)
}

// ---------------------------------------------------------------------------
// The archive was loaded
// ---------------------------------------------------------------------------

/// What follows once what the head names was loaded. `stash` is the second
/// keeper a head without one would get, `membership` the present membership.
pub fn archive_loaded(
    host: &mut HostState,
    volume: u64,
    version: u64,
    head: HeadRecord,
    closure: Option<ArchiveClosure>,
    stash: Option<StashAssignment>,
    membership: Option<u64>,
) -> (step: ReconcileStep)
    requires
        old(host).counters.room(1),
        closure is Some && head.stash is Some && membership == Some(
            head.stash->0.membership_epoch,
        ) && manifest_wanted(
            *old(host),
            volume,
            PendingOpen { incarnation: None, version, head, closure: closure->0 },
        ) is None ==> verdict_is_kept(*old(host), volume, head),
    ensures
        match closure {
            None => fences(*old(host), *final(host), volume, step),
            Some(loaded) => match head.stash {
                None => if stash is None || head.holder != old(host).host {
                    fences(*old(host), *final(host), volume, step)
                } else if !old(host).volumes@.contains_key(volume) {
                    step == ReconcileStep::End(RecoveryEnd::Gone) && *final(host) == *old(host)
                } else {
                    *final(host) == *old(host) && match step {
                        ReconcileStep::Upgrade { version: v, upgrade, closure: c } => {
                            &&& v == version
                            &&& c == loaded
                            &&& upgrade.incarnation == old(host).volumes@[volume].incarnation
                            &&& is_upgraded(
                                upgrade.head,
                                head,
                                volume,
                                old(host).volumes@[volume],
                                stash->0,
                            )
                        },
                        _ => false,
                    }
                },
                Some(keeper) => if membership != Some(keeper.membership_epoch) {
                    fences(*old(host), *final(host), volume, step)
                } else {
                    goes_on_with_head(
                        *old(host),
                        *final(host),
                        volume,
                        PendingOpen { incarnation: None, version, head, closure: loaded },
                        step,
                    )
                },
            },
        },
        follows(*old(host), *final(host)),
{
    let closure: ArchiveClosure = match closure {
        Some(closure) => closure,
        None => {
            return fence(host, volume);
        },
    };
    if head.stash.is_none() {
        return match plan_upgrade(host, volume, &head, stash) {
            UpgradeStep::Fence => fence(host, volume),
            UpgradeStep::Gone => ReconcileStep::End(RecoveryEnd::Gone),
            UpgradeStep::Write(upgrade) => ReconcileStep::Upgrade { version, upgrade, closure },
        };
    }
    if !membership_matches(&head, membership) {
        return fence(host, volume);
    }
    go_on_with_head(host, volume, PendingOpen { incarnation: None, version, head, closure })
}

// ---------------------------------------------------------------------------
// A head with a second keeper was written
// ---------------------------------------------------------------------------

/// What follows the write of a head that was given a second keeper.
pub fn upgrade_written(
    host: &mut HostState,
    volume: u64,
    upgrade: Upgrade,
    closure: ArchiveClosure,
    outcome: Result<u64, StoreError>,
) -> (step: ReconcileStep)
    requires
        old(host).counters.room(1),
    ensures
        match outcome {
            Ok(version) => goes_on_with_head(
                *old(host),
                *final(host),
                volume,
                PendingOpen {
                    incarnation: Some(upgrade.incarnation),
                    version,
                    head: upgrade.head,
                    closure,
                },
                step,
            ),
            Err(StoreError::Fault(StoreFault::CasConflict { .. })) => step
                == (ReconcileStep::Read { wait: false }) && *final(host) == *old(host),
            Err(StoreError::Fault(StoreFault::Unavailable)) => step == (ReconcileStep::Read {
                wait: true,
            }) && retries(*old(host), *final(host)),
            Err(StoreError::TooLarge) => fences(*old(host), *final(host), volume, step),
        },
        follows(*old(host), *final(host)),
{
    match assignment_written(&mut host.counters, outcome) {
        AssignmentWritten::Written(version) => go_on_with_head(
            host,
            volume,
            PendingOpen {
                incarnation: Some(upgrade.incarnation),
                version,
                head: upgrade.head,
                closure,
            },
        ),
        AssignmentWritten::Again => ReconcileStep::Read { wait: false },
        AssignmentWritten::Retry => ReconcileStep::Read { wait: true },
        AssignmentWritten::Fence => fence(host, volume),
    }
}

// ---------------------------------------------------------------------------
// The manifest was read
// ---------------------------------------------------------------------------

/// A manifest as it was read: the checksum of its bytes, and what it says if
/// they are one.
#[derive(Clone, Copy, PartialEq, Eq, Debug, Structural)]
pub struct FoundManifest {
    pub checksum: u64,
    pub summary: Option<ManifestSummary>,
}

/// The commit that was archived last, if the manifest is of the newest local one.
pub open spec fn archived_commit(
    host: HostState,
    volume: u64,
    pointer: ManifestPtr,
    found: Option<FoundManifest>,
    record_checksum: u64,
) -> Option<ReplicaCommitInfo> {
    if found is None || found->0.summary is None || !host.volumes@.contains_key(volume) {
        None
    } else {
        match host.volumes@[volume].best_record {
            Some(record) => if archives(
                found->0.summary->0,
                pointer,
                found->0.checksum,
                record,
                record_checksum,
            ) {
                Some(record.commit_info())
            } else {
                None
            },
            None => None,
        }
    }
}

/// What follows from the manifest that was read. `record_checksum` is that of
/// the newest local record.
pub fn manifest_found(
    host: &mut HostState,
    volume: u64,
    pointer: ManifestPtr,
    pending: PendingOpen,
    found: Result<Option<FoundManifest>, StoreError>,
    record_checksum: u64,
) -> (step: ReconcileStep)
    requires
        old(host).counters.room(1),
        pending.incarnation is None ==> verdict_is_kept(*old(host), volume, pending.head),
    ensures
        match found {
            Err(StoreError::Fault(StoreFault::Unavailable)) => step == (ReconcileStep::Manifest {
                pointer,
                pending,
                wait: true,
            }) && retries(*old(host), *final(host)),
            _ => settled(
                *old(host),
                *final(host),
                volume,
                pending,
                archived_commit(
                    *old(host),
                    volume,
                    pointer,
                    match found {
                        Ok(manifest) => manifest,
                        Err(_) => None,
                    },
                    record_checksum,
                ),
                step,
            ),
        },
        follows(*old(host), *final(host)),
{
    let published: Option<ReplicaCommitInfo> = match found {
        Ok(Some(manifest)) => match manifest.summary {
            Some(summary) => recovered_commit(
                host,
                volume,
                pointer,
                summary,
                manifest.checksum,
                record_checksum,
            ),
            None => None,
        },
        Ok(None) => None,
        Err(StoreError::Fault(StoreFault::Unavailable)) => {
            host.counters.store_retries = host.counters.store_retries + 1;
            return ReconcileStep::Manifest { pointer, pending, wait: true };
        },
        Err(_) => None,
    };
    settle(host, volume, &pending, published)
}

/// A volume that is found under a head opens only if that head names this host
/// and no state that is newer than the local one.
pub proof fn volumes_open_only_under_their_own_head(
    before: HostState,
    after: HostState,
    volume: u64,
    pending: PendingOpen,
    published: Option<ReplicaCommitInfo>,
    step: ReconcileStep,
)
    requires
        settled(before, after, volume, pending, published, step),
        pending.incarnation is None,
        before.volumes@.contains_key(volume),
        !before.volumes@[volume].ready,
        after.volumes@.contains_key(volume),
        after.volumes@[volume].ready,
    ensures
        may_open(before, before.volumes@[volume], pending.head),
        after.volumes@[volume].stash_assignment == pending.head.stash,
{
}

/// A recovered volume either opens or goes: none is left that neither serves,
/// nor is being handed over, nor was fenced off.
pub proof fn recovery_leaves_no_volume_waiting(
    before: HostState,
    after: HostState,
    volume: u64,
    pending: PendingOpen,
    published: Option<ReplicaCommitInfo>,
    step: ReconcileStep,
)
    requires
        settled(before, after, volume, pending, published, step),
        pending.incarnation is None,
    ensures
        !after.volumes@.contains_key(volume) || after.volumes@[volume].ready
            || after.volumes@[volume].outbound,
{
}

} // verus!
