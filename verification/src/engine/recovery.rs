//! Reconciling a volume recovered from the local device with the object store.
//!
//! A volume opens only once its head says that this host still holds it and
//! that nothing newer than the local state was archived.

use super::heads::{is_new_head, new_head, FoundHead};
use super::publish::{join_names, joined, own_files, volume_files};
use super::state::{follows, with_scheduled, Counters, HostState};
use super::volume::{copy_refs, BaseRef, Verdict, VolumeOperations, VolumeRecord, VolumeState};
use crate::head::{
    copy_retired, HeadRecord, ManifestPtr, ReplicaCommitInfo, RetiredStash, StashAssignment,
};
use crate::objects::ObjectRef;
use crate::protocol::AdminError;
use crate::store::{StoreError, StoreFault};
use vstd::prelude::*;

verus! {

broadcast use vstd::std_specs::btree::group_btree_axioms;

// ---------------------------------------------------------------------------
// Reading the head
// ---------------------------------------------------------------------------

#[derive(Clone, Copy, PartialEq, Eq, Debug, Structural)]
pub enum ReadStep {
    /// The volume must not open here.
    Fence,
    /// Wait, then read again.
    Retry,
    /// There is no head.
    Missing,
    /// There is one; load what it names.
    Found,
}

/// What follows from reading the head.
pub fn recovery_read(counters: &mut Counters, found: &Result<Option<FoundHead>, StoreError>) -> (step:
    ReadStep)
    requires
        old(counters).room(1),
    ensures
        step == (match *found {
            Ok(Some(found)) => if found.record is Some {
                ReadStep::Found
            } else {
                ReadStep::Fence
            },
            Ok(None) => ReadStep::Missing,
            Err(error) => if error == StoreError::Fault(StoreFault::Unavailable) {
                ReadStep::Retry
            } else {
                ReadStep::Fence
            },
        }),
        *final(counters) == (if step == ReadStep::Retry {
            Counters { store_retries: (old(counters).store_retries + 1) as u64, ..*old(counters) }
        } else {
            *old(counters)
        }),
{
    match found {
        Ok(Some(found)) => if found.record.is_some() {
            ReadStep::Found
        } else {
            ReadStep::Fence
        },
        Ok(None) => ReadStep::Missing,
        Err(StoreError::Fault(StoreFault::Unavailable)) => {
            counters.store_retries = counters.store_retries + 1;
            ReadStep::Retry
        },
        Err(_) => ReadStep::Fence,
    }
}

// ---------------------------------------------------------------------------
// No head yet
// ---------------------------------------------------------------------------

/// The head to create for a volume that has none. Without a second keeper the
/// volume must not open.
pub fn recovery_head(host: &HostState, volume: u64, stash: Option<StashAssignment>) -> (head: Option<
    HeadRecord,
>)
    ensures
        head is Some <==> stash is Some,
        head is Some ==> is_new_head(head->0, volume, host.host, stash),
{
    match stash {
        Some(_) => Some(new_head(volume, host.host, stash)),
        None => None,
    }
}

#[derive(Clone, Copy, PartialEq, Eq, Debug, Structural)]
pub enum OpenStep {
    /// The volume is no longer here.
    Gone,
    Fence,
    /// Wait, then read the head again.
    Retry,
    /// Read the head again.
    Again,
    /// The volume is open, or being handed over.
    Open(Option<Verdict>),
}

/// `after` is `before` opened: unless it is being handed over it serves, and its
/// verdict is taken.
pub open spec fn opened(before: VolumeState, after: VolumeState) -> bool {
    after == (VolumeState {
        ready: before.ready || !before.outbound,
        operations: VolumeOperations {
            recovery: if before.outbound {
                before.operations.recovery
            } else {
                None
            },
            ..before.operations
        },
        ..before
    })
}

fn open_volume(state: &mut VolumeState) -> (verdict: Option<Verdict>)
    ensures
        opened(*old(state), *final(state)),
        verdict == (if old(state).outbound {
            None
        } else {
            old(state).operations.recovery
        }),
{
    if state.outbound {
        None
    } else {
        state.ready = true;
        let verdict = state.operations.recovery;
        state.operations.recovery = None;
        verdict
    }
}

/// What a volume is before it opens under a first head of this version.
pub open spec fn first_headed(
    before: VolumeState,
    after: VolumeState,
    version: u64,
    stash: StashAssignment,
) -> bool {
    &&& after == (VolumeState {
        fence: version,
        head_version: Some(version),
        backed: None,
        stash_assignment: Some(stash),
        retired_stashes: after.retired_stashes,
        ..before
    })
    &&& after.retired_stashes@ == Seq::<RetiredStash>::empty()
}

pub open spec fn create_step(present: bool, outcome: Result<u64, StoreError>, verdict: Option<
    Verdict,
>) -> OpenStep {
    match outcome {
        Ok(_) => if present {
            OpenStep::Open(verdict)
        } else {
            OpenStep::Gone
        },
        Err(StoreError::Fault(StoreFault::CasConflict { .. })) => OpenStep::Again,
        Err(StoreError::Fault(StoreFault::Unavailable)) => OpenStep::Retry,
        Err(StoreError::TooLarge) => OpenStep::Fence,
    }
}

/// The verdict a volume opens with.
pub open spec fn opening_verdict(state: VolumeState) -> Option<Verdict> {
    if state.outbound {
        None
    } else {
        state.operations.recovery
    }
}

/// What follows the write of a first head. Once it is written the volume opens
/// under it.
pub fn recovery_created(
    host: &mut HostState,
    volume: u64,
    stash: StashAssignment,
    outcome: Result<u64, StoreError>,
) -> (step: OpenStep)
    requires
        old(host).counters.room(1),
    ensures
        step == create_step(
            old(host).volumes@.contains_key(volume),
            outcome,
            opening_verdict(old(host).volumes@[volume]),
        ),
        match step {
            OpenStep::Gone | OpenStep::Fence => *final(host) == *old(host),
            OpenStep::Again => *final(host) == (HostState {
                counters: Counters {
                    assignment_claim_conflicts: (old(host).counters.assignment_claim_conflicts
                        + 1) as u64,
                    ..old(host).counters
                },
                ..*old(host)
            }),
            OpenStep::Retry => *final(host) == (HostState {
                counters: Counters {
                    store_retries: (old(host).counters.store_retries + 1) as u64,
                    ..old(host).counters
                },
                ..*old(host)
            }),
            OpenStep::Open(_) => {
                let before = old(host).volumes@[volume];
                let after = final(host).volumes@[volume];
                &&& *final(host) == (HostState {
                    volumes: final(host).volumes,
                    scheduled: final(host).scheduled,
                    counters: Counters {
                        assignment_claims: (old(host).counters.assignment_claims + 1) as u64,
                        ..old(host).counters
                    },
                    ..*old(host)
                })
                &&& final(host).scheduled@ == with_scheduled(old(host).scheduled@, volume)
                &&& final(host).volumes@ == old(host).volumes@.insert(volume, after)
                &&& exists|headed: VolumeState| #[trigger]
                    first_headed(before, headed, outcome->Ok_0, stash) && opened(headed, after)
            },
        },
        follows(*old(host), *final(host)),
{
    match outcome {
        Ok(version) => {
            if !host.volumes.contains_key(&volume) {
                return OpenStep::Gone;
            }
            let mut verdict: Option<Verdict> = None;
            let ghost was = host.volumes@;
            if let Some(mut state) = host.volumes.remove(&volume) {
                state.fence = version;
                state.head_version = Some(version);
                state.backed = None;
                state.stash_assignment = Some(stash);
                state.retired_stashes = Vec::new();
                let ghost headed = state;
                proof {
                    assert(first_headed(was[volume], headed, version, stash));
                }
                verdict = open_volume(&mut state);
                host.volumes.insert(volume, state);
            }
            host.counters.assignment_claims = host.counters.assignment_claims + 1;
            host.schedule_volume(volume);
            OpenStep::Open(verdict)
        },
        Err(StoreError::Fault(StoreFault::CasConflict { .. })) => {
            host.counters.assignment_claim_conflicts = host.counters.assignment_claim_conflicts + 1;
            OpenStep::Again
        },
        Err(StoreError::Fault(StoreFault::Unavailable)) => {
            host.counters.store_retries = host.counters.store_retries + 1;
            OpenStep::Retry
        },
        Err(StoreError::TooLarge) => OpenStep::Fence,
    }
}

// ---------------------------------------------------------------------------
// A head without a second keeper
// ---------------------------------------------------------------------------

pub struct Upgrade {
    pub incarnation: u64,
    pub head: HeadRecord,
}

pub enum UpgradeStep {
    Fence,
    Gone,
    Write(Upgrade),
}

/// `head` with a second keeper, and the volume's own fence.
pub open spec fn is_upgraded(
    upgraded: HeadRecord,
    head: HeadRecord,
    volume: u64,
    state: VolumeState,
    stash: StashAssignment,
) -> bool {
    &&& upgraded.volume == volume
    &&& upgraded.holder == head.holder
    &&& upgraded.fence == state.fence
    &&& upgraded.manifest == head.manifest
    &&& upgraded.stash == Some(stash)
    &&& upgraded.retired_stashes@ == head.retired_stashes@
}

/// Gives a head that has no second keeper one, if this host holds it.
pub fn plan_upgrade(
    host: &HostState,
    volume: u64,
    head: &HeadRecord,
    stash: Option<StashAssignment>,
) -> (step: UpgradeStep)
    ensures
        step is Fence <==> stash is None || head.holder != host.host,
        step is Gone <==> stash is Some && head.holder == host.host && !host.volumes@.contains_key(
            volume,
        ),
        match step {
            UpgradeStep::Write(upgrade) => upgrade.incarnation == host.volumes@[volume].incarnation
                && is_upgraded(upgrade.head, *head, volume, host.volumes@[volume], stash->0),
            _ => true,
        },
{
    let stash: StashAssignment = match stash {
        Some(stash) => stash,
        None => {
            return UpgradeStep::Fence;
        },
    };
    if head.holder != host.host {
        return UpgradeStep::Fence;
    }
    match host.volumes.get(&volume) {
        Some(state) => UpgradeStep::Write(
            Upgrade {
                incarnation: state.incarnation,
                head: HeadRecord {
                    volume,
                    holder: head.holder,
                    fence: state.fence,
                    manifest: head.manifest,
                    stash: Some(stash),
                    retired_stashes: copy_retired(&head.retired_stashes),
                },
            },
        ),
        None => UpgradeStep::Gone,
    }
}

#[derive(Clone, Copy, PartialEq, Eq, Debug, Structural)]
pub enum AssignmentWritten {
    Written(u64),
    Again,
    Retry,
    Fence,
}

/// What follows the write of a head with another second keeper. A conflict is
/// settled by reading the head again; no keeper is told anything before.
pub fn assignment_written(counters: &mut Counters, outcome: Result<u64, StoreError>) -> (step:
    AssignmentWritten)
    requires
        old(counters).room(1),
    ensures
        step == (match outcome {
            Ok(version) => AssignmentWritten::Written(version),
            Err(StoreError::Fault(StoreFault::CasConflict { .. })) => AssignmentWritten::Again,
            Err(StoreError::Fault(StoreFault::Unavailable)) => AssignmentWritten::Retry,
            Err(StoreError::TooLarge) => AssignmentWritten::Fence,
        }),
        *final(counters) == (if step == AssignmentWritten::Retry {
            Counters { store_retries: (old(counters).store_retries + 1) as u64, ..*old(counters) }
        } else {
            *old(counters)
        }),
{
    match outcome {
        Ok(version) => AssignmentWritten::Written(version),
        Err(StoreError::Fault(StoreFault::CasConflict { .. })) => AssignmentWritten::Again,
        Err(StoreError::Fault(StoreFault::Unavailable)) => {
            counters.store_retries = counters.store_retries + 1;
            AssignmentWritten::Retry
        },
        Err(StoreError::TooLarge) => AssignmentWritten::Fence,
    }
}

// ---------------------------------------------------------------------------
// The newest archived commit
// ---------------------------------------------------------------------------

/// What a manifest says of the commit it was made from.
#[derive(Clone, Copy, PartialEq, Eq, Debug, Structural)]
pub struct ManifestSummary {
    pub writer_fence: u64,
    pub journal_seq: u64,
    pub archive_seq: u64,
    pub capture_seq: u64,
    pub metadata_checksum: u64,
}

/// The manifest is the one that `pointer` names, and it was made from `record`.
pub open spec fn archives(
    manifest: ManifestSummary,
    pointer: ManifestPtr,
    bytes_checksum: u64,
    record: VolumeRecord,
    record_checksum: u64,
) -> bool {
    &&& bytes_checksum == pointer.checksum
    &&& manifest.writer_fence == pointer.fence
    &&& manifest.journal_seq == pointer.journal_seq
    &&& manifest.archive_seq == pointer.seq
    &&& manifest.journal_seq == record.seq
    &&& manifest.capture_seq == record.capture_seq
    &&& manifest.metadata_checksum == record_checksum
}

/// The commit that was archived last, if it is the newest local one.
pub fn recovered_commit(
    host: &HostState,
    volume: u64,
    pointer: ManifestPtr,
    manifest: ManifestSummary,
    bytes_checksum: u64,
    record_checksum: u64,
) -> (commit: Option<ReplicaCommitInfo>)
    ensures
        commit == (if host.volumes@.contains_key(volume) {
            match host.volumes@[volume].best_record {
                Some(record) => if archives(
                    manifest,
                    pointer,
                    bytes_checksum,
                    record,
                    record_checksum,
                ) {
                    Some(record.commit_info())
                } else {
                    None
                },
                None => None,
            }
        } else {
            None
        }),
{
    if bytes_checksum != pointer.checksum || manifest.writer_fence != pointer.fence
        || manifest.journal_seq != pointer.journal_seq || manifest.archive_seq != pointer.seq {
        return None;
    }
    match host.volumes.get(&volume) {
        Some(state) => match &state.best_record {
            Some(record) => if manifest.journal_seq == record.seq && manifest.capture_seq
                == record.capture_seq && manifest.metadata_checksum == record_checksum {
                Some(record.commit_info())
            } else {
                None
            },
            None => None,
        },
        None => None,
    }
}

// ---------------------------------------------------------------------------
// Opening
// ---------------------------------------------------------------------------

/// Something newer than the local state was archived.
pub open spec fn is_behind(state: VolumeState, manifest: Option<ManifestPtr>) -> bool {
    match manifest {
        Some(m) => match state.best_record {
            Some(record) => m.capture_seq > record.capture_seq || (m.capture_seq
                == record.capture_seq && m.journal_seq > record.seq),
            None => m.capture_seq > 0 || m.journal_seq > 0,
        },
        None => false,
    }
}

fn local_is_behind(state: &VolumeState, manifest: Option<ManifestPtr>) -> (behind: bool)
    ensures
        behind == is_behind(*state, manifest),
{
    match manifest {
        Some(m) => match &state.best_record {
            Some(record) => m.capture_seq > record.capture_seq || (m.capture_seq
                == record.capture_seq && m.journal_seq > record.seq),
            None => m.capture_seq > 0 || m.journal_seq > 0,
        },
        None => false,
    }
}

/// The head says that this host may serve the volume as it is.
pub open spec fn may_open(host: HostState, state: VolumeState, head: HeadRecord) -> bool {
    &&& head.holder == host.host
    &&& head.fence == 0 || head.fence == state.fence
    &&& !is_behind(state, head.manifest)
}

/// Whether the membership the head's assignment was made under is the present
/// one.
pub fn membership_matches(head: &HeadRecord, membership: Option<u64>) -> (matching: bool)
    ensures
        matching == (match head.stash {
            Some(stash) => membership == Some(stash.membership_epoch),
            None => membership is None,
        }),
{
    match head.stash {
        Some(stash) => match membership {
            Some(epoch) => epoch == stash.membership_epoch,
            None => false,
        },
        None => membership.is_none(),
    }
}

/// Whether the head's archived state may be this host's own newest.
pub fn publication_is_ours(host: &HostState, volume: u64, head: &HeadRecord) -> (ours: bool)
    ensures
        ours == (host.volumes@.contains_key(volume) && may_open(
            *host,
            host.volumes@[volume],
            *head,
        )),
{
    match host.volumes.get(&volume) {
        Some(state) => head.holder == host.host && (head.fence == 0 || head.fence == state.fence)
            && !local_is_behind(state, head.manifest),
        None => false,
    }
}

/// What an archive holds for a volume.
pub struct ArchiveClosure {
    pub objects: Vec<ObjectRef>,
    pub base: Option<BaseRef>,
}

/// `after` is `before` with what the head and its archive say.
pub open spec fn head_installed(
    before: VolumeState,
    after: VolumeState,
    version: u64,
    head: HeadRecord,
    closure: ArchiveClosure,
    volume: u64,
    published: Option<ReplicaCommitInfo>,
) -> bool {
    &&& after == (VolumeState {
        head_version: Some(version),
        backed: head.manifest,
        archive_objects: after.archive_objects,
        archive_base: closure.base,
        backed_files: after.backed_files,
        peer_published: published,
        store_manifests: after.store_manifests,
        stash_assignment: head.stash,
        retired_stashes: after.retired_stashes,
        ..before
    })
    &&& after.archive_objects@ == closure.objects@
    &&& after.backed_files@ == joined(
        before.backed_files@,
        own_files(closure.objects@, volume),
    )
    &&& after.retired_stashes@ == head.retired_stashes@
    &&& after.store_manifests@ == (match head.manifest {
        Some(manifest) => if before.store_manifests@.contains((manifest.fence, manifest.seq)) {
            before.store_manifests@
        } else {
            before.store_manifests@.push((manifest.fence, manifest.seq))
        },
        None => before.store_manifests@,
    })
}

fn note_manifest(manifests: &mut Vec<(u64, u64)>, manifest: ManifestPtr)
    ensures
        final(manifests)@ == (if old(manifests)@.contains((manifest.fence, manifest.seq)) {
            old(manifests)@
        } else {
            old(manifests)@.push((manifest.fence, manifest.seq))
        }),
{
    let mut i: usize = 0;
    while i < manifests.len()
        invariant
            i <= manifests@.len(),
            *manifests == *old(manifests),
            forall|a: int|
                0 <= a < i ==> #[trigger] manifests@[a] != (manifest.fence, manifest.seq),
        decreases manifests@.len() - i,
    {
        if manifests[i].0 == manifest.fence && manifests[i].1 == manifest.seq {
            return ;
        }
        i = i + 1;
    }
    manifests.push((manifest.fence, manifest.seq));
}

fn install_head(
    state: &mut VolumeState,
    volume: u64,
    version: u64,
    head: &HeadRecord,
    closure: &ArchiveClosure,
    published: Option<ReplicaCommitInfo>,
)
    ensures
        head_installed(*old(state), *final(state), version, *head, *closure, volume, published),
{
    state.head_version = Some(version);
    state.backed = head.manifest;
    state.archive_objects = copy_refs(&closure.objects);
    state.archive_base = closure.base;
    let own = volume_files(&closure.objects, volume);
    join_names(&mut state.backed_files, &own);
    state.peer_published = published;
    if let Some(manifest) = head.manifest {
        note_manifest(&mut state.store_manifests, manifest);
    }
    state.stash_assignment = head.stash;
    state.retired_stashes = copy_retired(&head.retired_stashes);
}

/// `after` is `before` with the head installed, and opened.
pub open spec fn recovered(
    before: VolumeState,
    after: VolumeState,
    version: u64,
    head: HeadRecord,
    closure: ArchiveClosure,
    volume: u64,
    published: Option<ReplicaCommitInfo>,
) -> bool {
    exists|installed: VolumeState| #[trigger]
        head_installed(before, installed, version, head, closure, volume, published) && opened(
            installed,
            after,
        )
}

/// Opens a volume under its upgraded head, unless it has been replaced.
pub fn finish_upgrade(
    host: &mut HostState,
    volume: u64,
    incarnation: u64,
    version: u64,
    head: &HeadRecord,
    closure: &ArchiveClosure,
    published: Option<ReplicaCommitInfo>,
) -> (step: OpenStep)
    ensures
        step == (match old(host).volume_at_spec(volume, incarnation) {
            Some(state) => OpenStep::Open(opening_verdict(state)),
            None => OpenStep::Gone,
        }),
        step is Gone ==> *final(host) == *old(host),
        step is Open ==> {
            let after = final(host).volumes@[volume];
            &&& *final(host) == (HostState {
                volumes: final(host).volumes,
                scheduled: final(host).scheduled,
                ..*old(host)
            })
            &&& final(host).scheduled@ == with_scheduled(old(host).scheduled@, volume)
            &&& final(host).volumes@ == old(host).volumes@.insert(volume, after)
            &&& recovered(
                old(host).volumes@[volume],
                after,
                version,
                *head,
                *closure,
                volume,
                published,
            )
        },
        follows(*old(host), *final(host)),
{
    if host.volume_at(volume, incarnation).is_none() {
        return OpenStep::Gone;
    }
    let mut verdict: Option<Verdict> = None;
    let ghost was = host.volumes@;
    if let Some(mut state) = host.volumes.remove(&volume) {
        install_head(&mut state, volume, version, head, closure, published);
        let ghost installed = state;
        verdict = open_volume(&mut state);
        proof {
            assert(head_installed(
                was[volume],
                installed,
                version,
                *head,
                *closure,
                volume,
                published,
            ));
        }
        host.volumes.insert(volume, state);
        proof {
            assert(was.remove(volume).insert(volume, state) =~= was.insert(volume, state));
        }
    }
    host.schedule_volume(volume);
    OpenStep::Open(verdict)
}

/// A volume that is about to open has not been given its verdict before.
pub open spec fn verdict_is_kept(host: HostState, volume: u64, head: HeadRecord) -> bool {
    host.volumes@.contains_key(volume) && may_open(host, host.volumes@[volume], head)
        && !host.volumes@[volume].outbound ==> host.volumes@[volume].operations.recovery is Some
}

/// Opens a recovered volume under its head, or finds that it must not open. Its
/// verdict must not have been taken before.
pub fn finish_recovery(
    host: &mut HostState,
    volume: u64,
    version: u64,
    head: &HeadRecord,
    closure: &ArchiveClosure,
    published: Option<ReplicaCommitInfo>,
) -> (step: OpenStep)
    requires
        verdict_is_kept(*old(host), volume, *head),
    ensures
        step == (if !old(host).volumes@.contains_key(volume) {
            OpenStep::Gone
        } else if !may_open(*old(host), old(host).volumes@[volume], *head) {
            OpenStep::Fence
        } else {
            OpenStep::Open(opening_verdict(old(host).volumes@[volume]))
        }),
        step is Gone ==> *final(host) == *old(host),
        step !is Gone ==> final(host).scheduled@ == with_scheduled(old(host).scheduled@, volume),
        step is Fence ==> *final(host) == (HostState {
            scheduled: final(host).scheduled,
            ..*old(host)
        }),
        step is Open ==> {
            let after = final(host).volumes@[volume];
            &&& *final(host) == (HostState {
                volumes: final(host).volumes,
                scheduled: final(host).scheduled,
                ..*old(host)
            })
            &&& final(host).volumes@ == old(host).volumes@.insert(volume, after)
            &&& recovered(
                old(host).volumes@[volume],
                after,
                version,
                *head,
                *closure,
                volume,
                published,
            )
        },
        follows(*old(host), *final(host)),
{
    if !host.volumes.contains_key(&volume) {
        return OpenStep::Gone;
    }
    if !publication_is_ours(host, volume, head) {
        host.schedule_volume(volume);
        return OpenStep::Fence;
    }
    let mut verdict: Option<Verdict> = None;
    let ghost was = host.volumes@;
    if let Some(mut state) = host.volumes.remove(&volume) {
        install_head(&mut state, volume, version, head, closure, published);
        let ghost installed = state;
        verdict = open_volume(&mut state);
        proof {
            assert(head_installed(
                was[volume],
                installed,
                version,
                *head,
                *closure,
                volume,
                published,
            ));
        }
        host.volumes.insert(volume, state);
        proof {
            assert(was.remove(volume).insert(volume, state) =~= was.insert(volume, state));
        }
    }
    host.schedule_volume(volume);
    OpenStep::Open(verdict)
}

/// A volume never opens behind an archived state, nor under another host's head.
pub proof fn recovery_never_goes_back(
    host: HostState,
    state: VolumeState,
    head: HeadRecord,
    manifest: ManifestPtr,
    record: VolumeRecord,
)
    requires
        may_open(host, state, head),
        head.manifest == Some(manifest),
        state.best_record == Some(record),
    ensures
        head.holder == host.host,
        manifest.capture_seq <= record.capture_seq,
        manifest.capture_seq == record.capture_seq ==> manifest.journal_seq <= record.seq,
{
}

/// A volume that is being handed over does not serve after recovery.
pub proof fn handed_over_volumes_stay_closed(before: VolumeState, after: VolumeState)
    requires
        opened(before, after),
        before.outbound,
        !before.ready,
    ensures
        !after.ready,
{
}

/// Whether a volume may be restored from the archive alone. A second keeper may
/// have commits that are newer than the archived state.
pub fn admit_store_restore(head: &HeadRecord) -> (admitted: Result<(), AdminError>)
    ensures
        admitted == (if head.stash is Some {
            Err::<(), AdminError>(AdminError::Rejected)
        } else {
            Ok::<(), AdminError>(())
        }),
{
    if head.stash.is_some() {
        Err(AdminError::Rejected)
    } else {
        Ok(())
    }
}

/// The files of an archived state with those of its base, base first.
pub fn archive_closure(base: Option<BaseRef>, base_objects: Vec<ObjectRef>, files: &Vec<ObjectRef>) -> (
closure: ArchiveClosure)
    ensures
        closure.base == base,
        closure.objects@ == base_objects@ + files@,
{
    let mut objects = base_objects;
    let mut own = copy_refs(files);
    objects.append(&mut own);
    ArchiveClosure { objects, base }
}

} // verus!
