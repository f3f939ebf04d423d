//! Bases: kept states that other volumes start from.

use super::publish::{
    are_additions, is_union, needs_compaction, plan_uploads, too_many_share, uploads, with_uploads,
};
use super::state::{follows, with_scheduled, Counters, HostState};
use super::volume::{
    copy_refs, BaseRef, PageEntry, Verdict, VolumeConfig, VolumeRecord, VolumeRecordKind,
    VolumeState,
};
use crate::head::{ManifestPtr, StashAssignment};
use crate::manifest::{in_order, put_in_order, Manifest};
use crate::objects::{contains_identity, lists, sorted, ObjectIdentity, ObjectRef};
use crate::protocol::AdminError;
use crate::store::{StoreError, StoreFault};
use std::collections::BTreeMap;
use vstd::prelude::*;

verus! {

broadcast use vstd::std_specs::btree::group_btree_axioms;

// ---------------------------------------------------------------------------
// Deleting a base
// ---------------------------------------------------------------------------

#[derive(Clone, Copy, PartialEq, Eq, Debug, Structural)]
pub enum DeleteStep {
    Deleted,
    Rejected,
    /// Wait, then delete again.
    Retry,
}

/// What follows the deletion of a base's root.
pub fn base_deleted(counters: &mut Counters, outcome: Result<(), StoreError>) -> (step: DeleteStep)
    requires
        old(counters).room(1),
    ensures
        step == (match outcome {
            Ok(_) => DeleteStep::Deleted,
            Err(error) => if error == StoreError::Fault(StoreFault::Unavailable) {
                DeleteStep::Retry
            } else {
                DeleteStep::Rejected
            },
        }),
        *final(counters) == (if step == DeleteStep::Retry {
            Counters { store_retries: (old(counters).store_retries + 1) as u64, ..*old(counters) }
        } else {
            *old(counters)
        }),
{
    match outcome {
        Ok(_) => DeleteStep::Deleted,
        Err(StoreError::Fault(StoreFault::Unavailable)) => {
            counters.store_retries = counters.store_retries + 1;
            DeleteStep::Retry
        },
        Err(_) => DeleteStep::Rejected,
    }
}

// ---------------------------------------------------------------------------
// Keeping a base
// ---------------------------------------------------------------------------

/// A kept state. Its files stay where they were written.
pub struct BaseManifest {
    pub base_id: u64,
    pub manifest_id: u64,
    pub capture_seq: u64,
    pub sync_covered_through: u64,
    pub kind: VolumeRecordKind,
    pub config: VolumeConfig,
    pub post_state_checksum: u64,
    pub metadata_checksum: u64,
    pub objects: Vec<ObjectRef>,
}

/// A pinned state that can be kept.
pub struct KeepSource {
    pub record: VolumeRecord,
    pub state_checksum: u64,
    /// Files that are archived already, in order.
    pub archived: Vec<ObjectRef>,
}

/// The pinned state of an open volume.
pub fn keep_source(host: &HostState, volume: u64) -> (source: Result<KeepSource, AdminError>)
    ensures
        match source {
            Ok(kept) => {
                &&& host.volumes@.contains_key(volume)
                &&& host.volumes@[volume].ready
                &&& host.volumes@[volume].pinned is Some
                &&& kept.record.same(host.volumes@[volume].pinned->0)
                &&& kept.state_checksum == host.volumes@[volume].state_checksum
                &&& in_order(host.volumes@[volume].archive_objects@, kept.archived@)
            },
            Err(error) => error == AdminError::Rejected && !(host.volumes@.contains_key(volume)
                && host.volumes@[volume].ready && host.volumes@[volume].pinned is Some),
        },
{
    match host.volumes.get(&volume) {
        Some(state) => {
            if !state.ready {
                return Err(AdminError::Rejected);
            }
            match &state.pinned {
                Some(record) => Ok(
                    KeepSource {
                        record: record.duplicate(),
                        state_checksum: state.state_checksum,
                        archived: put_in_order(&state.archive_objects),
                    },
                ),
                None => Err(AdminError::Rejected),
            }
        },
        None => Err(AdminError::Rejected),
    }
}

/// The files of the record that are not archived yet; they have to be read, and
/// the volume's own uploaded.
pub fn plan_keep(source: &KeepSource) -> (files: Vec<ObjectRef>)
    ensures
        files@ == uploads(source.archived@, source.record.files@, None),
        are_additions(source.archived@, files@),
{
    plan_uploads(&source.archived, &source.record.files, None)
}

/// All files of the state to be kept: what the volume inherited or archived, and
/// what the record adds. The new base refers to each directly.
pub fn collected(source: &KeepSource, files: &Vec<ObjectRef>) -> (all: Vec<ObjectRef>)
    requires
        sorted(source.archived@),
        are_additions(source.archived@, files@),
    ensures
        is_union(source.archived@, files@, all@),
{
    with_uploads(copy_refs(&source.archived), files)
}

/// Files that are not archived yet.
pub open spec fn fresh_files(all: Seq<ObjectRef>, archived: Seq<ObjectRef>) -> Seq<ObjectRef> {
    all.filter(|o: ObjectRef| !lists(archived, o.identity))
}

pub open spec fn kept_files(all: Seq<ObjectRef>, archived: Seq<ObjectRef>) -> Seq<ObjectRef> {
    all.filter(|o: ObjectRef| lists(archived, o.identity))
}

fn divide(all: &Vec<ObjectRef>, archived: &Vec<ObjectRef>) -> (parts: (Vec<ObjectRef>, Vec<ObjectRef>))
    ensures
        parts.0@ == kept_files(all@, archived@),
        parts.1@ == fresh_files(all@, archived@),
{
    let mut kept: Vec<ObjectRef> = Vec::new();
    let mut fresh: Vec<ObjectRef> = Vec::new();
    let mut i: usize = 0;
    proof {
        reveal(Seq::filter);
    }
    while i < all.len()
        invariant
            i <= all@.len(),
            kept@ == kept_files(all@.take(i as int), archived@),
            fresh@ == fresh_files(all@.take(i as int), archived@),
        decreases all@.len() - i,
    {
        proof {
            reveal(Seq::filter);
            assert(all@.take(i + 1).drop_last() =~= all@.take(i as int));
        }
        if contains_identity(archived, all[i].identity) {
            kept.push(all[i]);
        } else {
            fresh.push(all[i]);
        }
        i = i + 1;
    }
    proof {
        assert(all@.take(i as int) =~= all@);
    }
    (kept, fresh)
}

/// The files that stay as they are, and those to be rewritten, if so many share
/// a key that it pays. Archived files are never rewritten: others use them.
pub struct KeepPlan {
    pub kept: Vec<ObjectRef>,
    pub rewritten: Vec<ObjectRef>,
}

pub open spec fn keep_rewrites(all: Seq<ObjectRef>, archived: Seq<ObjectRef>, limit: usize) -> bool {
    too_many_share(all, limit) && fresh_files(all, archived).len() > 0
}

pub fn plan_rewrite(all: &Vec<ObjectRef>, archived: &Vec<ObjectRef>, limit: usize) -> (plan: KeepPlan)
    ensures
        if keep_rewrites(all@, archived@, limit) {
            plan.kept@ == kept_files(all@, archived@) && plan.rewritten@ == fresh_files(
                all@,
                archived@,
            )
        } else {
            plan.kept@ == all@ && plan.rewritten@ == Seq::<ObjectRef>::empty()
        },
{
    let (kept, fresh) = divide(all, archived);
    if needs_compaction(all, limit) && fresh.len() > 0 {
        KeepPlan { kept, rewritten: fresh }
    } else {
        KeepPlan { kept: copy_refs(all), rewritten: Vec::new() }
    }
}

/// The description of a kept state.
pub open spec fn kept_manifest(
    base: u64,
    source: KeepSource,
    metadata_checksum: u64,
    objects: Vec<ObjectRef>,
) -> BaseManifest {
    BaseManifest {
        base_id: base,
        manifest_id: 1,
        capture_seq: source.record.capture_seq,
        sync_covered_through: source.record.sync_covered_through,
        kind: source.record.kind,
        config: source.record.config,
        post_state_checksum: source.state_checksum,
        metadata_checksum,
        objects,
    }
}

/// Describes the kept state.
pub fn base_manifest(
    base: u64,
    source: &KeepSource,
    metadata_checksum: u64,
    objects: Vec<ObjectRef>,
) -> (manifest: BaseManifest)
    ensures
        manifest == kept_manifest(base, *source, metadata_checksum, objects),
{
    BaseManifest {
        base_id: base,
        manifest_id: 1,
        capture_seq: source.record.capture_seq,
        sync_covered_through: source.record.sync_covered_through,
        kind: source.record.kind,
        config: source.record.config,
        post_state_checksum: source.state_checksum,
        metadata_checksum,
        objects,
    }
}

// ---------------------------------------------------------------------------
// Forking
// ---------------------------------------------------------------------------

/// How a fork of a state of this kind starts: a checkpoint whole, under its
/// first epoch, anything else by booting.
pub open spec fn fork_kind(kind: VolumeRecordKind) -> VolumeRecordKind {
    match kind {
        VolumeRecordKind::Commit => VolumeRecordKind::Commit,
        VolumeRecordKind::Checkpoint { vmstate, vmstate_length, .. } => {
            VolumeRecordKind::Checkpoint { epoch: 0, vmstate, vmstate_length }
        },
    }
}

pub open spec fn fork_verdict_spec(kind: VolumeRecordKind) -> Verdict {
    match kind {
        VolumeRecordKind::Commit => Verdict::ColdBoot,
        VolumeRecordKind::Checkpoint { .. } => Verdict::Whole,
    }
}

#[verifier::when_used_as_spec(fork_verdict_spec)]
pub fn fork_verdict(kind: VolumeRecordKind) -> (verdict: Verdict)
    ensures
        verdict == fork_verdict_spec(kind),
{
    match kind {
        VolumeRecordKind::Commit => Verdict::ColdBoot,
        VolumeRecordKind::Checkpoint { .. } => Verdict::Whole,
    }
}

/// The first record of a fork. It has no files of its own.
pub open spec fn is_fork_record(record: VolumeRecord, fence: u64, base: BaseManifest) -> bool {
    &&& record.config == base.config
    &&& record.seq == 0
    &&& record.fence == fence
    &&& record.kind == fork_kind(base.kind)
    &&& record.capture_seq == base.capture_seq
    &&& record.sync_covered_through == base.sync_covered_through
    &&& record.post_state_checksum == base.post_state_checksum
    &&& record.files@ == Seq::<ObjectRef>::empty()
    &&& record.page_index@ == Map::<u64, PageEntry>::empty()
    &&& record.migrated_from is None
}

pub fn fork_record(fence: u64, base: &BaseManifest) -> (record: VolumeRecord)
    ensures
        is_fork_record(record, fence, *base),
{
    let kind = match base.kind {
        VolumeRecordKind::Commit => VolumeRecordKind::Commit,
        VolumeRecordKind::Checkpoint { vmstate, vmstate_length, .. } => {
            VolumeRecordKind::Checkpoint { epoch: 0, vmstate, vmstate_length }
        },
    };
    VolumeRecord {
        config: base.config,
        seq: 0,
        fence,
        kind,
        capture_seq: base.capture_seq,
        sync_covered_through: base.sync_covered_through,
        post_state_checksum: base.post_state_checksum,
        files: Vec::new(),
        page_index: BTreeMap::new(),
        migrated_from: None,
    }
}

/// `after` is `before` as a fork of the base, not yet open.
pub open spec fn fork_begun(
    before: VolumeState,
    after: VolumeState,
    fence: u64,
    stash: StashAssignment,
    root: BaseRef,
    base: BaseManifest,
) -> bool {
    &&& after == (VolumeState {
        fence,
        head_version: Some(fence),
        stash_assignment: Some(stash),
        mutation_seq: base.capture_seq,
        state_checksum: base.post_state_checksum,
        archived_memory_usable: fork_verdict(base.kind) != Verdict::ColdBoot,
        archived_non_data_reset: fork_verdict(base.kind) != Verdict::ColdBoot,
        archive_base: Some(root),
        archive_objects: after.archive_objects,
        best_record: after.best_record,
        ..before
    })
    &&& after.archive_objects@ == base.objects@
    &&& after.best_record is Some
    &&& is_fork_record(after.best_record->0, fence, base)
}

/// Makes a fresh volume a fork of the base once its head is claimed. The volume
/// must be here.
pub fn begin_fork(
    host: &mut HostState,
    volume: u64,
    fence: u64,
    stash: StashAssignment,
    root: BaseRef,
    base: &BaseManifest,
)
    requires
        old(host).volumes@.contains_key(volume),
        old(host).counters.room(1),
    ensures
        ({
            let after = final(host).volumes@[volume];
            &&& *final(host) == (HostState {
                volumes: final(host).volumes,
                counters: Counters {
                    assignment_claims: (old(host).counters.assignment_claims + 1) as u64,
                    ..old(host).counters
                },
                ..*old(host)
            })
            &&& final(host).volumes@ == old(host).volumes@.insert(volume, after)
            &&& fork_begun(old(host).volumes@[volume], after, fence, stash, root, *base)
        }),
        follows(*old(host), *final(host)),
{
    let whole: bool = match base.kind {
        VolumeRecordKind::Commit => false,
        VolumeRecordKind::Checkpoint { .. } => true,
    };
    let ghost was = host.volumes@;
    if let Some(mut state) = host.volumes.remove(&volume) {
        state.fence = fence;
        state.head_version = Some(fence);
        state.stash_assignment = Some(stash);
        state.mutation_seq = base.capture_seq;
        state.state_checksum = base.post_state_checksum;
        state.archived_memory_usable = whole;
        state.archived_non_data_reset = whole;
        state.archive_base = Some(root);
        state.archive_objects = copy_refs(&base.objects);
        state.best_record = Some(fork_record(fence, base));
        host.volumes.insert(volume, state);
        proof {
            assert(was.remove(volume).insert(volume, state) =~= was.insert(volume, state));
        }
    }
    host.counters.assignment_claims = host.counters.assignment_claims + 1;
}

pub open spec fn is_fork_manifest(
    manifest: Manifest,
    volume: u64,
    fence: u64,
    root: BaseRef,
    base: BaseManifest,
) -> bool {
    &&& manifest.volume == volume
    &&& manifest.writer_fence == fence
    &&& manifest.journal_seq == 0
    &&& manifest.archive_seq == 0
    &&& manifest.capture_seq == base.capture_seq
    &&& manifest.sync_covered_through == base.sync_covered_through
    &&& manifest.kind == fork_kind(base.kind)
    &&& manifest.config == base.config
    &&& manifest.base == Some(root)
    &&& manifest.complete_list is None
    &&& manifest.post_state_checksum == root.post_state_checksum
    &&& manifest.metadata_checksum == base.metadata_checksum
    &&& manifest.added@ == Seq::<ObjectRef>::empty()
    &&& manifest.removed@ == Seq::<ObjectIdentity>::empty()
}

/// The archived state a fork starts with: nothing but the base.
pub fn fork_manifest(volume: u64, fence: u64, root: BaseRef, base: &BaseManifest) -> (manifest: Manifest)
    ensures
        is_fork_manifest(manifest, volume, fence, root, *base),
{
    let kind = match base.kind {
        VolumeRecordKind::Commit => VolumeRecordKind::Commit,
        VolumeRecordKind::Checkpoint { vmstate, vmstate_length, .. } => {
            VolumeRecordKind::Checkpoint { epoch: 0, vmstate, vmstate_length }
        },
    };
    Manifest {
        volume,
        writer_fence: fence,
        journal_seq: 0,
        archive_seq: 0,
        capture_seq: base.capture_seq,
        sync_covered_through: base.sync_covered_through,
        kind,
        config: base.config,
        base: Some(root),
        complete_list: None,
        post_state_checksum: root.post_state_checksum,
        metadata_checksum: base.metadata_checksum,
        added: Vec::new(),
        removed: Vec::new(),
    }
}

/// `after` is `before` as an open fork. A whole fork has its first state pinned.
pub open spec fn fork_opened(
    before: VolumeState,
    after: VolumeState,
    pointer: ManifestPtr,
    version: u64,
    record: VolumeRecord,
) -> bool {
    &&& after == (VolumeState {
        ready: true,
        next_seq: 1,
        backed: Some(pointer),
        head_version: Some(version),
        record_writes: after.record_writes,
        pinned: after.pinned,
        ..before
    })
    &&& after.record_writes@ == before.record_writes@.insert(0, (record.fence, 0))
    &&& match record.kind {
        VolumeRecordKind::Checkpoint { .. } => after.pinned is Some && after.pinned->0.same(record),
        VolumeRecordKind::Commit => after.pinned == before.pinned,
    }
}

/// Opens a fork once its head names its first archived state.
pub fn finish_fork(
    host: &mut HostState,
    volume: u64,
    incarnation: u64,
    pointer: ManifestPtr,
    version: u64,
    record: &VolumeRecord,
) -> (opened: bool)
    requires
        old(host).counters.room(1),
    ensures
        opened == (old(host).volume_at_spec(volume, incarnation) is Some),
        !opened ==> *final(host) == *old(host),
        opened ==> {
            let after = final(host).volumes@[volume];
            &&& *final(host) == (HostState {
                volumes: final(host).volumes,
                scheduled: final(host).scheduled,
                counters: Counters {
                    records_written: (old(host).counters.records_written + 1) as u64,
                    manifests_published: (old(host).counters.manifests_published + 1) as u64,
                    ..old(host).counters
                },
                ..*old(host)
            })
            &&& final(host).scheduled@ == with_scheduled(old(host).scheduled@, volume)
            &&& final(host).volumes@ == old(host).volumes@.insert(volume, after)
            &&& fork_opened(old(host).volumes@[volume], after, pointer, version, *record)
        },
        follows(*old(host), *final(host)),
{
    if host.volume_at(volume, incarnation).is_none() {
        return false;
    }
    let ghost was = host.volumes@;
    if let Some(mut state) = host.volumes.remove(&volume) {
        state.ready = true;
        state.next_seq = 1;
        state.backed = Some(pointer);
        state.head_version = Some(version);
        state.record_writes.insert(0, (record.fence, 0));
        if let VolumeRecordKind::Checkpoint { .. } = record.kind {
            state.pinned = Some(record.duplicate());
        }
        host.volumes.insert(volume, state);
        proof {
            assert(was.remove(volume).insert(volume, state) =~= was.insert(volume, state));
        }
    }
    host.counters.records_written = host.counters.records_written + 1;
    host.counters.manifests_published = host.counters.manifests_published + 1;
    host.schedule_volume(volume);
    true
}

/// Gives up a fork that could not be made.
pub fn abandon_fork(host: &mut HostState, volume: u64)
    ensures
        *final(host) == (HostState { volumes: final(host).volumes, ..*old(host) }),
        final(host).volumes@ == old(host).volumes@.remove(volume),
        follows(*old(host), *final(host)),
{
    host.volumes.remove(&volume);
}

/// A fork starts as its base: it has the base's files and state, and none of its
/// own.
pub proof fn a_fork_starts_as_its_base(
    before: VolumeState,
    begun: VolumeState,
    after: VolumeState,
    fence: u64,
    stash: StashAssignment,
    root: BaseRef,
    base: BaseManifest,
    pointer: ManifestPtr,
    version: u64,
    volume: u64,
)
    requires
        before.is_fresh(base.config, before.incarnation),
        fork_begun(before, begun, fence, stash, root, base),
        fork_opened(begun, after, pointer, version, begun.best_record->0),
    ensures
        after.ready,
        after.archive_objects@ == base.objects@,
        after.state_checksum == base.post_state_checksum,
        after.archive_base == Some(root),
        after.files@.len() == 0,
        after.best_record is Some,
        after.best_record->0.files@.len() == 0,
        // Whatever it inherits from a boot-only state is data.
        base.kind == VolumeRecordKind::Commit ==> !after.archived_memory_usable,
{
}

} // verus!
