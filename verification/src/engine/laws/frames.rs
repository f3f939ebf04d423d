//! What the operations leave alone: apart from what an operation is for, a volume
//! and its host stay as they are.

use super::super::archive::{footer_installed, non_data_reset, page_resolved};
use super::super::capture::{
    capture_finished, capture_reserved, file_recorded, page_taken, saved_before_write, CapturePlan,
    Checkpoint, PreparedRescue, WrittenFile,
};
use super::super::capturing::{
    capture_given_up, file_counted, records_state, slot_released, CaptureBatch, CaptureStep,
    FileJob,
};
use super::super::checkpoint::{checkpoint_decided, noted_paused, noted_resumed, CheckpointStep};
use super::super::fault::{
    fetch_finished, fill_begun, resident_written, shared_filled, zero_filled, FetchOutcome,
    FillPlan,
};
use super::super::hydration::{leaf_failed, leaf_installed, leaf_taken, LeafEntry};
use super::super::lineage::{fork_begun, fork_opened, BaseManifest};
use super::super::persist::{committed, BuiltSegment, PersistPlan, Rolled, Staged};
use super::super::publish::{publication_recorded, PublishSnapshot};
use super::super::reconcile::{opens, PendingOpen};
use super::super::recovery::{first_headed, opened, recovered, ArchiveClosure};
use super::super::state::{Counters, HostState, VsetState};
use super::super::volume::{
    BaseRef, BlockSum, CaptureKind, LoadedFooter, PageEntry, PendingSync, VolumeOperations,
    VolumeRecord, VolumeState,
};
use super::seqs::lemma_filter_members;
use crate::head::{HeadRecord, ManifestPtr, ReplicaCommitInfo, StashAssignment};
use crate::journal::{DatabaseMeta, JournalRecord, LeafPointer};
use crate::objects::{BlxFooter, ObjectIdentity, ObjectRef};
use crate::types::VsetId;
use vstd::prelude::*;

verus! {

// ---------------------------------------------------------------------------
// Captures
// ---------------------------------------------------------------------------

/// Reserving a capture gives out numbers, takes the right to change the volume and
/// marks pages as taken; nothing else changes.
pub proof fn reserving_a_capture_changes_only_its_marks(
    before: VolumeState,
    after: VolumeState,
    plan: CapturePlan,
    kind: CaptureKind,
    complete: bool,
    prepared: Seq<PreparedRescue>,
    i: int,
    j: int,
)
    requires
        capture_reserved(before, after, plan, kind, complete, prepared),
    ensures
        after == (VolumeState {
            next_seq: after.next_seq,
            next_object_id: after.next_object_id,
            next_gen: after.next_gen,
            pages: after.pages,
            operations: VolumeOperations {
                mutation: after.operations.mutation,
                drain: after.operations.drain,
                ..before.operations
            },
            ..before
        }),
        0 <= i < j < plan.pages@.len() ==> plan.pages@[i] < plan.pages@[j],
        0 <= i < j < plan.flushed@.len() ==> plan.flushed@[i] < plan.flushed@[j],
        0 <= i < j < plan.protect@.len() ==> plan.protect@[i] < plan.protect@[j],
{
}

/// Taking or saving a page changes nothing but what the capture has.
pub proof fn taking_a_page_changes_only_the_capture(
    before: VolumeState,
    after: VolumeState,
    page: u64,
    bytes: Vec<u8>,
    saved: bool,
    captured: Option<(u64, Vec<u8>)>,
)
    requires
        page_taken(before, after, page, bytes, captured) || saved_before_write(
            before,
            after,
            page,
            bytes,
            saved,
        ),
    ensures
        after == (VolumeState {
            operations: VolumeOperations {
                drain: after.operations.drain,
                ..before.operations
            },
            ..before
        }),
{
}

/// Recording a file changes nothing but where pages lie, what is known of files, and
/// the sums.
pub proof fn recording_a_file_changes_only_what_is_known(
    before: VolumeState,
    after: VolumeState,
    volume: u64,
    plan: CapturePlan,
    file: WrittenFile,
    post_checksum: u64,
    blocks: Map<u64, BlockSum>,
)
    requires
        file_recorded(before, after, volume, plan, file, post_checksum, blocks),
    ensures
        after == (VolumeState {
            page_locs: after.page_locs,
            pages: after.pages,
            files: after.files,
            file_refs: after.file_refs,
            tombstone_files: after.tombstone_files,
            blocks: after.blocks,
            state_checksum: after.state_checksum,
            operations: VolumeOperations {
                drain: after.operations.drain,
                ..before.operations
            },
            ..before
        }),
{
}

/// Finishing a capture releases the synchronisations that are acknowledged and no
/// other, keeps the answers to other requests, and changes nothing that it is not
/// about.
pub proof fn finishing_a_capture_keeps_what_waits(
    before: VolumeState,
    after: VolumeState,
    plan: CapturePlan,
    kind: CaptureKind,
    checkpoint: Option<Checkpoint>,
    record: VolumeRecord,
    files: Seq<ObjectIdentity>,
    complete: bool,
    sync: PendingSync,
    req: u64,
    seq: u64,
)
    requires
        capture_finished(before, after, plan, kind, checkpoint, record, files, complete),
    ensures
        after.pending_syncs@.contains(sync) <==> before.pending_syncs@.contains(sync)
            && sync.barrier > before.sync_ack_through,
        !(checkpoint is Some && checkpoint->0.req == Some(req)) ==> {
            &&& after.checkpoint_results@.contains_key(req)
                == before.checkpoint_results@.contains_key(req)
            &&& after.checkpoint_results@[req] == before.checkpoint_results@[req]
        },
        seq != record.seq ==> after.record_files@.contains_key(seq)
            == before.record_files@.contains_key(seq),
        seq != record.seq && before.record_files@.contains_key(seq) ==> after.record_files@[seq]
            == before.record_files@[seq],
        files.len() == 0 ==> after.next_object_id == before.next_object_id,
        files.len() > 0 && files.last().object_id < before.next_object_id ==> after.next_object_id
            == before.next_object_id,
        files.len() > 0 && before.next_object_id <= files.last().object_id < u64::MAX
            ==> after.next_object_id == files.last().object_id + 1,
        after == (VolumeState {
            best_record: after.best_record,
            archived_memory_usable: after.archived_memory_usable,
            pending_tombstones: after.pending_tombstones,
            next_object_id: after.next_object_id,
            local_covered_through: after.local_covered_through,
            pending_syncs: after.pending_syncs,
            record_writes: after.record_writes,
            record_files: after.record_files,
            operations: VolumeOperations {
                mutation: after.operations.mutation,
                drain: after.operations.drain,
                ..before.operations
            },
            mutation_waiters: after.mutation_waiters,
            epoch: after.epoch,
            pinned: after.pinned,
            checkpoint_results: after.checkpoint_results,
            ..before
        }),
{
    let ack = before.sync_ack_through;
    lemma_filter_members(before.pending_syncs@, |s: PendingSync| s.barrier > ack);
}

/// Ending a capture, made or given up, leaves the volume's content alone.
pub proof fn ending_a_capture_leaves_the_content_alone(
    before: HostState,
    after: HostState,
    volume: u64,
    incarnation: u64,
    kind: CaptureKind,
    armed: Seq<u64>,
    waiters: Seq<u64>,
)
    ensures
        slot_released(before, after, volume, incarnation, kind, waiters) ==> after == (HostState {
            volumes: after.volumes,
            scheduled: after.scheduled,
            ..before
        }),
        capture_given_up(before, after, volume, incarnation, armed) ==> after == (HostState {
            volumes: after.volumes,
            ..before
        }),
        slot_released(before, after, volume, incarnation, kind, waiters)
            && before.volumes@.contains_key(volume) && before.volumes@[volume].incarnation
            == incarnation ==> after.volumes@ == before.volumes@.insert(
            volume,
            VolumeState {
                operations: VolumeOperations {
                    mutation: after.volumes@[volume].operations.mutation,
                    ..before.volumes@[volume].operations
                },
                mutation_waiters: after.volumes@[volume].mutation_waiters,
                ..before.volumes@[volume]
            },
        ),
        capture_given_up(before, after, volume, incarnation, armed) && before.volumes@.contains_key(
            volume,
        ) && before.volumes@[volume].incarnation == incarnation ==> after.volumes@
            == before.volumes@.insert(
            volume,
            VolumeState {
                operations: VolumeOperations { drain: None, ..before.volumes@[volume].operations },
                ..before.volumes@[volume]
            },
        ),
        (!before.volumes@.contains_key(volume) || before.volumes@[volume].incarnation
            != incarnation) && (slot_released(
            before,
            after,
            volume,
            incarnation,
            kind,
            waiters,
        ) || capture_given_up(before, after, volume, incarnation, armed)) ==> after == before,
        (!before.volumes@.contains_key(volume) || before.volumes@[volume].incarnation
            != incarnation) && slot_released(before, after, volume, incarnation, kind, waiters)
            ==> waiters.len() == 0,
        (!before.volumes@.contains_key(volume) || before.volumes@[volume].incarnation
            != incarnation) && capture_given_up(before, after, volume, incarnation, armed)
            ==> armed.len() == 0,
{
}

// ---------------------------------------------------------------------------
// Faults
// ---------------------------------------------------------------------------

/// Serving a fault changes the volume's resident pages, its counts and the sum of
/// what was fetched, gives the volume its turn and counts; nothing else on the host
/// changes.
pub proof fn serving_a_fault_changes_only_its_page(
    before: HostState,
    after: HostState,
    volume: u64,
    incarnation: u64,
    page: u32,
    write: bool,
    write_protected: bool,
    allowed: bool,
    entry: PageEntry,
    contribution: u64,
    outcome: FetchOutcome,
    code: u64,
)
    requires
        before.volumes@.contains_key(volume),
        resident_written(before, after, volume, incarnation, page as u64, allowed) || zero_filled(
            before,
            after,
            volume,
            incarnation,
            page as u64,
            write,
            allowed,
        ) || shared_filled(
            before,
            after,
            volume,
            incarnation,
            page as u64,
            write,
            write_protected,
            allowed,
        ) || fetch_finished(
            before,
            after,
            volume,
            incarnation,
            page,
            entry,
            write,
            contribution,
            outcome,
        ),
        code != before.volumes@[volume].config.key(page).code(),
    ensures
        ({
            let was = before.volumes@[volume];
            let now = after.volumes@[volume];
            &&& now == (VolumeState {
                pages: now.pages,
                mutation_seq: now.mutation_seq,
                pages_dirtied: now.pages_dirtied,
                fills: now.fills,
                blocks: now.blocks,
                ..was
            })
            &&& now.blocks@.contains_key(code) == was.blocks@.contains_key(code)
            &&& now.blocks@[code] == was.blocks@[code]
        }),
        after == (HostState {
            volumes: after.volumes,
            scheduled: after.scheduled,
            bases: after.bases,
            counters: Counters {
                wp_faults: after.counters.wp_faults,
                guest_pages_dirtied: after.counters.guest_pages_dirtied,
                zero_fills: after.counters.zero_fills,
                fills: after.counters.fills,
                shared_fills: after.counters.shared_fills,
                ..before.counters
            },
            ..before
        }),
{
}

/// Planning to bring a page in only marks the page.
pub proof fn planning_a_fill_only_marks_the_page(
    before: HostState,
    after: HostState,
    volume: u64,
    incarnation: u64,
    page: u64,
    write: bool,
    write_protected: bool,
    slot_free: bool,
    plan: FillPlan,
)
    requires
        fill_begun(
            before,
            after,
            volume,
            incarnation,
            page,
            write,
            write_protected,
            slot_free,
            plan,
        ),
        before.volumes@.contains_key(volume),
    ensures
        after == (HostState {
            volumes: after.volumes,
            counters: Counters {
                faults_unservable: after.counters.faults_unservable,
                pressure_waits: after.counters.pressure_waits,
                ..before.counters
            },
            ..before
        }),
        after.volumes@[volume] == (VolumeState {
            filling: after.volumes@[volume].filling,
            ..before.volumes@[volume]
        }),
        plan is Gone || plan is Filling ==> after == before,
{
}

// ---------------------------------------------------------------------------
// Recovery, archive and forks
// ---------------------------------------------------------------------------

/// Opening a volume changes only that it is open, and what the head says.
pub proof fn recovery_changes_only_what_the_head_says(
    before: VolumeState,
    after: VolumeState,
    version: u64,
    head: HeadRecord,
    closure: ArchiveClosure,
    volume: u64,
    published: Option<ReplicaCommitInfo>,
    stash: StashAssignment,
)
    ensures
        opened(before, after) ==> after == (VolumeState {
            ready: after.ready,
            operations: VolumeOperations {
                recovery: after.operations.recovery,
                ..before.operations
            },
            ..before
        }),
        first_headed(before, after, version, stash) ==> after == (VolumeState {
            fence: after.fence,
            head_version: after.head_version,
            backed: after.backed,
            stash_assignment: after.stash_assignment,
            retired_stashes: after.retired_stashes,
            ..before
        }),
        recovered(before, after, version, head, closure, volume, published) ==> after == (
        VolumeState {
            ready: after.ready,
            operations: VolumeOperations {
                recovery: after.operations.recovery,
                ..before.operations
            },
            head_version: after.head_version,
            backed: after.backed,
            archive_objects: after.archive_objects,
            archive_base: after.archive_base,
            backed_files: after.backed_files,
            peer_published: after.peer_published,
            store_manifests: after.store_manifests,
            stash_assignment: after.stash_assignment,
            retired_stashes: after.retired_stashes,
            ..before
        }),
{
}

/// Resolving pages in the archive changes only what is known of it.
pub proof fn resolving_changes_only_what_is_known(
    before: VolumeState,
    after: VolumeState,
    volume: u64,
    page: u32,
    object: ObjectRef,
    footer: BlxFooter,
    valid: bool,
    objects: Seq<ObjectRef>,
    footers: Seq<LoadedFooter>,
)
    ensures
        footer_installed(before, after, object, footer, valid) ==> after == (VolumeState {
            archive_footers: after.archive_footers,
            ..before
        }),
        page_resolved(before, after, volume, page) ==> after == (VolumeState {
            archive_resolved: after.archive_resolved,
            next_gen: after.next_gen,
            blocks: after.blocks,
            page_locs: after.page_locs,
            ..before
        }),
        non_data_reset(before, after, volume, objects, footers) ==> after == (VolumeState {
            next_gen: after.next_gen,
            state_checksum: after.state_checksum,
            archive_footers: after.archive_footers,
            archived_non_data_reset: after.archived_non_data_reset,
            ..before
        }),
{
}

/// Publishing changes only what is known to be published.
pub proof fn publishing_changes_only_what_is_published(
    before: VolumeState,
    after: VolumeState,
    version: u64,
    pointer: ManifestPtr,
    snapshot: PublishSnapshot,
)
    requires
        publication_recorded(before, after, version, pointer, snapshot),
    ensures
        after == (VolumeState {
            head_version: after.head_version,
            backed: after.backed,
            backed_files: after.backed_files,
            peer_published: after.peer_published,
            ..before
        }),
{
}

/// A fork takes over its base's state and nothing else changes.
pub proof fn forking_takes_over_only_the_base(
    before: VolumeState,
    after: VolumeState,
    fence: u64,
    stash: StashAssignment,
    root: BaseRef,
    base: BaseManifest,
    pointer: ManifestPtr,
    version: u64,
    record: VolumeRecord,
    seq: u64,
)
    ensures
        fork_begun(before, after, fence, stash, root, base) ==> after == (VolumeState {
            fence: after.fence,
            head_version: after.head_version,
            stash_assignment: after.stash_assignment,
            mutation_seq: after.mutation_seq,
            state_checksum: after.state_checksum,
            archived_memory_usable: after.archived_memory_usable,
            archived_non_data_reset: after.archived_non_data_reset,
            archive_base: after.archive_base,
            archive_objects: after.archive_objects,
            best_record: after.best_record,
            ..before
        }),
        fork_opened(before, after, pointer, version, record) ==> after == (VolumeState {
            ready: after.ready,
            next_seq: after.next_seq,
            backed: after.backed,
            head_version: after.head_version,
            record_writes: after.record_writes,
            pinned: after.pinned,
            ..before
        }) && (seq != 0 ==> after.record_writes@.contains_key(seq)
            == before.record_writes@.contains_key(seq) && after.record_writes@[seq]
            == before.record_writes@[seq]),
{
}

// ---------------------------------------------------------------------------
// Databases and checkpoints
// ---------------------------------------------------------------------------

/// A commit changes a database's content and its numbers; its user, what is
/// confirmed and where it came from stay.
pub proof fn a_commit_changes_only_the_content(
    before: VsetState,
    after: VsetState,
    plan: PersistPlan,
    staged: Staged,
    rolled: Rolled,
    record: JournalRecord,
    database: DatabaseMeta,
    segments: Seq<BuiltSegment>,
)
    requires
        committed(before, after, plan, staged, rolled, record, database, segments),
    ensures
        after == (VsetState {
            mutation_seq: after.mutation_seq,
            next_seq: after.next_seq,
            next_seg: after.next_seg,
            next_gen: after.next_gen,
            next_leaf: after.next_leaf,
            page_locs: after.page_locs,
            overlay: after.overlay,
            leaf_table: after.leaf_table,
            database: after.database,
            best_record: after.best_record,
            local_covered_through: after.local_covered_through,
            record_writes: after.record_writes,
            segment_blobs: after.segment_blobs,
            leaf_blobs: after.leaf_blobs,
            mutation_waiters: after.mutation_waiters,
            operations: after.operations,
            ..before
        }),
{
}

/// Loading a leaf changes only what is known of the page map, and only of the vset it
/// was loaded for, as long as that leaf is still wanted.
pub proof fn a_leaf_changes_only_the_page_map(
    before: HostState,
    after: HostState,
    vset: VsetId,
    incarnation: u64,
    span: u64,
    pointer: LeafPointer,
    entries: Seq<LeafEntry>,
    bytes: u64,
)
    requires
        leaf_taken(before, after, vset, incarnation, span, pointer, entries, bytes),
    ensures
        ({
            let was = before.vsets@[vset.0];
            let now = after.vsets@[vset.0];
            let wanted = before.vsets@.contains_key(vset.0) && was.incarnation == incarnation
                && was.leaf_table@.contains_key(span) && was.leaf_table@[span] == pointer;
            &&& !wanted ==> after == before
            &&& wanted ==> {
                &&& leaf_installed(was, now, vset, span, pointer, entries, bytes)
                &&& after == (HostState { vsets: after.vsets, ..before })
                &&& after.vsets@ == before.vsets@.insert(vset.0, now)
                &&& now == (VsetState {
                    page_locs: now.page_locs,
                    next_gen: now.next_gen,
                    backed_segments: now.backed_segments,
                    backed_leaves: now.backed_leaves,
                    leaf_blobs: now.leaf_blobs,
                    failed_spans: now.failed_spans,
                    hydrated_spans: now.hydrated_spans,
                    hydrations: now.hydrations,
                    ..was
                })
            }
        }),
{
}

/// Asking for a checkpoint, pausing and resuming leave the volume's content alone.
pub proof fn checkpoint_requests_leave_the_content_alone(
    before: HostState,
    after: HostState,
    volume: u64,
    waiter: u64,
    step: CheckpointStep,
    incarnation: u64,
    waiters: Seq<u64>,
)
    requires
        before.volumes@.contains_key(volume),
        checkpoint_decided(before, after, volume, waiter, step) || noted_paused(
            before,
            after,
            volume,
        ) || noted_resumed(before, after, volume, incarnation, waiters),
    ensures
        after == (HostState { volumes: after.volumes, scheduled: after.scheduled, ..before }),
        after.volumes@ == before.volumes@.insert(volume, after.volumes@[volume]),
        after.volumes@[volume] == (VolumeState {
            operations: VolumeOperations {
                mutation: after.volumes@[volume].operations.mutation,
                guest_resume: after.volumes@[volume].operations.guest_resume,
                ..before.volumes@[volume].operations
            },
            mutation_waiters: after.volumes@[volume].mutation_waiters,
            ..before.volumes@[volume]
        }),
        noted_resumed(before, after, volume, incarnation, waiters)
            && before.volumes@[volume].incarnation != incarnation ==> after == before
            && waiters.len() == 0,
{
}

// ---------------------------------------------------------------------------
// The host
// ---------------------------------------------------------------------------

/// Writing a capture's files and its record changes the volume captured, and nothing
/// else of the host.
pub proof fn writing_a_capture_changes_one_volume(
    before: HostState,
    after: HostState,
    job: FileJob,
    batch: CaptureBatch,
    files: Vec<WrittenFile>,
    step: CaptureStep,
)
    ensures
        file_counted(before, after, job) ==> after == (HostState {
            volumes: after.volumes,
            ..before
        }) && after.volumes@ == before.volumes@.insert(
            job.batch.job.volume,
            after.volumes@[job.batch.job.volume],
        ),
        records_state(before, after, batch, files, step) ==> after == (HostState {
            volumes: after.volumes,
            ..before
        }),
        records_state(before, after, batch, files, step) && before.volumes@.contains_key(
            batch.job.volume,
        ) && before.volumes@[batch.job.volume].incarnation == batch.job.plan.incarnation
            ==> after.volumes@ == before.volumes@.insert(
            batch.job.volume,
            VolumeState {
                vmm_files: after.volumes@[batch.job.volume].vmm_files,
                ..before.volumes@[batch.job.volume]
            },
        ),
        records_state(before, after, batch, files, step) && !(before.volumes@.contains_key(
            batch.job.volume,
        ) && before.volumes@[batch.job.volume].incarnation == batch.job.plan.incarnation)
            ==> after == before && step is GiveUp,
{
}

/// A leaf that failed changes only what is known to have failed, of one vset.
pub proof fn a_failed_leaf_changes_one_vset(
    before: HostState,
    after: HostState,
    vset: VsetId,
    incarnation: u64,
    span: u64,
    pointer: LeafPointer,
    elsewhere: u64,
)
    requires
        leaf_failed(before, after, vset, incarnation, span, pointer),
        elsewhere != vset.0,
    ensures
        after == (HostState { vsets: after.vsets, ..before }),
        before.vsets@.contains_key(vset.0) ==> after.vsets@[vset.0] == (VsetState {
            failed_spans: after.vsets@[vset.0].failed_spans,
            ..before.vsets@[vset.0]
        }),
        after.vsets@.contains_key(elsewhere) == before.vsets@.contains_key(elsewhere),
        after.vsets@[elsewhere] == before.vsets@[elsewhere],
{
}

/// Opening a volume gives it its turn, and changes nothing else of the host.
pub proof fn opening_changes_one_volume(
    before: HostState,
    after: HostState,
    volume: u64,
    pending: PendingOpen,
    published: Option<ReplicaCommitInfo>,
)
    requires
        opens(before, after, volume, pending, published),
    ensures
        after == (HostState { volumes: after.volumes, scheduled: after.scheduled, ..before }),
        after.volumes@ == before.volumes@.insert(volume, after.volumes@[volume]),
        after.volumes@[volume].best_record == before.volumes@[volume].best_record,
        after.volumes@[volume].page_locs == before.volumes@[volume].page_locs,
        after.volumes@[volume].fence == before.volumes@[volume].fence,
{
}

} // verus!
