//! What states begin as and how they follow each other; and what names and numbers
//! stand for.

use super::super::committing::{writing_step, CommitJob, CommitStep, CommitWrite};
use super::super::database::with_phase;
use super::super::sources::has_sync;
use super::super::state::{follows, AttachmentPhase, Counters, HostState, VsetState};
use super::super::task::needs_spans;
use super::super::volume::{PendingSync, VolumeConfig, VolumeKind, VolumeState};
use crate::database::{AttachmentId, DatabaseFile};
use crate::head::ReplicaCommitInfo;
use crate::journal::{VsetConfig, LEAF_SPAN};
use crate::objects::{placed, BlockKey, BlockSpace, NamespaceKind, ObjectIdentity, ObjectRef};
use crate::types::{PageId, PageNo, VsetId};
use vstd::prelude::*;

verus! {

// ---------------------------------------------------------------------------
// Beginnings
// ---------------------------------------------------------------------------

/// A new volume is closed and empty: nothing was written, recorded, archived,
/// covered or acknowledged, and nothing is under way.
pub proof fn a_new_volume_is_empty(state: VolumeState, config: VolumeConfig, incarnation: u64)
    requires
        state.is_fresh(config, incarnation),
    ensures
        state.config == config,
        state.incarnation == incarnation,
        !state.ready,
        !state.outbound,
        state.fence == 0,
        state.mutation_seq == 0,
        state.next_seq == 0,
        state.next_object_id == 0,
        state.next_gen == 0,
        state.epoch == 0,
        state.sync_ack_through == 0,
        state.local_covered_through == 0,
        state.state_checksum == 0,
        state.pages_dirtied == 0,
        state.fills == 0,
        state.archived_memory_usable,
        state.archived_non_data_reset,
        state.best_record is None,
        state.pinned is None,
        state.head_version is None,
        state.backed is None,
        state.stash_assignment is None,
        state.peer_published is None,
        state.peer_committed is None,
        state.peer_committed_record is None,
        state.peer_source is None,
        state.peer_source_offer_fence == 0,
        state.archive_base is None,
        state.operations.mutation is None,
        state.operations.drain is None,
        state.operations.recovery is None,
        !state.operations.migration,
        !state.operations.replication,
        !state.operations.publication,
        !state.operations.guest_resume,
        forall|page: u64| !#[trigger] state.page_locs@.contains_key(page),
        forall|page: u64| !#[trigger] state.pages@.contains_key(page),
        forall|page: u64| !#[trigger] state.filling@.contains(page),
        forall|code: u64| !#[trigger] state.blocks@.contains_key(code),
        forall|code: u64| !#[trigger] state.pending_tombstones@.contains(code),
        forall|page: u64| !#[trigger] state.archive_resolved@.contains(page),
        forall|seq: u64| !#[trigger] state.record_writes@.contains_key(seq),
        forall|seq: u64| !#[trigger] state.record_files@.contains_key(seq),
        forall|req: u64| !#[trigger] state.checkpoint_results@.contains_key(req),
        state.files@.len() == 0,
        state.file_refs@.len() == 0,
        state.tombstone_files@.len() == 0,
        state.vmm_files@.len() == 0,
        state.archive_objects@.len() == 0,
        state.archive_footers@.len() == 0,
        state.pending_syncs@.len() == 0,
        state.backed_files@.len() == 0,
        state.publishing_files@.len() == 0,
        state.store_manifests@.len() == 0,
        state.retired_stashes@.len() == 0,
        state.mutation_waiters@.len() == 0,
        state.publication_waiters@.len() == 0,
{
}

/// A new vset is closed, empty and without a user, and none of its files exists.
pub proof fn a_new_vset_is_empty(state: VsetState, config: VsetConfig, incarnation: u64)
    requires
        state.is_fresh(config, incarnation),
    ensures
        state.config == config,
        state.incarnation == incarnation,
        !state.ready,
        !state.outbound,
        state.fence == 0,
        state.mutation_seq == 0,
        state.next_seq == 0,
        state.next_seg == 0,
        state.next_gen == 0,
        state.next_leaf == 0,
        state.hydrations == 0,
        state.sync_ack_through == 0,
        state.local_covered_through == 0,
        state.best_record is None,
        state.peer_source is None,
        state.peer_source_offer_fence == 0,
        state.operations.mutation is None,
        !state.operations.migration,
        state.database_runtime.phase == AttachmentPhase::Detached,
        state.database_runtime.active is None,
        state.database_runtime.drain_barrier == 0,
        !state.database.main.exists && state.database.main.size == 0,
        !state.database.wal.exists && state.database.wal.size == 0,
        !state.database.journal.exists && state.database.journal.size == 0,
        forall|key: u64| !#[trigger] state.page_locs@.contains_key(key),
        forall|key: u64| !#[trigger] state.overlay@.contains_key(key),
        forall|span: u64| !#[trigger] state.leaf_table@.contains_key(span),
        forall|span: u64| !#[trigger] state.hydrated_spans@.contains(span),
        forall|span: u64| !#[trigger] state.failed_spans@.contains(span),
        forall|span: u64| !#[trigger] state.leaf_waiters@.contains_key(span),
        forall|h: u64| !#[trigger] state.database_runtime.handles@.contains_key(h),
        forall|seq: u64| !#[trigger] state.record_writes@.contains_key(seq),
        state.backed_segments@.len() == 0,
        state.backed_leaves@.len() == 0,
        state.segment_blobs@.len() == 0,
        state.leaf_blobs@.len() == 0,
        state.mutation_waiters@.len() == 0,
{
}

/// Nothing has been counted at the start.
pub proof fn counting_begins_at_zero()
    ensures
        ({
            let zero = Counters::zero();
            &&& zero.pages_flushed == 0 && zero.records_written == 0 && zero.leaf_rolls == 0
            &&& zero.guest_rejected == 0 && zero.guest_pages_dirtied == 0 && zero.wp_faults == 0
            &&& zero.cow_captures == 0 && zero.pressure_waits == 0 && zero.zero_fills == 0
            &&& zero.shared_fills == 0 && zero.fills == 0 && zero.faults_unservable == 0
            &&& zero.syncs_acked == 0 && zero.checkpoints_done == 0 && zero.files_compacted == 0
            &&& zero.pages_compacted == 0 && zero.manifests_published == 0
            &&& zero.assignment_claims == 0 && zero.assignment_claim_conflicts == 0
            &&& zero.store_retries == 0 && zero.fenced == 0
        }),
{
}

// ---------------------------------------------------------------------------
// How states follow each other
// ---------------------------------------------------------------------------

/// Whatever happens, numbers of users and volumes are never given out again, a volume
/// of a number known before is the one it was, and answers once given stand.
pub proof fn numbers_are_never_given_out_again(
    before: HostState,
    after: HostState,
    volume: u64,
    req: u64,
)
    requires
        follows(before, after),
    ensures
        before.next_attachment <= after.next_attachment,
        before.next_incarnation <= after.next_incarnation,
        after.volumes@.contains_key(volume) && after.volumes@[volume].incarnation
            < before.next_incarnation ==> {
            &&& before.volumes@.contains_key(volume)
            &&& before.volumes@[volume].incarnation == after.volumes@[volume].incarnation
            &&& before.volumes@[volume].checkpoint_results@.contains_key(req)
                ==> after.volumes@[volume].checkpoint_results@.contains_key(req)
                && after.volumes@[volume].checkpoint_results@[req]
                == before.volumes@[volume].checkpoint_results@[req]
        },
        before.wf() ==> after.wf(),
{
}

/// In a sound host state every number in use is below those to be given out.
pub proof fn numbers_in_use_are_below_the_next(
    host: HostState,
    volume: u64,
    vset: u64,
    id: AttachmentId,
    i: int,
    j: int,
)
    requires
        host.wf(),
    ensures
        host.volumes@.contains_key(volume) ==> host.volumes@[volume].incarnation
            < host.next_incarnation,
        host.vsets@.contains_key(vset) && (host.vsets@[vset].database_runtime.phase
            == AttachmentPhase::Attached(id) || host.vsets@[vset].database_runtime.phase
            == AttachmentPhase::Draining(id) || host.vsets@[vset].database_runtime.phase
            == AttachmentPhase::Forced(id)) ==> id.generation < host.next_attachment,
        host.volumes@.contains_key(volume) && 0 <= i < j < host.volumes@[volume].file_refs@.len()
            ==> host.volumes@[volume].file_refs@[i].identity.before(
            host.volumes@[volume].file_refs@[j].identity,
        ),
{
    if host.volumes@.contains_key(volume) {
        assert(host.volumes@[volume].wf());
    }
    if host.vsets@.contains_key(vset) {
        assert(host.vsets@.contains_key(vset));
    }
}

/// A volume is found under its number only while it is the one that was meant.
pub proof fn a_replaced_volume_is_not_found(host: HostState, volume: u64, incarnation: u64)
    ensures
        ({
            let here = host.volumes@.contains_key(volume) && host.volumes@[volume].incarnation
                == incarnation;
            &&& here ==> host.volume_at_spec(volume, incarnation) == Some(host.volumes@[volume])
            &&& !here ==> host.volume_at_spec(volume, incarnation) is None
        }),
{
}

/// A change of the phase changes nothing else of a database.
pub proof fn a_phase_changes_alone(state: VsetState, phase: AttachmentPhase)
    ensures
        with_phase(state, phase).database_runtime.phase == phase,
        with_phase(state, phase).database_runtime.handles == state.database_runtime.handles,
        with_phase(state, phase).database_runtime.active == state.database_runtime.active,
        with_phase(state, phase).database_runtime.drain_barrier
            == state.database_runtime.drain_barrier,
        with_phase(state, phase) == (VsetState {
            database_runtime: with_phase(state, phase).database_runtime,
            ..state
        }),
{
}

// ---------------------------------------------------------------------------
// Steps
// ---------------------------------------------------------------------------

/// A commit's record is written after its last blob.
pub proof fn blobs_come_before_the_record(write: CommitWrite)
    ensures
        write.done < write.blobs@.len() ==> writing_step(write) == CommitStep::WriteBlob(write),
        write.done >= write.blobs@.len() ==> writing_step(write) == CommitStep::WriteRecord(write),
{
}

/// A commit's pages are those of its file from the first on, each under the
/// generation that is planned for it.
pub proof fn a_commits_pages_follow_each_other(job: CommitJob, i: int)
    requires
        job.numbered(),
        0 <= i < job.commit.pages@.len(),
    ensures
        ({
            let (page, generation) = job.update_at(i);
            &&& page.page.0 == job.commit.first + i
            &&& page.volume.vset == job.vset
            &&& job.commit.file == DatabaseFile::Main ==> page.volume.idx.0 == 0
            &&& job.commit.file == DatabaseFile::Wal ==> page.volume.idx.0 == 1
            &&& job.commit.file == DatabaseFile::Journal ==> page.volume.idx.0 == 2
            &&& generation == job.plan.first_generation + i
        }),
{
}

/// The leaves to load before a file is cut are all that the cut can reach, in order.
pub proof fn a_cut_loads_every_leaf_it_reaches(
    state: VsetState,
    file: DatabaseFile,
    first_removed: u64,
    spans: Seq<u64>,
    span: u64,
    i: int,
    j: int,
)
    requires
        needs_spans(state, file, first_removed, spans),
        first_removed < state.config.pages_per_volume,
    ensures
        ({
            let volume = if file == DatabaseFile::Main {
                0int
            } else if file == DatabaseFile::Wal {
                1
            } else {
                2
            };
            spans.contains(span) <==> state.leaf_table@.contains_key(span) && (volume
                * 0x1_0000_0000 + first_removed) / LEAF_SPAN as int <= span <= (volume
                * 0x1_0000_0000 + state.config.pages_per_volume - 1) / LEAF_SPAN as int
        }),
        0 <= i < j < spans.len() ==> spans[i] < spans[j],
{
    let there = spans.contains(span);
    super::commits::a_cut_reaches_the_rest_of_the_file(
        state.config,
        file,
        first_removed,
        first_removed as u32,
    );
}

/// A synchronisation waits if one of its number does.
pub proof fn a_synchronisation_is_known_by_its_number(
    waiting: Seq<PendingSync>,
    id: u64,
    i: int,
)
    ensures
        0 <= i < waiting.len() && waiting[i].id == id ==> has_sync(waiting, id),
        (forall|k: int| 0 <= k < waiting.len() ==> (#[trigger] waiting[k]).id != id) ==> !has_sync(
            waiting,
            id,
        ),
{
    if 0 <= i < waiting.len() && waiting[i].id == id {
        assert(waiting[i].id == id);
    }
    if has_sync(waiting, id) {
        let k = choose|k: int| 0 <= k < waiting.len() && #[trigger] waiting[k].id == id;
        assert(waiting[k].id == id);
    }
}

// ---------------------------------------------------------------------------
// Names and numbers
// ---------------------------------------------------------------------------

/// A page of a volume is a block of the volume's own space, and blocks are ordered by
/// space and number.
pub proof fn pages_are_blocks(config: VolumeConfig, page: u32, key: BlockKey)
    ensures
        config.key(page).block == page,
        config.kind == VolumeKind::Data ==> config.key(page).space == BlockSpace::Data,
        config.kind == VolumeKind::Memory ==> config.key(page).space == BlockSpace::Memory,
        config.is_memory() <==> config.kind == VolumeKind::Memory,
        key.space == BlockSpace::Data ==> key.code() == key.block,
        key.space == BlockSpace::Memory ==> key.code() == 0x1_0000_0000 + key.block,
        key.space == BlockSpace::Vmm ==> key.code() == 0x2_0000_0000 + key.block,
{
    assert(key.code() == key.space.rank() * 0x1_0000_0000 + key.block);
}

/// Keys of pages put the volume before the page; leaves hold a fixed number of them.
pub proof fn page_keys_put_the_volume_first(page: PageId)
    ensures
        crate::journal::page_key_spec(page) == page.volume.idx.0 * 0x1_0000_0000 + page.page.0,
        crate::journal::key_volume_spec(crate::journal::page_key_spec(page))
            == page.volume.idx.0,
        crate::journal::key_page_spec(crate::journal::page_key_spec(page)) == page.page.0,
        crate::journal::key_span_spec(crate::journal::page_key_spec(page)) == (page.volume.idx.0
            * 0x1_0000_0000 + page.page.0) / LEAF_SPAN as int,
{
}

/// A page is within a vset exactly if its volume and its number are.
pub proof fn pages_within_a_vset(config: VsetConfig, page: PageId)
    ensures
        config.contains_spec(page) <==> page.volume.idx.0 < config.volumes && page.page.0
            < config.pages_per_volume,
{
}

/// Each database file has a volume of its own.
pub proof fn files_have_their_own_volumes(file: DatabaseFile, vset: VsetId, page: u32)
    ensures
        file == DatabaseFile::Main ==> file.volume_index().0 == 0,
        file == DatabaseFile::Wal ==> file.volume_index().0 == 1,
        file == DatabaseFile::Journal ==> file.volume_index().0 == 2,
        file.page(vset, page).volume.vset == vset,
        file.page(vset, page).volume.idx == file.volume_index(),
        file.page(vset, page).page == PageNo(page),
{
}

/// Objects are ordered by kind of name, name, fence and number, in this order.
pub proof fn objects_are_ordered_by_name(a: ObjectIdentity, b: ObjectIdentity)
    ensures
        a.namespace_kind == NamespaceKind::Volume && b.namespace_kind
            == NamespaceKind::ImportedBase ==> a.before(b) && !b.before(a),
        a.namespace_kind == b.namespace_kind ==> (a.before(b) <==> {
            ||| a.namespace_id < b.namespace_id
            ||| a.namespace_id == b.namespace_id && a.writer_fence < b.writer_fence
            ||| a.namespace_id == b.namespace_id && a.writer_fence == b.writer_fence && a.object_id
                < b.object_id
        }),
{
}

/// An object put into an ordered list replaces the one of its name, and every other
/// stays.
pub proof fn a_placed_object_replaces_its_name(
    before: Seq<ObjectRef>,
    after: Seq<ObjectRef>,
    object: ObjectRef,
    other: ObjectRef,
    i: int,
    j: int,
)
    requires
        placed(before, after, object),
    ensures
        after.contains(object),
        other != object ==> (after.contains(other) <==> before.contains(other) && other.identity
            != object.identity),
        0 <= i < j < after.len() ==> after[i].identity.before(after[j].identity),
{
    let there = after.contains(other);
    let here = after.contains(object);
}

/// A commit reaches another if it is of a later fence, or of the same and a later
/// record, or of the same record and covers as much.
pub proof fn commits_are_ordered(a: ReplicaCommitInfo, b: ReplicaCommitInfo)
    ensures
        a.at_least(b) <==> {
            ||| a.writer_fence > b.writer_fence
            ||| a.writer_fence == b.writer_fence && a.seq > b.seq
            ||| a.writer_fence == b.writer_fence && a.seq == b.seq && a.sync_covered_through
                >= b.sync_covered_through
        },
        a.record_before(b) <==> {
            ||| a.writer_fence < b.writer_fence
            ||| a.writer_fence == b.writer_fence && a.seq < b.seq
        },
        a.at_least(a),
        a.record_before(b) ==> !a.at_least(b),
{
}

} // verus!
