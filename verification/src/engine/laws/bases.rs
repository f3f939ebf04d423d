//! What keeping and forking are for: a fork begins where the kept state was.

use super::super::bases::{
    forks, gives_up_fork, goes_on_collected, is_fork_head, opens_fork, ForkHead, ForkJob, ForkStep,
    ForkedJob, KeepStep,
};
use super::super::lineage::{
    fork_begun, fork_opened, fork_verdict_spec, fresh_files, is_fork_manifest, is_fork_record,
    keep_rewrites, kept_files, kept_manifest, BaseManifest, KeepSource,
};
use super::super::publish::{
    has_group, in_partition, partition_of, too_many_share, within_partitions,
};
use super::super::state::HostState;
use super::super::volume::{BaseRef, Verdict, VolumeRecord, VolumeRecordKind, VolumeState};
use super::seqs::{lemma_filter_lengths, lemma_filter_members};
use crate::head::{HeadRecord, ManifestPtr, StashAssignment};
use crate::manifest::Manifest;
use crate::objects::{lists, ObjectRef};
use crate::protocol::{AdminError, AdminSuccess};
use vstd::prelude::*;

verus! {

/// A kept state is the one that was pinned: its shape, its writes, its checkpoint
/// and its checksums, under the base's own name.
pub proof fn a_kept_state_is_the_pinned_one(
    base: u64,
    source: KeepSource,
    metadata_checksum: u64,
    objects: Vec<ObjectRef>,
)
    ensures
        ({
            let kept = kept_manifest(base, source, metadata_checksum, objects);
            &&& kept.kind == source.record.kind
            &&& kept.config == source.record.config
            &&& kept.capture_seq == source.record.capture_seq
            &&& kept.sync_covered_through == source.record.sync_covered_through
            &&& kept.post_state_checksum == source.state_checksum
            &&& kept.metadata_checksum == metadata_checksum
            &&& kept.objects@ == objects@
            &&& kept.base_id == base
        }),
{
}

/// Keeping a pinned state and forking what was kept gives a volume that begins as
/// the pinned one was. Its first record is a checkpoint exactly if the pinned
/// record was, with the same device state, and counts from the start; and it is
/// reported whole exactly then.
pub proof fn a_fork_of_a_kept_state_begins_as_pinned(
    base: u64,
    source: KeepSource,
    metadata_checksum: u64,
    objects: Vec<ObjectRef>,
    before: VolumeState,
    begun: VolumeState,
    opened: VolumeState,
    fence: u64,
    stash: StashAssignment,
    root: BaseRef,
    pointer: ManifestPtr,
    version: u64,
    record: VolumeRecord,
)
    requires
        fork_begun(
            before,
            begun,
            fence,
            stash,
            root,
            kept_manifest(base, source, metadata_checksum, objects),
        ),
        is_fork_record(record, fence, kept_manifest(base, source, metadata_checksum, objects)),
        fork_opened(begun, opened, pointer, version, record),
    ensures
        begun.best_record is Some,
        ({
            let first = begun.best_record->0;
            let pinned = source.record;
            &&& match pinned.kind {
                VolumeRecordKind::Checkpoint { epoch, vmstate, vmstate_length } => {
                    &&& first.kind == (VolumeRecordKind::Checkpoint {
                        epoch: 0,
                        vmstate,
                        vmstate_length,
                    })
                    &&& record.kind == first.kind
                    &&& opened.pinned is Some
                    &&& opened.pinned->0.kind == first.kind
                    &&& opened.pinned->0.seq == 0
                    &&& opened.pinned->0.fence == fence
                    &&& begun.archived_memory_usable
                    &&& begun.archived_non_data_reset
                },
                VolumeRecordKind::Commit => {
                    &&& first.kind == VolumeRecordKind::Commit
                    &&& record.kind == VolumeRecordKind::Commit
                    &&& opened.pinned == before.pinned
                    &&& !begun.archived_memory_usable
                    &&& !begun.archived_non_data_reset
                },
            }
            &&& fork_verdict_spec(
                kept_manifest(base, source, metadata_checksum, objects).kind,
            ) == Verdict::Whole <==> pinned.kind is Checkpoint
            &&& fork_verdict_spec(
                kept_manifest(base, source, metadata_checksum, objects).kind,
            ) == Verdict::ColdBoot <==> pinned.kind is Commit
            &&& first.config == pinned.config
            &&& first.capture_seq == pinned.capture_seq
            &&& first.sync_covered_through == pinned.sync_covered_through
            &&& first.post_state_checksum == source.state_checksum
            &&& first.seq == 0
            &&& first.fence == fence
            &&& first.files@.len() == 0
            &&& first.migrated_from is None
            &&& begun.mutation_seq == pinned.capture_seq
            &&& begun.state_checksum == source.state_checksum
            &&& begun.archive_objects@ == objects@
            &&& begun.archive_base == Some(root)
            &&& begun.fence == fence
            &&& begun.head_version == Some(fence)
            &&& begun.stash_assignment == Some(stash)
            &&& begun.page_locs == before.page_locs
            &&& opened.ready
            &&& opened.next_seq == 1
            &&& opened.backed == Some(pointer)
            &&& opened.head_version == Some(version)
            &&& opened.record_writes@.contains_key(0)
            &&& opened.record_writes@[0] == (fence, 0u64)
            &&& opened.best_record == begun.best_record
            &&& opened.archive_objects == begun.archive_objects
        }),
{
}

/// A fork's archived state is its base's, by the base's name.
pub proof fn a_fork_is_archived_as_its_base(
    manifest: Manifest,
    volume: u64,
    fence: u64,
    root: BaseRef,
    base: BaseManifest,
)
    requires
        is_fork_manifest(manifest, volume, fence, root, base),
    ensures
        manifest.volume == volume,
        manifest.writer_fence == fence,
        manifest.journal_seq == 0,
        manifest.archive_seq == 0,
        manifest.base == Some(root),
        manifest.config == base.config,
        manifest.capture_seq == base.capture_seq,
        manifest.sync_covered_through == base.sync_covered_through,
        manifest.post_state_checksum == root.post_state_checksum,
        manifest.metadata_checksum == base.metadata_checksum,
        manifest.added@.len() == 0,
        manifest.removed@.len() == 0,
        manifest.complete_list is None,
        manifest.kind is Checkpoint <==> base.kind is Checkpoint,
        match (manifest.kind, base.kind) {
            (
                VolumeRecordKind::Checkpoint { epoch, vmstate, vmstate_length },
                VolumeRecordKind::Checkpoint { epoch: _, vmstate: state, vmstate_length: length },
            ) => epoch == 0 && vmstate == state && vmstate_length == length,
            _ => true,
        },
{
}

/// A fork that took its head begins on this host and on the base it was given, and
/// the claim is counted.
pub proof fn a_claimed_fork_begins(
    before: HostState,
    after: HostState,
    volume: u64,
    job: ForkJob,
    fence: u64,
    step: ForkStep,
    elsewhere: u64,
)
    requires
        forks(before, after, volume, job, fence, step),
        before.counters.assignment_claims < u64::MAX,
        elsewhere != volume,
    ensures
        step is WriteRecord,
        step->WriteRecord_0.fence == fence,
        step->WriteRecord_0.fork == job,
        step->WriteRecord_0.record.config == job.base.config,
        step->WriteRecord_0.record.capture_seq == job.base.capture_seq,
        step->WriteRecord_0.record.fence == fence,
        step->WriteRecord_0.record.seq == 0,
        after.volumes@.contains_key(volume),
        after.volumes@[volume].fence == fence,
        after.volumes@[volume].archive_objects@ == job.base.objects@,
        after.volumes@[volume].archive_base == Some(job.root),
        after.counters.assignment_claims == before.counters.assignment_claims + 1,
        after.volumes@.contains_key(elsewhere) == before.volumes@.contains_key(elsewhere),
        before.volumes@.contains_key(elsewhere) ==> after.volumes@[elsewhere]
            == before.volumes@[elsewhere],
{
}

/// A fork that is recorded opens here under the head that names this host, and the
/// answer says whether it is whole.
pub proof fn a_recorded_fork_opens(
    before: HostState,
    after: HostState,
    volume: u64,
    job: ForkHead,
    version: u64,
    step: ForkStep,
    elsewhere: u64,
)
    requires
        opens_fork(before, after, volume, job, version, step),
        before.volumes@.contains_key(volume),
        before.volumes@[volume].incarnation == job.forked.fork.incarnation,
        before.counters.records_written < u64::MAX,
        before.counters.manifests_published < u64::MAX,
        elsewhere != volume,
    ensures
        step is Reply,
        match step->Reply_0 {
            Ok(AdminSuccess::VolumeForked { volume: of, verdict }) => {
                &&& of == volume
                &&& verdict == Verdict::Whole <==> job.forked.fork.base.kind is Checkpoint
                &&& verdict == Verdict::ColdBoot <==> job.forked.fork.base.kind is Commit
            },
            _ => false,
        },
        after.volumes@[volume].ready,
        after.volumes@[volume].head_version == Some(version),
        after.volumes@[volume].backed == Some(job.pointer),
        after.scheduled@.contains(volume),
        after.counters.records_written == before.counters.records_written + 1,
        after.counters.manifests_published == before.counters.manifests_published + 1,
        after.volumes@.contains_key(elsewhere) == before.volumes@.contains_key(elsewhere),
        before.volumes@.contains_key(elsewhere) ==> after.volumes@[elsewhere]
            == before.volumes@[elsewhere],
{
    super::fault::turns_are_kept(before.scheduled@, volume, volume);
}

/// The head of a fork names this host and the fork's own archived state.
pub proof fn a_fork_is_held_here(
    head: HeadRecord,
    volume: u64,
    host: HostState,
    job: ForkedJob,
    pointer: ManifestPtr,
)
    requires
        is_fork_head(head, volume, host, job, pointer),
    ensures
        head.volume == volume,
        head.holder == host.host,
        head.fence == job.fence,
        head.manifest == Some(pointer),
        head.stash == Some(job.fork.stash),
        head.retired_stashes@.len() == 0,
{
}

/// Files of a kept state are either archived already or new, and none is left out.
pub proof fn kept_files_are_archived_or_fresh(
    all: Seq<ObjectRef>,
    archived: Seq<ObjectRef>,
    file: ObjectRef,
    limit: usize,
)
    ensures
        kept_files(all, archived).contains(file) <==> all.contains(file) && exists|i: int|
            0 <= i < archived.len() && #[trigger] archived[i].identity == file.identity,
        fresh_files(all, archived).contains(file) <==> all.contains(file) && !(exists|i: int|
            0 <= i < archived.len() && #[trigger] archived[i].identity == file.identity),
        kept_files(all, archived).len() + fresh_files(all, archived).len() == all.len(),
        keep_rewrites(all, archived, limit) ==> too_many_share(all, limit) && exists|i: int|
            0 <= i < all.len() && !lists(archived, (#[trigger] all[i]).identity),
        too_many_share(all, limit) && all.contains(file) && !lists(archived, file.identity)
            ==> keep_rewrites(all, archived, limit),
{
    let old_ones = |o: ObjectRef| lists(archived, o.identity);
    let new_ones = |o: ObjectRef| !lists(archived, o.identity);
    lemma_filter_members(all, old_ones);
    lemma_filter_members(all, new_ones);
    lemma_filter_lengths(all, old_ones, new_ones);
    let fresh = fresh_files(all, archived);
    if fresh.len() > 0 {
        assert(fresh.contains(fresh[0]));
        let i = choose|i: int| 0 <= i < all.len() && all[i] == fresh[0];
        assert(!lists(archived, all[i].identity));
    }
    if too_many_share(all, limit) && all.contains(file) && !lists(archived, file.identity) {
        assert(fresh.contains(file));
    }
}

/// A fork that is rejected leaves nothing behind and is answered so; no other volume
/// is touched.
pub proof fn a_rejected_fork_is_gone(
    before: HostState,
    after: HostState,
    volume: u64,
    step: ForkStep,
    elsewhere: u64,
)
    requires
        gives_up_fork(before, after, volume, step),
        elsewhere != volume,
    ensures
        step == ForkStep::Reply(Err(AdminError::Rejected)),
        !after.volumes@.contains_key(volume),
        after.volumes@.contains_key(elsewhere) == before.volumes@.contains_key(elsewhere),
        before.volumes@.contains_key(elsewhere) ==> after.volumes@[elsewhere]
            == before.volumes@[elsewhere],
        after == (HostState { volumes: after.volumes, ..before }),
{
}

/// How keeping goes on once all files are there: as they are, unless too many share
/// a key and some are new; then the new ones are rewritten by partition, which they
/// must not reach out of, and the archived ones stay.
pub proof fn collected_files_are_kept_or_rewritten(
    base: u64,
    source: KeepSource,
    all: Seq<ObjectRef>,
    limit: usize,
    step: KeepStep,
    file: ObjectRef,
    k: int,
)
    requires
        goes_on_collected(base, source, all, limit, step),
    ensures
        ({
            let fresh = fresh_files(all, source.archived@);
            let rewrites = too_many_share(all, limit) && fresh.len() > 0;
            let apart = forall|i: int|
                0 <= i < fresh.len() ==> (#[trigger] fresh[i]).first_key.space.rank()
                    == fresh[i].last_key.space.rank();
            &&& !rewrites ==> match step {
                KeepStep::Check(job) => job.base == base && job.source == source && job.objects@
                    == all,
                _ => false,
            }
            &&& rewrites && !apart ==> step == KeepStep::Reply(Err(AdminError::Rejected))
            &&& rewrites && apart ==> match step {
                KeepStep::Rewrite(job) => {
                    &&& job.base == base
                    &&& job.source == source
                    &&& job.done == 0
                    &&& job.next_object == 0
                    &&& job.groups@.len() > 0
                    &&& job.objects@ == kept_files(all, source.archived@)
                    &&& 0 <= k < job.groups@.len() ==> job.groups@[k]@.len() > 0
                    &&& 0 <= k < job.groups@.len() ==> (job.groups@[k]@.contains(file)
                        <==> fresh.contains(file) && file.first_key.space.rank()
                        == job.groups@[k]@[0].first_key.space.rank())
                    &&& fresh.contains(file) ==> exists|g: int|
                        0 <= g < job.groups@.len() && (
                        #[trigger] job.groups@[g])@[0].first_key.space.rank()
                            == file.first_key.space.rank()
                },
                _ => false,
            }
        }),
{
    let fresh = fresh_files(all, source.archived@);
    if let KeepStep::Rewrite(job) = step {
        if 0 <= k < job.groups@.len() && keep_rewrites(all, source.archived@, limit) {
            let partition = job.groups@[k]@[0].first_key.space.rank();
            lemma_filter_members(
                fresh,
                |o: ObjectRef| o.first_key.file_partition() == partition,
            );
            assert(job.groups@[k]@ == in_partition(fresh, partition));
        }
        if fresh.contains(file) && keep_rewrites(all, source.archived@, limit) {
            let i = choose|i: int| 0 <= i < fresh.len() && fresh[i] == file;
            assert(has_group(job.groups@, fresh[i].first_key.file_partition()));
            let g = choose|g: int|
                0 <= g < job.groups@.len() && partition_of((#[trigger] job.groups@[g])@)
                    == file.first_key.file_partition();
            assert(job.groups@[g]@[0].first_key.space.rank() == file.first_key.space.rank());
        }
    }
    if within_partitions(fresh) {
        assert forall|i: int| 0 <= i < fresh.len() implies (
        #[trigger] fresh[i]).first_key.space.rank() == fresh[i].last_key.space.rank() by {
            assert(fresh[i].first_key.file_partition() == fresh[i].last_key.file_partition());
        }
    } else {
        let i = choose|i: int|
            0 <= i < fresh.len() && (#[trigger] fresh[i]).first_key.file_partition()
                != fresh[i].last_key.file_partition();
        assert(fresh[i].first_key.space.rank() != fresh[i].last_key.space.rank());
    }
}

} // verus!
