//! What publishing is for: the archive always holds a whole state, never an older
//! one than before, and only of the holder.

use super::super::heads::{
    claim_read_step, claim_written_step, exact_read_step, head_read_step, is_new_head, is_next_head,
    ClaimStep, FoundHead, PublishStep,
};
use super::super::publication::{
    bounded_plan, checks, describes, frontier_of, goes_on_with_manifest, records, version_noted,
    HeadJob, PublicationStep,
};
use super::super::publish::{
    already_published_spec, in_partition, is_new_file, is_snapshot, plan_describes,
    publication_recorded, publishable, too_many_share, uploads, within_partitions, ArchivePlan,
    PreviousArchive, PublishSnapshot,
};
use super::super::state::HostState;
use super::super::volume::VolumeState;
use super::recovery::joined_names_are_all_there;
use super::seqs::lemma_filter_members;
use crate::head::{HeadRecord, ManifestPtr, StashAssignment};
use crate::manifest::{added_files, in_order, is_latest, removed_names, updated, ListRef};
use crate::objects::{cover_count, lists, BlockKey, NamespaceKind, ObjectIdentity, ObjectRef};
use crate::store::{StoreError, StoreFault};
use crate::types::HostId;
use vstd::prelude::*;

verus! {

// ---------------------------------------------------------------------------
// What is published
// ---------------------------------------------------------------------------

/// What is published is the newest state that is safe: with a second keeper, the
/// newest that it has; without one, the newest there is. The volume's own files and
/// those it inherited are told apart, and no file of either is missing.
pub proof fn the_newest_safe_state_is_published(
    snapshot: PublishSnapshot,
    state: VolumeState,
    volume: u64,
    file: ObjectRef,
)
    requires
        is_snapshot(snapshot, state, volume),
    ensures
        ({
            let newest = if state.stash_assignment is Some {
                state.peer_committed_record
            } else {
                state.best_record
            };
            let own = file.identity.namespace_kind == NamespaceKind::Volume
                && file.identity.namespace_id == volume;
            &&& newest is Some
            &&& snapshot.record.seq == newest->0.seq
            &&& snapshot.record.fence == newest->0.fence
            &&& snapshot.record.kind == newest->0.kind
            &&& snapshot.record.config == newest->0.config
            &&& snapshot.record.capture_seq == newest->0.capture_seq
            &&& snapshot.record.sync_covered_through == newest->0.sync_covered_through
            &&& snapshot.record.post_state_checksum == newest->0.post_state_checksum
            &&& snapshot.record.files@ == newest->0.files@
            &&& snapshot.commit.writer_fence == newest->0.fence
            &&& snapshot.commit.seq == newest->0.seq
            &&& snapshot.commit.sync_covered_through == newest->0.sync_covered_through
            &&& snapshot.own_objects@.contains(file) <==> newest->0.files@.contains(file) && own
            &&& snapshot.base_objects@.contains(file) <==> state.archive_objects@.contains(file)
                && !own
            &&& snapshot.base == state.archive_base
            &&& snapshot.backed == state.backed
            &&& snapshot.published == state.peer_published
        }),
{
    let newest = publishable(state)->0;
    lemma_filter_members(newest.files@, |o: ObjectRef| o.identity.of_volume(volume));
    lemma_filter_members(state.archive_objects@, |o: ObjectRef| !o.identity.of_volume(volume));
}

/// Nothing is published again that is published already: the same record or a later
/// one, covering as much.
pub proof fn published_states_are_not_published_again(snapshot: PublishSnapshot)
    ensures
        match snapshot.published {
            Some(p) => already_published_spec(snapshot) <==> {
                &&& p.writer_fence > snapshot.commit.writer_fence || (p.writer_fence
                    == snapshot.commit.writer_fence && p.seq >= snapshot.commit.seq)
                &&& p.sync_covered_through >= snapshot.commit.sync_covered_through
            },
            None => match snapshot.backed {
                Some(backed) => already_published_spec(snapshot) <==> backed.capture_seq
                    >= snapshot.record.capture_seq,
                None => !already_published_spec(snapshot),
            },
        },
{
}

/// A file has to be uploaded unless the archive lists it, or the archive reached
/// the record it was written for under the same fence.
pub proof fn a_file_is_new_unless_the_archive_has_it(
    archived: Seq<ObjectRef>,
    frontier: Option<(u64, u64)>,
    file: ObjectRef,
)
    ensures
        ({
            let listed = exists|i: int|
                0 <= i < archived.len() && #[trigger] archived[i].identity == file.identity;
            let covered = match frontier {
                Some((fence, seq)) => file.identity.writer_fence == fence && file.max_seq <= seq,
                None => false,
            };
            is_new_file(archived, frontier, file) <==> !listed && !covered
        }),
{
}

/// The uploads are the new files, each name once.
pub proof fn every_new_file_is_uploaded_once(
    archived: Seq<ObjectRef>,
    own: Seq<ObjectRef>,
    frontier: Option<(u64, u64)>,
    file: ObjectRef,
    i: int,
    j: int,
)
    ensures
        uploads(archived, own, frontier).contains(file) ==> own.contains(file) && is_new_file(
            archived,
            frontier,
            file,
        ),
        own.contains(file) && is_new_file(archived, frontier, file) ==> lists(
            uploads(archived, own, frontier),
            file.identity,
        ),
        0 <= i < j < uploads(archived, own, frontier).len() ==> uploads(
            archived,
            own,
            frontier,
        )[i].identity != uploads(archived, own, frontier)[j].identity,
    decreases own.len(),
{
    if own.len() > 0 {
        let front = own.drop_last();
        let end = own.len() - 1;
        let rest = uploads(archived, front, frontier);
        let all = uploads(archived, own, frontier);
        let last = own.last();
        assert(own[end] == last);
        every_new_file_is_uploaded_once(archived, front, frontier, file, i, j);
        if all.contains(file) {
            let k = choose|k: int| 0 <= k < all.len() && all[k] == file;
            if k < rest.len() {
                assert(rest[k] == file);
                let f = choose|f: int| 0 <= f < front.len() && front[f] == file;
                assert(own[f] == file);
            }
        }
        if own.contains(file) && is_new_file(archived, frontier, file) {
            let k = choose|k: int| 0 <= k < own.len() && own[k] == file;
            if k < end {
                assert(front[k] == file);
                let u = choose|u: int|
                    0 <= u < rest.len() && #[trigger] rest[u].identity == file.identity;
                assert(all[u].identity == file.identity);
            } else if lists(rest, last.identity) {
                let u = choose|u: int|
                    0 <= u < rest.len() && #[trigger] rest[u].identity == last.identity;
                assert(all[u].identity == file.identity);
            } else {
                assert(all[rest.len() as int].identity == file.identity);
            }
        }
        if 0 <= i < j < all.len() && j == rest.len() {
            assert(rest[i].identity != last.identity);
        }
    }
}

/// Files are put together by partition: a partition's are all of its files and no
/// others. Files that reach into a second partition cannot be.
pub proof fn a_partition_has_all_of_its_files(
    files: Seq<ObjectRef>,
    partition: u64,
    file: ObjectRef,
)
    ensures
        in_partition(files, partition).contains(file) <==> files.contains(file)
            && file.first_key.space.rank() == partition,
        within_partitions(files) && files.contains(file) ==> file.first_key.space.rank()
            == file.last_key.space.rank(),
{
    lemma_filter_members(files, |o: ObjectRef| o.first_key.file_partition() == partition);
    if files.contains(file) {
        let i = choose|i: int| 0 <= i < files.len() && files[i] == file;
        assert(files[i].first_key == file.first_key);
    }
}

/// Files are rewritten once too many of them share a key.
pub proof fn files_are_rewritten_when_too_many_share(
    files: Seq<ObjectRef>,
    limit: usize,
    i: int,
)
    ensures
        limit == 0 ==> too_many_share(files, limit),
        0 <= i < files.len() && cover_count(files, files[i].first_key) >= limit ==> too_many_share(
            files,
            limit,
        ),
        limit > 0 && (forall|k: int|
            0 <= k < files.len() ==> cover_count(files, (#[trigger] files[k]).first_key) < limit)
            ==> !too_many_share(files, limit),
{
}

/// How many files share a key: those whose range it falls into.
pub proof fn sharing_counts_the_files_around_a_key(
    files: Seq<ObjectRef>,
    more: ObjectRef,
    key: BlockKey,
)
    ensures
        cover_count(Seq::<ObjectRef>::empty(), key) == 0,
        more.first_key.code() <= key.code() <= more.last_key.code() ==> cover_count(
            files.push(more),
            key,
        ) == cover_count(files, key) + 1,
        !(more.first_key.code() <= key.code() <= more.last_key.code()) ==> cover_count(
            files.push(more),
            key,
        ) == cover_count(files, key),
{
    assert(files.push(more).drop_last() =~= files);
}

// ---------------------------------------------------------------------------
// The archived state
// ---------------------------------------------------------------------------

/// What is added to an archived state and what is removed: the difference of the
/// two lists of files, by name.
pub proof fn additions_and_removals_are_the_difference(
    baseline: Seq<ObjectRef>,
    current: Seq<ObjectRef>,
    file: ObjectRef,
    name: ObjectIdentity,
)
    ensures
        added_files(baseline, current).contains(file) <==> current.contains(file) && !(exists|
            i: int,
        |
            0 <= i < baseline.len() && #[trigger] baseline[i].identity == file.identity),
        removed_names(baseline, current).contains(name) <==> (exists|i: int|
            0 <= i < baseline.len() && #[trigger] baseline[i].identity == name) && !(exists|i: int|
            0 <= i < current.len() && #[trigger] current[i].identity == name),
{
    lemma_filter_members(current, |o: ObjectRef| !lists(baseline, o.identity));
    let gone = |o: ObjectRef| !lists(current, o.identity);
    let dropped = baseline.filter(gone);
    let names = removed_names(baseline, current);
    lemma_filter_members(baseline, gone);
    if names.contains(name) {
        let i = choose|i: int| 0 <= i < names.len() && names[i] == name;
        assert(dropped.contains(dropped[i]));
        let k = choose|k: int| 0 <= k < baseline.len() && baseline[k] == dropped[i];
        assert(baseline[k].identity == name);
    }
    if (exists|i: int| 0 <= i < baseline.len() && #[trigger] baseline[i].identity == name)
        && !lists(current, name) {
        let k = choose|k: int| 0 <= k < baseline.len() && #[trigger] baseline[k].identity == name;
        assert(baseline.contains(baseline[k]));
        assert(dropped.contains(baseline[k]));
        let i = choose|i: int| 0 <= i < dropped.len() && dropped[i] == baseline[k];
        assert(names[i] == name);
    }
}

/// An archived state's manifest is of the record it was made from, and says how it
/// differs from the list it refers to; the first one brings its list.
pub proof fn a_manifest_is_of_its_record(
    plan: ArchivePlan,
    previous: Option<PreviousArchive>,
    snapshot: PublishSnapshot,
    volume: u64,
    metadata_checksum: u64,
    files: Seq<ObjectRef>,
)
    requires
        plan_describes(plan, previous, snapshot, volume, metadata_checksum, files),
    ensures
        plan.manifest.volume == volume,
        plan.manifest.writer_fence == snapshot.record.fence,
        plan.manifest.journal_seq == snapshot.record.seq,
        plan.manifest.capture_seq == snapshot.record.capture_seq,
        plan.manifest.sync_covered_through == snapshot.record.sync_covered_through,
        plan.manifest.kind == snapshot.record.kind,
        plan.manifest.config == snapshot.record.config,
        plan.manifest.base == snapshot.base,
        plan.manifest.post_state_checksum == snapshot.record.post_state_checksum,
        plan.manifest.metadata_checksum == metadata_checksum,
        match previous {
            None => {
                &&& plan.manifest.archive_seq == 0
                &&& plan.list is Some
                &&& plan.list->0.objects@ == files
                &&& plan.list->0.volume == volume
                &&& plan.list->0.writer_fence == snapshot.record.fence
                &&& plan.list->0.list_id == snapshot.record.seq
                &&& plan.manifest.complete_list == Some(
                    ListRef { writer_fence: snapshot.record.fence, list_id: snapshot.record.seq },
                )
                &&& plan.manifest.added@.len() == 0
                &&& plan.manifest.removed@.len() == 0
            },
            Some(p) => {
                let baseline = match p.list {
                    Some(list) => list.objects@,
                    None => Seq::empty(),
                };
                &&& p.manifest.archive_seq < u64::MAX ==> plan.manifest.archive_seq
                    == p.manifest.archive_seq + 1
                &&& p.manifest.archive_seq == u64::MAX ==> plan.manifest.archive_seq == u64::MAX
                &&& plan.manifest.complete_list == p.manifest.complete_list
                &&& plan.manifest.added@ == added_files(baseline, files)
                &&& plan.manifest.removed@ == removed_names(baseline, files)
                &&& plan.list is None
            },
        },
{
}

/// A plan that had to be shortened takes the shorter manifest, and a list if either
/// has one.
pub proof fn a_shortened_plan_keeps_its_list(plan: ArchivePlan, bounded: ArchivePlan)
    ensures
        bounded_plan(plan, bounded).manifest == bounded.manifest,
        bounded.list is Some ==> bounded_plan(plan, bounded).list == bounded.list,
        bounded.list is None ==> bounded_plan(plan, bounded).list == plan.list,
{
}

/// How far the archive reaches is told by its last manifest.
pub proof fn the_archive_reaches_its_last_record(previous: Option<PreviousArchive>)
    ensures
        previous is None ==> frontier_of(previous) is None,
        previous matches Some(p) ==> frontier_of(previous) == Some(
            (p.manifest.writer_fence, p.manifest.journal_seq),
        ),
{
}

// ---------------------------------------------------------------------------
// Moving the head
// ---------------------------------------------------------------------------

/// A state that is published is known as such: the head's version, its manifest and
/// its files; and with a second keeper, that it may let go of the commit.
pub proof fn a_published_state_is_known(
    before: VolumeState,
    after: VolumeState,
    version: u64,
    pointer: ManifestPtr,
    snapshot: PublishSnapshot,
    name: ObjectIdentity,
)
    requires
        publication_recorded(before, after, version, pointer, snapshot),
    ensures
        after.head_version == Some(version),
        after.backed == Some(pointer),
        before.stash_assignment is Some ==> after.peer_published == Some(snapshot.commit),
        before.stash_assignment is None ==> after.peer_published == before.peer_published,
        after.backed_files@.contains(name) <==> before.backed_files@.contains(name) || exists|
            i: int,
        |
            0 <= i < snapshot.own_objects@.len() && (#[trigger] snapshot.own_objects@[i]).identity
                == name,
        after.best_record == before.best_record,
        after.fence == before.fence,
        after.page_locs == before.page_locs,
        after.ready == before.ready,
{
    joined_names_are_all_there(before.backed_files@, snapshot.own_objects@, name);
}

/// Recording a publication counts it and changes no other volume; if the volume has
/// gone meanwhile nothing is recorded.
pub proof fn publications_are_counted(
    before: HostState,
    after: HostState,
    volume: u64,
    incarnation: u64,
    version: u64,
    job: HeadJob,
    step: PublicationStep,
    elsewhere: u64,
)
    requires
        records(before, after, volume, incarnation, version, job, step),
        before.counters.manifests_published < u64::MAX,
        elsewhere != volume,
    ensures
        ({
            let here = before.volumes@.contains_key(volume) && before.volumes@[volume].incarnation
                == incarnation;
            &&& here <==> step is Published
            &&& here ==> after.counters.manifests_published == before.counters.manifests_published
                + 1 && after.volumes@[volume].head_version == Some(version)
                && after.volumes@[volume].backed == Some(job.pointer)
            &&& !here ==> step is Stop && after == before
            &&& after.volumes@.contains_key(elsewhere) == before.volumes@.contains_key(elsewhere)
            &&& after.volumes@[elsewhere] == before.volumes@[elsewhere]
        }),
{
}

/// A manifest that is written leads to a new head under the version that is known,
/// as long as the volume stays; it is thrown away if the volume moves on.
pub proof fn a_written_manifest_leads_to_a_head(
    before: HostState,
    after: HostState,
    volume: u64,
    incarnation: u64,
    job: HeadJob,
    written: bool,
    step: PublicationStep,
)
    requires
        goes_on_with_manifest(before, after, volume, incarnation, job, written, step),
    ensures
        ({
            let here = before.volumes@.contains_key(volume) && before.volumes@[volume].incarnation
                == incarnation;
            let state = before.volumes@[volume];
            let stays = here && !state.operations.migration && !state.outbound;
            &&& !written && stays ==> step is Wait && after == before
            &&& !written && !stays ==> step is Stop && after == before
            &&& written && !stays ==> step is Discard && after == before
            &&& written && stays && state.head_version is Some ==> after == before && match step {
                PublicationStep::WriteHead { job: j, write } => {
                    &&& j == job
                    &&& Some(write.expected) == state.head_version
                    &&& write.head.volume == volume
                    &&& write.head.holder == before.host
                    &&& write.head.fence == state.fence
                    &&& write.head.manifest == Some(job.pointer)
                    &&& write.head.stash == state.stash_assignment
                    &&& write.head.retired_stashes@ == state.retired_stashes@
                },
                _ => false,
            }
            &&& written && stays && state.head_version is None ==> step is Fenced
                && !after.volumes@.contains_key(volume)
        }),
{
}

/// The version that was seen last is the one that counts.
pub proof fn the_last_version_seen_counts(
    before: HostState,
    after: HostState,
    volume: u64,
    version: u64,
    elsewhere: u64,
)
    requires
        version_noted(before, after, volume, version),
        elsewhere != volume,
    ensures
        before.volumes@.contains_key(volume) ==> after.volumes@[volume].head_version == Some(
            version,
        ) && after.volumes@[volume].backed == before.volumes@[volume].backed
            && after.volumes@[volume].best_record == before.volumes@[volume].best_record,
        !before.volumes@.contains_key(volume) ==> after == before,
        after.volumes@.contains_key(elsewhere) == before.volumes@.contains_key(elsewhere),
        after.volumes@[elsewhere] == before.volumes@[elsewhere],
{
}

/// What a head that was read says of a write whose answer is unknown. Another
/// holder or fence fences; the same or a newer state is published; an older one has
/// to be written again.
pub proof fn a_head_tells_whether_a_write_went_through(
    wanted: HeadRecord,
    pointer: ManifestPtr,
    version: u64,
    head: HeadRecord,
)
    ensures
        ({
            let step = head_read_step(
                wanted,
                pointer,
                Ok(Some(FoundHead { version, record: Some(head) })),
            );
            let ours = head.holder == wanted.holder && head.fence == wanted.fence;
            let reached = match head.manifest {
                Some(m) => m.capture_seq > pointer.capture_seq || (m.capture_seq
                    == pointer.capture_seq && m.seq >= pointer.seq),
                None => false,
            };
            &&& !ours <==> step is Fenced
            &&& ours && reached <==> step == PublishStep::Published(version)
            &&& ours && !reached <==> step is Again
        }),
        head_read_step(wanted, pointer, Ok(Some(FoundHead { version, record: None }))) is Fatal,
        head_read_step(wanted, pointer, Ok(None)) is Fenced,
        head_read_step(
            wanted,
            pointer,
            Err(StoreError::Fault(StoreFault::Unavailable)),
        ) is Retry,
        head_read_step(wanted, pointer, Err(StoreError::TooLarge)) is Fatal,
{
}

/// A first head names its holder and nothing else yet.
pub proof fn a_new_head_names_its_holder(
    head: HeadRecord,
    volume: u64,
    holder: HostId,
    stash: Option<StashAssignment>,
)
    requires
        is_new_head(head, volume, holder, stash),
    ensures
        head.volume == volume,
        head.holder == holder,
        head.fence == 0,
        head.manifest is None,
        head.stash == stash,
        head.retired_stashes@.len() == 0,
{
}

/// The next head names the holder, its fence, and the state that was published.
pub proof fn the_next_head_names_the_published_state(
    head: HeadRecord,
    state: VolumeState,
    volume: u64,
    holder: HostId,
    pointer: ManifestPtr,
)
    requires
        is_next_head(head, state, volume, holder, pointer),
    ensures
        head.volume == volume,
        head.holder == holder,
        head.fence == state.fence,
        head.manifest == Some(pointer),
        head.stash == state.stash_assignment,
        head.retired_stashes@ == state.retired_stashes@,
{
}

/// A claim that went through is claimed under its version; one that met another
/// head, or whose answer got lost, is looked at.
pub proof fn a_claim_is_looked_at_if_in_doubt(version: u64, fault: StoreFault)
    ensures
        claim_written_step(Ok(version)) == ClaimStep::Claimed(version),
        fault is CasConflict ==> claim_written_step(Err(StoreError::Fault(fault))) == (
        ClaimStep::ReadBack { lost: false }),
        fault is Unavailable ==> claim_written_step(Err(StoreError::Fault(fault))) == (
        ClaimStep::ReadBack { lost: true }),
        claim_written_step(Err(StoreError::TooLarge)) is Refused,
{
}

/// A claim that is looked at is ours exactly if the head there is as it was claimed
/// and, where the answer got lost, the volume is still here. Without a head a lost
/// claim is made again.
pub proof fn a_claim_is_ours_as_it_was_made(
    host: HostState,
    volume: u64,
    incarnation: u64,
    stash: Option<StashAssignment>,
    lost: bool,
    version: u64,
    head: HeadRecord,
)
    ensures
        ({
            let found = Ok(Some(FoundHead { version, record: Some(head) }));
            let step = claim_read_step(host, volume, incarnation, stash, lost, found);
            let ours = head.holder == host.host && head.fence == 0 && head.manifest is None
                && head.stash == stash;
            let here = host.volumes@.contains_key(volume) && host.volumes@[volume].incarnation
                == incarnation;
            &&& ours && (!lost || here) <==> step == ClaimStep::Claimed(version)
            &&& !(ours && (!lost || here)) <==> step is Refused
        }),
        claim_read_step(host, volume, incarnation, stash, true, Ok(None)) is Retry,
        claim_read_step(host, volume, incarnation, stash, false, Ok(None)) is Refused,
        claim_read_step(
            host,
            volume,
            incarnation,
            stash,
            true,
            Err(StoreError::Fault(StoreFault::Unavailable)),
        ) is Retry,
        claim_read_step(
            host,
            volume,
            incarnation,
            stash,
            false,
            Err(StoreError::Fault(StoreFault::Unavailable)),
        ) is Refused,
        claim_read_step(
            host,
            volume,
            incarnation,
            stash,
            lost,
            Err(StoreError::TooLarge),
        ) is Refused,
{
}

/// A head that has to be exactly as it was written is taken as such only if every
/// field is.
pub proof fn an_exact_head_is_taken_field_by_field(
    wanted: HeadRecord,
    version: u64,
    head: HeadRecord,
)
    ensures
        ({
            let step = exact_read_step(
                wanted,
                Ok(Some(FoundHead { version, record: Some(head) })),
            );
            let same = head.volume == wanted.volume && head.holder == wanted.holder && head.fence
                == wanted.fence && head.manifest == wanted.manifest && head.stash == wanted.stash
                && head.retired_stashes@ == wanted.retired_stashes@;
            &&& same <==> step == ClaimStep::Claimed(version)
            &&& !same <==> step is Refused
        }),
        exact_read_step(wanted, Ok(None)) is Refused,
        exact_read_step(wanted, Err(StoreError::Fault(StoreFault::Unavailable))) is Retry,
        exact_read_step(wanted, Err(StoreError::TooLarge)) is Refused,
{
}

/// A head that cannot be read for what it is refuses a claim.
pub proof fn an_unreadable_head_refuses_a_claim(
    host: HostState,
    volume: u64,
    incarnation: u64,
    stash: Option<StashAssignment>,
    lost: bool,
    version: u64,
    wanted: HeadRecord,
)
    ensures
        claim_read_step(
            host,
            volume,
            incarnation,
            stash,
            lost,
            Ok(Some(FoundHead { version, record: None })),
        ) is Refused,
        exact_read_step(wanted, Ok(Some(FoundHead { version, record: None }))) is Refused,
{
}

/// How publishing goes on: with all files that are archived or were uploaded, and for
/// the state it began with.
pub proof fn publishing_goes_on_with_its_state(
    step: PublicationStep,
    snapshot: PublishSnapshot,
    forced: bool,
    previous: Option<PreviousArchive>,
    archived: Seq<ObjectRef>,
    files: Seq<ObjectRef>,
    volume: u64,
    metadata_checksum: u64,
    file: ObjectRef,
)
    ensures
        checks(step, snapshot, forced, previous, archived, files) ==> match step {
            PublicationStep::Check(job) => {
                &&& job.snapshot == snapshot
                &&& job.forced == forced
                &&& job.previous == previous
                &&& job.files@.contains(file) <==> archived.contains(file) || files.contains(file)
            },
            _ => false,
        },
        describes(step, snapshot, previous, volume, metadata_checksum, files) ==> match step {
            PublicationStep::Bound(job) => {
                &&& job.snapshot == snapshot
                &&& job.previous == previous
                &&& plan_describes(job.plan, previous, snapshot, volume, metadata_checksum, files)
            },
            _ => false,
        },
{
}

/// The files of an archived state: those its list and its additions name, without
/// those removed; of two of a name the one added last.
pub proof fn an_archived_state_has_its_files(
    baseline: Seq<ObjectRef>,
    added: Seq<ObjectRef>,
    removed: Seq<ObjectIdentity>,
    files: Seq<ObjectRef>,
    file: ObjectRef,
    i: int,
)
    requires
        updated(baseline, added, removed, files),
    ensures
        0 <= i < added.len() && added[i] == file && (forall|j: int|
            i < j < added.len() ==> (#[trigger] added[j]).identity != file.identity)
            ==> files.contains(file),
        baseline.contains(file) && !removed.contains(file.identity) && (forall|j: int|
            0 <= j < added.len() ==> (#[trigger] added[j]).identity != file.identity)
            ==> files.contains(file),
        files.contains(file) && (forall|j: int|
            0 <= j < added.len() ==> (#[trigger] added[j]).identity != file.identity)
            ==> baseline.contains(file) && !removed.contains(file.identity),
        files.contains(file) ==> baseline.contains(file) || added.contains(file),
{
    let there = files.contains(file);
    if 0 <= i < added.len() && added[i] == file && (forall|j: int|
        i < j < added.len() ==> (#[trigger] added[j]).identity != file.identity) {
        assert(is_latest(added, file));
    }
}

/// A list put in order has the last file of each name.
pub proof fn an_ordered_list_has_the_last_of_each_name(
    list: Seq<ObjectRef>,
    files: Seq<ObjectRef>,
    file: ObjectRef,
    i: int,
)
    requires
        in_order(list, files),
    ensures
        0 <= i < list.len() && list[i] == file && (forall|j: int|
            i < j < list.len() ==> (#[trigger] list[j]).identity != file.identity)
            ==> files.contains(file),
        files.contains(file) ==> list.contains(file),
        forall|a: int, b: int|
            0 <= a < b < files.len() ==> files[a].identity != files[b].identity,
{
    let there = files.contains(file);
    if 0 <= i < list.len() && list[i] == file && (forall|j: int|
        i < j < list.len() ==> (#[trigger] list[j]).identity != file.identity) {
        assert(is_latest(list, file));
    }
    assert forall|a: int, b: int| 0 <= a < b < files.len() implies files[a].identity
        != files[b].identity by {
        assert(files[a].identity.before(files[b].identity));
        crate::objects::lemma_identity_order(
            files[a].identity,
            files[b].identity,
            files[a].identity,
        );
    }
}

} // verus!
