//! Publishing a volume's newest committed state to the archive.

use super::capture::contains_name;
use super::maps::{lists_keys, sorted_keys};
use super::state::{follows, with_scheduled, Counters, HostState};
use super::volume::{copy_refs, BaseRef, VolumeOperations, VolumeRecord, VolumeState};
use crate::head::{ManifestPtr, ReplicaCommitInfo};
use crate::manifest::{
    added_files, file_delta, removed_names, CompleteFileList, FileDelta, ListRef, Manifest,
};
use crate::objects::{
    contains_identity, cover_count, lists, maximum_overlap, place_object, sorted, ObjectIdentity,
    ObjectRef,
};
use vstd::prelude::*;

verus! {

broadcast use vstd::std_specs::btree::group_btree_axioms;

// ---------------------------------------------------------------------------
// One publication at a time
// ---------------------------------------------------------------------------

/// Starts publishing a volume, unless that is under way.
pub fn start_publication(host: &mut HostState, volume: u64) -> (incarnation: Option<u64>)
    ensures
        incarnation == (if old(host).volumes@.contains_key(volume) && !old(
            host,
        ).volumes@[volume].operations.publication {
            Some(old(host).volumes@[volume].incarnation)
        } else {
            None
        }),
        incarnation is None ==> *final(host) == *old(host),
        incarnation is Some ==> {
            let before = old(host).volumes@[volume];
            let after = final(host).volumes@[volume];
            &&& *final(host) == (HostState { volumes: final(host).volumes, ..*old(host) })
            &&& final(host).volumes@ == old(host).volumes@.insert(volume, after)
            &&& after == (VolumeState { operations: after.operations, ..before })
            &&& after.operations == (VolumeOperations {
                publication: true,
                ..before.operations
            })
        },
        follows(*old(host), *final(host)),
{
    let free: bool = match host.volumes.get(&volume) {
        Some(state) => !state.operations.publication,
        None => false,
    };
    if !free {
        return None;
    }
    let ghost was = host.volumes@;
    match host.volumes.remove(&volume) {
        Some(mut state) => {
            let incarnation: u64 = state.incarnation;
            state.operations.publication = true;
            host.volumes.insert(volume, state);
            proof {
                assert(was.remove(volume).insert(volume, state) =~= was.insert(volume, state));
            }
            Some(incarnation)
        },
        None => None,
    }
}

/// Ends a publication and hands back who waited for it. The volume is looked at
/// again.
pub fn end_publication(host: &mut HostState, volume: u64, incarnation: u64) -> (waiters: Vec<u64>)
    ensures
        final(host).scheduled@ == with_scheduled(old(host).scheduled@, volume),
        match old(host).volume_at_spec(volume, incarnation) {
            None => waiters@ == Seq::<u64>::empty() && *final(host) == (HostState {
                scheduled: final(host).scheduled,
                ..*old(host)
            }),
            Some(before) => {
                let after = final(host).volumes@[volume];
                &&& waiters@ == before.publication_waiters@
                &&& *final(host) == (HostState {
                    volumes: final(host).volumes,
                    scheduled: final(host).scheduled,
                    ..*old(host)
                })
                &&& final(host).volumes@ == old(host).volumes@.insert(volume, after)
                &&& after == (VolumeState {
                    operations: after.operations,
                    publishing_files: after.publishing_files,
                    publication_waiters: after.publication_waiters,
                    ..before
                })
                &&& after.operations == (VolumeOperations {
                    publication: false,
                    ..before.operations
                })
                &&& after.publishing_files@ == Seq::<ObjectIdentity>::empty()
                &&& after.publication_waiters@ == Seq::<u64>::empty()
            },
        },
        follows(*old(host), *final(host)),
{
    let mut waiters: Vec<u64> = Vec::new();
    if host.volume_at(volume, incarnation).is_some() {
        let ghost was = host.volumes@;
        if let Some(mut state) = host.volumes.remove(&volume) {
            state.operations.publication = false;
            state.publishing_files = Vec::new();
            waiters.append(&mut state.publication_waiters);
            proof {
                assert(waiters@ =~= was[volume].publication_waiters@);
            }
            host.volumes.insert(volume, state);
            proof {
                assert(was.remove(volume).insert(volume, state) =~= was.insert(volume, state));
            }
        }
    }
    host.schedule_volume(volume);
    waiters
}

// ---------------------------------------------------------------------------
// What to publish
// ---------------------------------------------------------------------------

/// The state a publication makes durable.
pub struct PublishSnapshot {
    pub record: VolumeRecord,
    pub base: Option<BaseRef>,
    /// Archived files that belong to others.
    pub base_objects: Vec<ObjectRef>,
    /// The volume's own files.
    pub own_objects: Vec<ObjectRef>,
    pub backed: Option<ManifestPtr>,
    pub published: Option<ReplicaCommitInfo>,
    pub commit: ReplicaCommitInfo,
}

/// The newest state that may be published: with a second keeper, the newest it
/// has confirmed; without one, the newest at all.
pub open spec fn publishable(state: VolumeState) -> Option<VolumeRecord> {
    if state.stash_assignment is Some {
        state.peer_committed_record
    } else {
        state.best_record
    }
}

/// The files of `objects` that were written for the volume itself.
pub open spec fn own_files(objects: Seq<ObjectRef>, volume: u64) -> Seq<ObjectRef> {
    objects.filter(|o: ObjectRef| o.identity.of_volume(volume))
}

pub open spec fn foreign_files(objects: Seq<ObjectRef>, volume: u64) -> Seq<ObjectRef> {
    objects.filter(|o: ObjectRef| !o.identity.of_volume(volume))
}

/// The files of `objects` that were written for the volume itself.
pub fn volume_files(objects: &Vec<ObjectRef>, volume: u64) -> (files: Vec<ObjectRef>)
    ensures
        files@ == own_files(objects@, volume),
{
    split_files(objects, volume, true)
}

fn split_files(objects: &Vec<ObjectRef>, volume: u64, own: bool) -> (files: Vec<ObjectRef>)
    ensures
        files@ == (if own {
            own_files(objects@, volume)
        } else {
            foreign_files(objects@, volume)
        }),
{
    let mut files: Vec<ObjectRef> = Vec::new();
    let mut i: usize = 0;
    proof {
        reveal(Seq::filter);
    }
    while i < objects.len()
        invariant
            i <= objects@.len(),
            files@ == (if own {
                own_files(objects@.take(i as int), volume)
            } else {
                foreign_files(objects@.take(i as int), volume)
            }),
        decreases objects@.len() - i,
    {
        proof {
            reveal(Seq::filter);
            assert(objects@.take(i + 1).drop_last() =~= objects@.take(i as int));
        }
        if objects[i].identity.of_volume(volume) == own {
            files.push(objects[i]);
        }
        i = i + 1;
    }
    proof {
        assert(objects@.take(i as int) =~= objects@);
    }
    files
}

pub open spec fn is_snapshot(snapshot: PublishSnapshot, state: VolumeState, volume: u64) -> bool {
    &&& publishable(state) is Some
    &&& snapshot.record.same(publishable(state)->0)
    &&& snapshot.base == state.archive_base
    &&& snapshot.base_objects@ == foreign_files(state.archive_objects@, volume)
    &&& snapshot.own_objects@ == own_files(publishable(state)->0.files@, volume)
    &&& snapshot.backed == state.backed
    &&& snapshot.published == state.peer_published
    &&& snapshot.commit == publishable(state)->0.commit_info()
}

/// Takes what is to be published. Nothing if the volume has gone or has no
/// state that may be published.
pub fn publish_snapshot(host: &HostState, volume: u64, incarnation: u64) -> (snapshot: Option<
    PublishSnapshot,
>)
    ensures
        snapshot is Some <==> (match host.volume_at_spec(volume, incarnation) {
            Some(state) => publishable(state) is Some,
            None => false,
        }),
        snapshot is Some ==> is_snapshot(snapshot->0, host.volumes@[volume], volume),
{
    let state: &VolumeState = match host.volume_at(volume, incarnation) {
        Some(state) => state,
        None => {
            return None;
        },
    };
    let chosen: &Option<VolumeRecord> = if state.stash_assignment.is_some() {
        &state.peer_committed_record
    } else {
        &state.best_record
    };
    match chosen {
        Some(record) => Some(
            PublishSnapshot {
                record: record.duplicate(),
                base: state.archive_base,
                base_objects: split_files(&state.archive_objects, volume, false),
                own_objects: split_files(&record.files, volume, true),
                backed: state.backed,
                published: state.peer_published,
                commit: record.commit_info(),
            },
        ),
        None => None,
    }
}

/// With a second keeper, nothing is published that it has not confirmed.
pub proof fn only_confirmed_states_are_published(state: VolumeState, record: VolumeRecord)
    requires
        state.stash_assignment is Some,
        publishable(state) == Some(record),
    ensures
        state.peer_committed_record == Some(record),
{
}

/// The archive has the state already.
pub open spec fn already_published_spec(snapshot: PublishSnapshot) -> bool {
    match snapshot.published {
        Some(published) => !published.record_before(snapshot.commit)
            && published.sync_covered_through >= snapshot.commit.sync_covered_through,
        None => match snapshot.backed {
            Some(backed) => backed.capture_seq >= snapshot.record.capture_seq,
            None => false,
        },
    }
}

pub fn already_published(snapshot: &PublishSnapshot) -> (done: bool)
    ensures
        done == already_published_spec(*snapshot),
{
    match snapshot.published {
        Some(published) => !published.record_before(snapshot.commit)
            && published.sync_covered_through >= snapshot.commit.sync_covered_through,
        None => match snapshot.backed {
            Some(backed) => backed.capture_seq >= snapshot.record.capture_seq,
            None => false,
        },
    }
}

/// Notes which files a publication is about to need.
pub fn note_publishing(state: &mut VolumeState, snapshot: &PublishSnapshot)
    ensures
        *final(state) == (VolumeState {
            publishing_files: final(state).publishing_files,
            ..*old(state)
        }),
        final(state).publishing_files@ == snapshot.own_objects@.map_values(
            |o: ObjectRef| o.identity,
        ),
{
    state.publishing_files = names_of(&snapshot.own_objects);
}

fn names_of(objects: &Vec<ObjectRef>) -> (names: Vec<ObjectIdentity>)
    ensures
        names@ == objects@.map_values(|o: ObjectRef| o.identity),
{
    let mut names: Vec<ObjectIdentity> = Vec::new();
    let mut i: usize = 0;
    while i < objects.len()
        invariant
            i <= objects@.len(),
            names@ == objects@.take(i as int).map_values(|o: ObjectRef| o.identity),
        decreases objects@.len() - i,
    {
        names.push(objects[i].identity);
        i = i + 1;
    }
    names
}

// ---------------------------------------------------------------------------
// Files to upload
// ---------------------------------------------------------------------------

pub open spec fn source_object_is_covered_spec(
    frontier: Option<(u64, u64)>,
    writer_fence: u64,
    max_seq: u64,
) -> bool {
    match frontier {
        Some(reached) => writer_fence == reached.0 && max_seq <= reached.1,
        None => false,
    }
}

/// Whether an object's blocks are in the archive already: written by the same
/// writer, up to a record that was archived.
#[verifier::when_used_as_spec(source_object_is_covered_spec)]
pub fn source_object_is_covered(
    frontier: Option<(u64, u64)>,
    writer_fence: u64,
    max_seq: u64,
) -> (covered: bool)
    ensures
        covered == source_object_is_covered_spec(frontier, writer_fence, max_seq),
{
    match frontier {
        Some(reached) => writer_fence == reached.0 && max_seq <= reached.1,
        None => false,
    }
}

/// A file that is not archived yet.
pub open spec fn is_new_file(
    archived: Seq<ObjectRef>,
    frontier: Option<(u64, u64)>,
    file: ObjectRef,
) -> bool {
    !lists(archived, file.identity) && !source_object_is_covered_spec(
        frontier,
        file.identity.writer_fence,
        file.max_seq,
    )
}

/// The files of `own` that are not archived yet, each name once.
pub open spec fn uploads(
    archived: Seq<ObjectRef>,
    own: Seq<ObjectRef>,
    frontier: Option<(u64, u64)>,
) -> Seq<ObjectRef>
    decreases own.len(),
{
    if own.len() == 0 {
        Seq::empty()
    } else {
        let before = uploads(archived, own.drop_last(), frontier);
        if is_new_file(archived, frontier, own.last()) && !lists(before, own.last().identity) {
            before.push(own.last())
        } else {
            before
        }
    }
}

/// No two objects have the same name, and none is in `archived`.
pub open spec fn are_additions(archived: Seq<ObjectRef>, files: Seq<ObjectRef>) -> bool {
    &&& forall|i: int|
        0 <= i < files.len() ==> !lists(archived, (#[trigger] files[i]).identity)
    &&& forall|i: int, j: int|
        0 <= i < j < files.len() ==> files[i].identity != files[j].identity
}

/// The volume's files that have to be uploaded.
pub fn plan_uploads(
    archived: &Vec<ObjectRef>,
    own: &Vec<ObjectRef>,
    frontier: Option<(u64, u64)>,
) -> (files: Vec<ObjectRef>)
    ensures
        files@ == uploads(archived@, own@, frontier),
        are_additions(archived@, files@),
{
    let mut files: Vec<ObjectRef> = Vec::new();
    let mut i: usize = 0;
    while i < own.len()
        invariant
            i <= own@.len(),
            files@ == uploads(archived@, own@.take(i as int), frontier),
            are_additions(archived@, files@),
        decreases own@.len() - i,
    {
        proof {
            assert(own@.take(i + 1).drop_last() =~= own@.take(i as int));
        }
        let file: ObjectRef = own[i];
        if !contains_identity(archived, file.identity) && !source_object_is_covered(
            frontier,
            file.identity.writer_fence,
            file.max_seq,
        ) && !contains_identity(&files, file.identity) {
            proof {
                assert forall|a: int| 0 <= a < files@.len() implies #[trigger] files@[a].identity
                    != file.identity by {
                    if files@[a].identity == file.identity {
                        assert(lists(files@, file.identity));
                    }
                }
            }
            files.push(file);
        }
        i = i + 1;
    }
    proof {
        assert(own@.take(i as int) =~= own@);
    }
    files
}

/// `all` is sorted and holds the objects of both lists.
pub open spec fn is_union(
    archived: Seq<ObjectRef>,
    files: Seq<ObjectRef>,
    all: Seq<ObjectRef>,
) -> bool {
    &&& sorted(all)
    &&& forall|o: ObjectRef| #[trigger]
        all.contains(o) <==> archived.contains(o) || files.contains(o)
}

/// The archived files once the uploads are done.
pub fn with_uploads(archived: Vec<ObjectRef>, files: &Vec<ObjectRef>) -> (all: Vec<ObjectRef>)
    requires
        sorted(archived@),
        are_additions(archived@, files@),
    ensures
        is_union(archived@, files@, all@),
{
    let ghost before = archived@;
    let mut all = archived;
    let mut i: usize = 0;
    while i < files.len()
        invariant
            i <= files@.len(),
            are_additions(before, files@),
            is_union(before, files@.take(i as int), all@),
        decreases files@.len() - i,
    {
        let ghost then = all@;
        let file: ObjectRef = files[i];
        place_object(&mut all, file);
        proof {
            let shorter = files@.take(i as int);
            let longer = files@.take(i + 1);
            assert(longer =~= shorter.push(file));
            assert forall|o: ObjectRef| #[trigger] all@.contains(o) <==> before.contains(o)
                || longer.contains(o) by {
                if longer.contains(o) && o != file {
                    let k = choose|k: int| 0 <= k < longer.len() && longer[k] == o;
                    assert(shorter[k] == o);
                }
                if shorter.contains(o) {
                    let k = choose|k: int| 0 <= k < shorter.len() && shorter[k] == o;
                    assert(longer[k] == o);
                    assert(files@[k].identity != files@[i as int].identity);
                }
                if before.contains(o) {
                    let k = choose|k: int| 0 <= k < before.len() && before[k] == o;
                    assert(before[k].identity == o.identity);
                    assert(lists(before, o.identity));
                }
                assert(longer[i as int] == file);
                assert(then.contains(o) <==> before.contains(o) || shorter.contains(o));
            }
        }
        i = i + 1;
    }
    proof {
        assert(files@.take(i as int) =~= files@);
    }
    all
}

/// Every file the published state needs is archived afterwards, or its blocks
/// are.
pub proof fn uploads_leave_nothing_out(
    archived: Seq<ObjectRef>,
    own: Seq<ObjectRef>,
    frontier: Option<(u64, u64)>,
    all: Seq<ObjectRef>,
    file: ObjectRef,
)
    requires
        own.contains(file),
        is_union(archived, uploads(archived, own, frontier), all),
    ensures
        lists(all, file.identity) || source_object_is_covered(
            frontier,
            file.identity.writer_fence,
            file.max_seq,
        ),
{
    if !source_object_is_covered(frontier, file.identity.writer_fence, file.max_seq) {
        if lists(archived, file.identity) {
            let k = choose|k: int|
                0 <= k < archived.len() && #[trigger] archived[k].identity == file.identity;
            assert(all.contains(archived[k]));
            let m = choose|m: int| 0 <= m < all.len() && all[m] == archived[k];
        } else {
            lemma_new_files_are_uploaded(archived, own, frontier, file);
            let list = uploads(archived, own, frontier);
            let k = choose|k: int| 0 <= k < list.len() && #[trigger] list[k].identity == file.identity;
            assert(all.contains(list[k]));
            let m = choose|m: int| 0 <= m < all.len() && all[m] == list[k];
        }
    }
}

proof fn lemma_new_files_are_uploaded(
    archived: Seq<ObjectRef>,
    own: Seq<ObjectRef>,
    frontier: Option<(u64, u64)>,
    file: ObjectRef,
)
    requires
        own.contains(file),
        is_new_file(archived, frontier, file),
    ensures
        lists(uploads(archived, own, frontier), file.identity),
    decreases own.len(),
{
    let shorter = own.drop_last();
    let before = uploads(archived, shorter, frontier);
    let after = uploads(archived, own, frontier);
    if file == own.last() {
        if !lists(before, file.identity) {
            assert(after[before.len() as int].identity == file.identity);
        }
    } else {
        let k = choose|k: int| 0 <= k < own.len() && own[k] == file;
        assert(shorter[k] == file);
        lemma_new_files_are_uploaded(archived, shorter, frontier, file);
        let m = choose|m: int|
            0 <= m < before.len() && #[trigger] before[m].identity == file.identity;
        assert(after[m].identity == file.identity);
    }
}

// ---------------------------------------------------------------------------
// Rewriting overlapping files
// ---------------------------------------------------------------------------

/// Whether the archived files have to be rewritten: they do not add up to the
/// state, or too many share a key.
pub fn must_compact(files: &Vec<ObjectRef>, consistent: bool, forced: bool, limit: usize) -> (compact:
    bool)
    ensures
        compact == (!consistent || (forced && too_many_share(files@, limit))),
{
    if !consistent {
        return true;
    }
    forced && needs_compaction(files, limit)
}

/// Some first key is covered by `limit` objects or more.
pub open spec fn too_many_share(files: Seq<ObjectRef>, limit: usize) -> bool {
    limit == 0 || exists|i: int|
        0 <= i < files.len() && cover_count(files, (#[trigger] files[i]).first_key)
            >= limit
}

/// Whether so many archived files share a key that they should be rewritten.
pub fn needs_compaction(files: &Vec<ObjectRef>, limit: usize) -> (needed: bool)
    ensures
        needed == too_many_share(files@, limit),
{
    let overlap: usize = maximum_overlap(files);
    overlap >= limit
}

/// One group of objects for each partition, in the order of partitions. Nothing
/// if an object spans partitions.
pub open spec fn grouped(files: Seq<ObjectRef>, groups: Seq<Vec<ObjectRef>>) -> bool {
    &&& forall|i: int| 0 <= i < groups.len() ==> (#[trigger] groups[i])@.len() > 0
    &&& forall|i: int, j: int|
        0 <= i < j < groups.len() ==> partition_of(groups[i]@) < partition_of(groups[j]@)
    &&& forall|i: int|
        0 <= i < groups.len() ==> (#[trigger] groups[i])@ == in_partition(
            files,
            partition_of(groups[i]@),
        )
    &&& forall|k: int|
        0 <= k < files.len() ==> has_group(
            groups,
            (#[trigger] files[k]).first_key.file_partition(),
        )
}

pub open spec fn partition_of(group: Seq<ObjectRef>) -> u64 {
    group[0].first_key.file_partition()
}

pub open spec fn has_group(groups: Seq<Vec<ObjectRef>>, partition: u64) -> bool {
    exists|i: int| 0 <= i < groups.len() && partition_of((#[trigger] groups[i])@) == partition
}

pub open spec fn in_partition(files: Seq<ObjectRef>, partition: u64) -> Seq<ObjectRef> {
    files.filter(|o: ObjectRef| o.first_key.file_partition() == partition)
}

/// Every object lies in one partition.
pub open spec fn within_partitions(files: Seq<ObjectRef>) -> bool {
    forall|i: int|
        0 <= i < files.len() ==> (#[trigger] files[i]).first_key.file_partition()
            == files[i].last_key.file_partition()
}

fn find_group(groups: &Vec<Vec<ObjectRef>>, partition: u64) -> (at: usize)
    requires
        forall|i: int| 0 <= i < groups@.len() ==> (#[trigger] groups@[i])@.len() > 0,
        forall|i: int, j: int|
            0 <= i < j < groups@.len() ==> partition_of(groups@[i]@) < partition_of(groups@[j]@),
    ensures
        at <= groups@.len(),
        forall|i: int| 0 <= i < at ==> partition_of((#[trigger] groups@[i])@) < partition,
        forall|i: int|
            at <= i < groups@.len() ==> partition_of((#[trigger] groups@[i])@) >= partition,
{
    let mut at: usize = 0;
    while at < groups.len() && groups[at][0].first_key.file_partition() < partition
        invariant
            at <= groups@.len(),
            forall|i: int| 0 <= i < groups@.len() ==> (#[trigger] groups@[i])@.len() > 0,
            forall|i: int| 0 <= i < at ==> partition_of((#[trigger] groups@[i])@) < partition,
        decreases groups@.len() - at,
    {
        at = at + 1;
    }
    proof {
        if at < groups@.len() {
            assert(partition_of(groups@[at as int]@) >= partition);
        }
    }
    at
}

/// Groups objects by partition.
pub fn partition_groups(files: &Vec<ObjectRef>) -> (groups: Option<Vec<Vec<ObjectRef>>>)
    ensures
        groups is Some <==> within_partitions(files@),
        groups is Some ==> grouped(files@, groups->0@),
{
    let mut groups: Vec<Vec<ObjectRef>> = Vec::new();
    let mut i: usize = 0;
    proof {
        reveal(Seq::filter);
    }
    while i < files.len()
        invariant
            i <= files@.len(),
            grouped(files@.take(i as int), groups@),
            forall|a: int|
                0 <= a < i ==> (#[trigger] files@[a]).first_key.file_partition()
                    == files@[a].last_key.file_partition(),
        decreases files@.len() - i,
    {
        let file: ObjectRef = files[i];
        let partition: u64 = file.first_key.file_partition();
        if file.last_key.file_partition() != partition {
            return None;
        }
        let ghost before = groups@;
        let at: usize = find_group(&groups, partition);
        let joins: bool = at < groups.len() && groups[at][0].first_key.file_partition()
            == partition;
        if joins {
            let mut group: Vec<ObjectRef> = groups.remove(at);
            group.push(file);
            groups.insert(at, group);
            proof {
                lemma_group_joined(
                    files@.take(i as int),
                    before,
                    at as int,
                    file,
                    groups@,
                );
            }
        } else {
            let mut group: Vec<ObjectRef> = Vec::new();
            group.push(file);
            groups.insert(at, group);
            proof {
                lemma_group_opened(
                    files@.take(i as int),
                    before,
                    at as int,
                    file,
                    groups@,
                );
            }
        }
        proof {
            assert(files@.take(i + 1) =~= files@.take(i as int).push(file));
        }
        i = i + 1;
    }
    proof {
        assert(files@.take(i as int) =~= files@);
    }
    Some(groups)
}

proof fn lemma_in_partition_push(files: Seq<ObjectRef>, file: ObjectRef, partition: u64)
    ensures
        in_partition(files.push(file), partition) == (if file.first_key.file_partition()
            == partition {
            in_partition(files, partition).push(file)
        } else {
            in_partition(files, partition)
        }),
{
    reveal(Seq::filter);
    assert(files.push(file).drop_last() =~= files);
}

proof fn lemma_group_joined(
    files: Seq<ObjectRef>,
    before: Seq<Vec<ObjectRef>>,
    at: int,
    file: ObjectRef,
    after: Seq<Vec<ObjectRef>>,
)
    requires
        grouped(files, before),
        0 <= at < before.len(),
        partition_of(before[at]@) == file.first_key.file_partition(),
        after.len() == before.len(),
        after[at]@ == before[at]@.push(file),
        forall|i: int| 0 <= i < before.len() && i != at ==> #[trigger] after[i] == before[i],
    ensures
        grouped(files.push(file), after),
{
    let longer = files.push(file);
    assert forall|i: int| 0 <= i < after.len() implies (#[trigger] after[i])@.len() > 0
        && partition_of(after[i]@) == partition_of(before[i]@) && after[i]@ == in_partition(
        longer,
        partition_of(after[i]@),
    ) by {
        assert(before[i]@.len() > 0);
        lemma_in_partition_push(files, file, partition_of(before[i]@));
        if i < at {
            assert(partition_of(before[i]@) < partition_of(before[at]@));
        }
        if at < i {
            assert(partition_of(before[at]@) < partition_of(before[i]@));
        }
    }
    assert forall|k: int| 0 <= k < longer.len() implies has_group(
        after,
        (#[trigger] longer[k]).first_key.file_partition(),
    ) by {
        if k < files.len() {
            assert(longer[k] == files[k]);
            assert(has_group(before, files[k].first_key.file_partition()));
            let i = choose|i: int|
                0 <= i < before.len() && partition_of((#[trigger] before[i])@)
                    == files[k].first_key.file_partition();
            assert(partition_of(after[i]@) == files[k].first_key.file_partition());
        } else {
            assert(partition_of(after[at]@) == file.first_key.file_partition());
        }
    }
}

proof fn lemma_group_opened(
    files: Seq<ObjectRef>,
    before: Seq<Vec<ObjectRef>>,
    at: int,
    file: ObjectRef,
    after: Seq<Vec<ObjectRef>>,
)
    requires
        grouped(files, before),
        0 <= at <= before.len(),
        forall|i: int|
            0 <= i < at ==> partition_of((#[trigger] before[i])@)
                < file.first_key.file_partition(),
        forall|i: int|
            at <= i < before.len() ==> partition_of((#[trigger] before[i])@)
                > file.first_key.file_partition(),
        after.len() == before.len() + 1,
        after[at]@ == seq![file],
        forall|i: int| 0 <= i < at ==> #[trigger] after[i] == before[i],
        forall|i: int| at < i < after.len() ==> #[trigger] after[i] == before[i - 1],
    ensures
        grouped(files.push(file), after),
{
    let longer = files.push(file);
    let partition = file.first_key.file_partition();
    assert forall|i: int| 0 <= i < after.len() implies (#[trigger] after[i])@.len() > 0
        && after[i]@ == in_partition(longer, partition_of(after[i]@)) by {
        lemma_in_partition_push(files, file, partition_of(after[i]@));
        if i == at {
            assert(in_partition(files, partition) =~= Seq::<ObjectRef>::empty()) by {
                lemma_no_member(files, before, partition);
            }
            assert(after[i]@ =~= in_partition(files, partition).push(file));
        } else if i < at {
            assert(before[i]@.len() > 0);
            assert(partition_of(before[i]@) < partition);
        } else {
            assert(before[i - 1]@.len() > 0);
            assert(partition_of(before[i - 1]@) > partition);
        }
    }
    assert forall|i: int, j: int| 0 <= i < j < after.len() implies partition_of(after[i]@)
        < partition_of(after[j]@) by {
        let old_i = if i < at {
            i
        } else {
            i - 1
        };
        let old_j = if j < at {
            j
        } else {
            j - 1
        };
        if i == at {
            assert(after[j] == before[old_j]);
            assert(partition_of(before[old_j]@) > partition);
        } else if j == at {
            assert(after[i] == before[old_i]);
            assert(partition_of(before[old_i]@) < partition);
        } else {
            assert(after[i] == before[old_i] && after[j] == before[old_j]);
            assert(partition_of(before[old_i]@) < partition_of(before[old_j]@));
        }
    }
    assert forall|k: int| 0 <= k < longer.len() implies has_group(
        after,
        (#[trigger] longer[k]).first_key.file_partition(),
    ) by {
        if k < files.len() {
            assert(longer[k] == files[k]);
            assert(has_group(before, files[k].first_key.file_partition()));
            let i = choose|i: int|
                0 <= i < before.len() && partition_of((#[trigger] before[i])@)
                    == files[k].first_key.file_partition();
            let now = if i < at {
                i
            } else {
                i + 1
            };
            assert(after[now] == before[i]);
        } else {
            assert(partition_of(after[at]@) == partition);
        }
    }
}

proof fn lemma_no_member(files: Seq<ObjectRef>, groups: Seq<Vec<ObjectRef>>, partition: u64)
    requires
        grouped(files, groups),
        !has_group(groups, partition),
    ensures
        in_partition(files, partition).len() == 0,
{
    assert forall|k: int| 0 <= k < files.len() implies (#[trigger] files[k]).first_key.file_partition()
        != partition by {
        assert(has_group(groups, files[k].first_key.file_partition()));
    }
    lemma_empty_filter(files, partition);
}

proof fn lemma_empty_filter(files: Seq<ObjectRef>, partition: u64)
    requires
        forall|k: int|
            0 <= k < files.len() ==> (#[trigger] files[k]).first_key.file_partition()
                != partition,
    ensures
        in_partition(files, partition).len() == 0,
    decreases files.len(),
{
    reveal(Seq::filter);
    if files.len() > 0 {
        let shorter = files.drop_last();
        assert forall|k: int|
            0 <= k < shorter.len() implies (#[trigger] shorter[k]).first_key.file_partition()
            != partition by {
            assert(shorter[k] == files[k]);
        }
        lemma_empty_filter(shorter, partition);
    }
}

// ---------------------------------------------------------------------------
// The new manifest
// ---------------------------------------------------------------------------

/// The archived state a new one follows.
pub struct PreviousArchive {
    pub manifest: Manifest,
    pub list: Option<CompleteFileList>,
}

pub struct ArchivePlan {
    pub manifest: Manifest,
    /// A complete list to be written with it.
    pub list: Option<CompleteFileList>,
}

pub open spec fn next_archive_seq(previous: Option<PreviousArchive>) -> u64 {
    match previous {
        Some(p) => if p.manifest.archive_seq < u64::MAX {
            (p.manifest.archive_seq + 1) as u64
        } else {
            u64::MAX
        },
        None => 0,
    }
}

/// The files a difference is counted from.
pub open spec fn baseline_of(previous: PreviousArchive) -> Seq<ObjectRef> {
    match previous.list {
        Some(list) => list.objects@,
        None => Seq::empty(),
    }
}

pub open spec fn plan_describes(
    plan: ArchivePlan,
    previous: Option<PreviousArchive>,
    snapshot: PublishSnapshot,
    volume: u64,
    metadata_checksum: u64,
    files: Seq<ObjectRef>,
) -> bool {
    let manifest = plan.manifest;
    let record = snapshot.record;
    &&& manifest.volume == volume
    &&& manifest.writer_fence == record.fence
    &&& manifest.journal_seq == record.seq
    &&& manifest.archive_seq == next_archive_seq(previous)
    &&& manifest.capture_seq == record.capture_seq
    &&& manifest.sync_covered_through == record.sync_covered_through
    &&& manifest.kind == record.kind
    &&& manifest.config == record.config
    &&& manifest.base == snapshot.base
    &&& manifest.post_state_checksum == record.post_state_checksum
    &&& manifest.metadata_checksum == metadata_checksum
    &&& match previous {
        None => {
            &&& manifest.complete_list == Some(
                ListRef { writer_fence: record.fence, list_id: record.seq },
            )
            &&& manifest.added@ == Seq::<ObjectRef>::empty()
            &&& manifest.removed@ == Seq::<ObjectIdentity>::empty()
            &&& plan.list is Some
            &&& plan.list->0.volume == volume
            &&& plan.list->0.reference() == manifest.complete_list->0
            &&& plan.list->0.objects@ == files
        },
        Some(p) => {
            &&& manifest.complete_list == p.manifest.complete_list
            &&& manifest.added@ == added_files(baseline_of(p), files)
            &&& manifest.removed@ == removed_names(baseline_of(p), files)
            &&& plan.list is None
        },
    }
}

/// Describes the new archived state: in full if it is the first, as a difference
/// from the last complete list otherwise.
pub fn plan_archive(
    previous: &Option<PreviousArchive>,
    snapshot: &PublishSnapshot,
    volume: u64,
    metadata_checksum: u64,
    files: &Vec<ObjectRef>,
) -> (plan: ArchivePlan)
    ensures
        plan_describes(plan, *previous, *snapshot, volume, metadata_checksum, files@),
{
    let record: &VolumeRecord = &snapshot.record;
    let archive_seq: u64 = match previous {
        Some(p) => p.manifest.archive_seq.saturating_add(1),
        None => 0,
    };
    let mut list: Option<CompleteFileList> = None;
    let complete_list: Option<ListRef>;
    let delta: FileDelta;
    match previous {
        None => {
            complete_list = Some(ListRef { writer_fence: record.fence, list_id: record.seq });
            delta = FileDelta { added: Vec::new(), removed: Vec::new() };
            list = Some(
                CompleteFileList {
                    volume,
                    writer_fence: record.fence,
                    list_id: record.seq,
                    objects: copy_refs(files),
                },
            );
        },
        Some(p) => {
            complete_list = p.manifest.complete_list;
            let none: Vec<ObjectRef> = Vec::new();
            let baseline: &Vec<ObjectRef> = match &p.list {
                Some(list) => &list.objects,
                None => &none,
            };
            delta = file_delta(baseline, files);
        },
    }
    ArchivePlan {
        manifest: Manifest {
            volume,
            writer_fence: record.fence,
            journal_seq: record.seq,
            archive_seq,
            capture_seq: record.capture_seq,
            sync_covered_through: record.sync_covered_through,
            kind: record.kind,
            config: record.config,
            base: snapshot.base,
            complete_list,
            post_state_checksum: record.post_state_checksum,
            metadata_checksum,
            added: delta.added,
            removed: delta.removed,
        },
        list,
    }
}

// ---------------------------------------------------------------------------
// Outcomes
// ---------------------------------------------------------------------------

/// Adds names that are not there yet.
pub open spec fn joined(names: Seq<ObjectIdentity>, more: Seq<ObjectRef>) -> Seq<ObjectIdentity>
    decreases more.len(),
{
    if more.len() == 0 {
        names
    } else {
        let before = joined(names, more.drop_last());
        if before.contains(more.last().identity) {
            before
        } else {
            before.push(more.last().identity)
        }
    }
}

pub fn join_names(names: &mut Vec<ObjectIdentity>, more: &Vec<ObjectRef>)
    ensures
        final(names)@ == joined(old(names)@, more@),
{
    let ghost start = names@;
    let mut i: usize = 0;
    while i < more.len()
        invariant
            i <= more@.len(),
            names@ == joined(start, more@.take(i as int)),
        decreases more@.len() - i,
    {
        proof {
            assert(more@.take(i + 1).drop_last() =~= more@.take(i as int));
        }
        if !contains_name(names, more[i].identity) {
            names.push(more[i].identity);
        }
        i = i + 1;
    }
    proof {
        assert(more@.take(i as int) =~= more@);
    }
}

/// `after` is `before` once `pointer` is the newest archived state.
pub open spec fn publication_recorded(
    before: VolumeState,
    after: VolumeState,
    version: u64,
    pointer: ManifestPtr,
    snapshot: PublishSnapshot,
) -> bool {
    &&& after == (VolumeState {
        head_version: Some(version),
        backed: Some(pointer),
        backed_files: after.backed_files,
        peer_published: if before.stash_assignment is Some {
            Some(snapshot.commit)
        } else {
            before.peer_published
        },
        ..before
    })
    &&& after.backed_files@ == joined(before.backed_files@, snapshot.own_objects@)
}

/// Records a publication. Returns whether the volume was still there.
pub fn finish_publication(
    host: &mut HostState,
    volume: u64,
    incarnation: u64,
    version: u64,
    pointer: ManifestPtr,
    snapshot: &PublishSnapshot,
) -> (recorded: bool)
    requires
        old(host).counters.room(1),
    ensures
        recorded == (old(host).volume_at_spec(volume, incarnation) is Some),
        !recorded ==> *final(host) == *old(host),
        recorded ==> {
            let after = final(host).volumes@[volume];
            &&& *final(host) == (HostState {
                volumes: final(host).volumes,
                counters: Counters {
                    manifests_published: (old(host).counters.manifests_published + 1) as u64,
                    ..old(host).counters
                },
                ..*old(host)
            })
            &&& final(host).volumes@ == old(host).volumes@.insert(volume, after)
            &&& publication_recorded(
                old(host).volumes@[volume],
                after,
                version,
                pointer,
                *snapshot,
            )
        },
        follows(*old(host), *final(host)),
{
    if host.volume_at(volume, incarnation).is_none() {
        return false;
    }
    let ghost was = host.volumes@;
    if let Some(mut state) = host.volumes.remove(&volume) {
        state.head_version = Some(version);
        state.backed = Some(pointer);
        join_names(&mut state.backed_files, &snapshot.own_objects);
        if state.stash_assignment.is_some() {
            state.peer_published = Some(snapshot.commit);
        }
        host.volumes.insert(volume, state);
        proof {
            assert(was.remove(volume).insert(volume, state) =~= was.insert(volume, state));
        }
    }
    host.counters.manifests_published = host.counters.manifests_published + 1;
    true
}

/// Stops serving a volume that is another host's. Hands back the resident pages
/// that have to go. With an incarnation, only that one is stopped.
pub fn fence_volume(host: &mut HostState, volume: u64, incarnation: Option<u64>) -> (pages: Option<
    Vec<u64>,
>)
    requires
        old(host).counters.room(1),
    ensures
        pages is Some <==> old(host).volumes@.contains_key(volume) && (incarnation is None
            || incarnation == Some(old(host).volumes@[volume].incarnation)),
        pages is None ==> *final(host) == *old(host),
        pages is Some ==> {
            &&& lists_keys(pages->0@, old(host).volumes@[volume].pages@)
            &&& *final(host) == (HostState {
                volumes: final(host).volumes,
                counters: Counters {
                    fenced: (old(host).counters.fenced + 1) as u64,
                    ..old(host).counters
                },
                ..*old(host)
            })
            &&& final(host).volumes@ == old(host).volumes@.remove(volume)
        },
        follows(*old(host), *final(host)),
{
    let found: bool = match host.volumes.get(&volume) {
        Some(state) => match incarnation {
            Some(expected) => state.incarnation == expected,
            None => true,
        },
        None => false,
    };
    if !found {
        return None;
    }
    match host.volumes.remove(&volume) {
        Some(state) => {
            let pages: Vec<u64> = sorted_keys(&state.pages);
            host.counters.fenced = host.counters.fenced + 1;
            Some(pages)
        },
        None => None,
    }
}

/// A state that was just published is not published again until a later one is
/// committed.
pub proof fn published_states_are_done(
    before: VolumeState,
    after: VolumeState,
    volume: u64,
    version: u64,
    pointer: ManifestPtr,
    snapshot: PublishSnapshot,
    again: PublishSnapshot,
)
    requires
        is_snapshot(snapshot, before, volume),
        pointer.capture_seq == snapshot.record.capture_seq,
        before.stash_assignment is Some || before.peer_published is None,
        publication_recorded(before, after, version, pointer, snapshot),
        is_snapshot(again, after, volume),
    ensures
        already_published_spec(again),
{
}

} // verus!
