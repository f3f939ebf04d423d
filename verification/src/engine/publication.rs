//! The course of a publication: from the committed state to the head that names
//! it.
//!
//! Files are uploaded first, then the lists and the manifest that name them, and
//! the head last. Whatever fails on the way is tried anew from the beginning; a
//! volume that is moving away is left alone.

use super::heads::{
    head_read, head_read_step, head_written, is_next_head, plan_head, FoundHead, HeadWrite,
    PublishStep,
};
use super::publish::{
    already_published, already_published_spec, are_additions, baseline_of, fence_volume,
    finish_publication, grouped, has_group, in_partition, is_snapshot, is_union, must_compact,
    needs_compaction, note_publishing, partition_groups, partition_of, plan_archive, plan_describes,
    plan_uploads, publication_recorded, publish_snapshot, publishable, too_many_share, uploads,
    with_uploads, within_partitions, ArchivePlan, PreviousArchive, PublishSnapshot,
};
use super::reconcile::{fenced_off, retries};
use super::schedule::{interrupted, is_interrupted};
use super::state::{follows, Counters, HostState};
use super::volume::VolumeState;
use crate::head::ManifestPtr;
use crate::manifest::{current_files, in_order, put_in_order, updated, CompleteFileList};
use crate::objects::{sorted, ObjectRef};
use crate::store::{StoreError, StoreFault};
use vstd::prelude::*;

verus! {

broadcast use vstd::std_specs::btree::group_btree_axioms;

/// Files that are being uploaded.
pub struct UploadJob {
    pub snapshot: PublishSnapshot,
    /// Whether overlapping files are to be rewritten.
    pub forced: bool,
    pub previous: Option<PreviousArchive>,
    /// Files that are archived.
    pub archived: Vec<ObjectRef>,
    /// Files that are not.
    pub files: Vec<ObjectRef>,
    /// How many of them have been uploaded.
    pub done: usize,
}

impl UploadJob {
    pub open spec fn wf(self) -> bool {
        &&& sorted(self.archived@)
        &&& are_additions(self.archived@, self.files@)
        &&& self.done < self.files@.len()
    }
}

/// Files that are all archived.
pub struct CheckJob {
    pub snapshot: PublishSnapshot,
    pub forced: bool,
    pub previous: Option<PreviousArchive>,
    pub files: Vec<ObjectRef>,
}

/// Files that are being rewritten, one partition after the other.
pub struct RewriteJob {
    pub snapshot: PublishSnapshot,
    pub previous: Option<PreviousArchive>,
    pub groups: Vec<Vec<ObjectRef>>,
    /// How many partitions have been rewritten.
    pub done: usize,
    /// Number of the next new file.
    pub next_object: u64,
    pub files: Vec<ObjectRef>,
}

/// An archived state whose description may have to be shortened.
pub struct BoundJob {
    pub snapshot: PublishSnapshot,
    pub previous: Option<PreviousArchive>,
    pub plan: ArchivePlan,
}

/// An archived state that is being written down.
pub struct WriteJob {
    pub snapshot: PublishSnapshot,
    pub plan: ArchivePlan,
}

/// An archived state that the head is to name.
pub struct HeadJob {
    pub snapshot: PublishSnapshot,
    pub pointer: ManifestPtr,
}

pub enum PublicationStep {
    /// Load the archived files, to see whether too many overlap.
    Inspect(PublishSnapshot),
    /// Load the archived state that the new one follows.
    Load { snapshot: PublishSnapshot, forced: bool },
    /// Upload the next file.
    Upload(UploadJob),
    /// See whether the files add up to the state.
    Check(CheckJob),
    /// Rewrite the next partition.
    Rewrite(RewriteJob),
    /// See whether the rewritten files add up to the state.
    Recheck(RewriteJob),
    /// Shorten the description if it is too long: a new list of files takes the
    /// place of the difference.
    Bound(BoundJob),
    /// Write the list of files.
    WriteList(WriteJob),
    /// Write the manifest where unfinished publications are kept.
    WritePending(WriteJob),
    /// Write the manifest where the head will name it.
    WriteManifest(HeadJob),
    WriteHead { job: HeadJob, write: HeadWrite },
    ReadHead { job: HeadJob, write: HeadWrite },
    /// Wait, then prepare the head.
    HeadLater(HeadJob),
    /// Wait, then begin anew.
    Wait,
    /// The head names the state: drop the unfinished manifest, have the second
    /// keeper release what it kept, and see whether there is more.
    Published,
    /// Drop the unfinished manifest, and stop.
    Discard,
    /// The volume is another host's. If it was still here, its pages are to be
    /// dropped.
    Fenced(Option<Vec<u64>>),
    /// The host cannot go on.
    Failed,
    Stop,
}

// ---------------------------------------------------------------------------
// Beginning
// ---------------------------------------------------------------------------

/// Takes what is to be published next.
pub fn next_publication(host: &mut HostState, volume: u64, incarnation: u64) -> (step:
    PublicationStep)
    ensures
        if is_interrupted(*old(host), volume, incarnation) || publishable(
            old(host).volumes@[volume],
        ) is None {
            step is Stop && *final(host) == *old(host)
        } else {
            let before = old(host).volumes@[volume];
            let after = final(host).volumes@[volume];
            let snapshot = match step {
                PublicationStep::Inspect(snapshot) => snapshot,
                PublicationStep::Load { snapshot, .. } => snapshot,
                _ => arbitrary(),
            };
            &&& is_snapshot(snapshot, before, volume)
            &&& step is Inspect <==> already_published_spec(snapshot)
            &&& step is Load <==> !already_published_spec(snapshot)
            &&& step is Load ==> !step->Load_forced
            &&& *final(host) == (HostState { volumes: final(host).volumes, ..*old(host) })
            &&& final(host).volumes@ == old(host).volumes@.insert(volume, after)
            &&& after == (VolumeState { publishing_files: after.publishing_files, ..before })
            &&& after.publishing_files@ == snapshot.own_objects@.map_values(
                |o: ObjectRef| o.identity,
            )
        },
        follows(*old(host), *final(host)),
{
    if interrupted(host, volume, incarnation) {
        return PublicationStep::Stop;
    }
    let snapshot: PublishSnapshot = match publish_snapshot(host, volume, incarnation) {
        Some(snapshot) => snapshot,
        None => {
            return PublicationStep::Stop;
        },
    };
    let ghost was = host.volumes@;
    if let Some(mut state) = host.volumes.remove(&volume) {
        note_publishing(&mut state, &snapshot);
        host.volumes.insert(volume, state);
        proof {
            assert(was.remove(volume).insert(volume, state) =~= was.insert(volume, state));
        }
    }
    if already_published(&snapshot) {
        PublicationStep::Inspect(snapshot)
    } else {
        PublicationStep::Load { snapshot, forced: false }
    }
}

/// What follows once the archived files of a state that needs no publication
/// were loaded. If so many overlap, they are rewritten.
pub fn archive_inspected(
    host: &HostState,
    volume: u64,
    incarnation: u64,
    snapshot: PublishSnapshot,
    files: Option<Vec<ObjectRef>>,
    limit: usize,
) -> (step: PublicationStep)
    ensures
        step == (if !is_interrupted(*host, volume, incarnation) && files is Some && too_many_share(
            files->0@,
            limit,
        ) {
            PublicationStep::Load { snapshot, forced: true }
        } else {
            PublicationStep::Stop
        }),
{
    if interrupted(host, volume, incarnation) {
        return PublicationStep::Stop;
    }
    match files {
        Some(files) => if needs_compaction(&files, limit) {
            PublicationStep::Load { snapshot, forced: true }
        } else {
            PublicationStep::Stop
        },
        None => PublicationStep::Stop,
    }
}

// ---------------------------------------------------------------------------
// Uploading
// ---------------------------------------------------------------------------

/// The files of the archived state that the new one follows.
pub open spec fn are_archived(previous: Option<PreviousArchive>, files: Seq<ObjectRef>) -> bool {
    match previous {
        Some(p) => exists|baseline: Seq<ObjectRef>| #[trigger]
            in_order(baseline_of(p), baseline) && updated(
                baseline,
                p.manifest.added@,
                p.manifest.removed@,
                files,
            ),
        None => files == Seq::<ObjectRef>::empty(),
    }
}

/// Up to where each writer's blocks are archived.
pub open spec fn frontier_of(previous: Option<PreviousArchive>) -> Option<(u64, u64)> {
    match previous {
        Some(p) => Some((p.manifest.writer_fence, p.manifest.journal_seq)),
        None => None,
    }
}

fn archived_files(previous: &Option<PreviousArchive>) -> (files: Vec<ObjectRef>)
    ensures
        are_archived(*previous, files@),
        sorted(files@),
{
    match previous {
        None => Vec::new(),
        Some(p) => {
            let none: Vec<ObjectRef> = Vec::new();
            let baseline: &Vec<ObjectRef> = match &p.list {
                Some(list) => &list.objects,
                None => &none,
            };
            let ordered: Vec<ObjectRef> = put_in_order(baseline);
            proof {
                assert(in_order(baseline_of(*p), ordered@));
            }
            current_files(&ordered, &p.manifest.added, &p.manifest.removed)
        },
    }
}

/// The step checks these files.
pub open spec fn checks(
    step: PublicationStep,
    snapshot: PublishSnapshot,
    forced: bool,
    previous: Option<PreviousArchive>,
    archived: Seq<ObjectRef>,
    files: Seq<ObjectRef>,
) -> bool {
    match step {
        PublicationStep::Check(job) => {
            &&& job.snapshot == snapshot
            &&& job.forced == forced
            &&& job.previous == previous
            &&& is_union(archived, files, job.files@)
        },
        _ => false,
    }
}

/// What follows once the archived state that the new one follows was loaded.
pub fn previous_loaded(
    host: &HostState,
    volume: u64,
    incarnation: u64,
    snapshot: PublishSnapshot,
    forced: bool,
    loaded: Option<Option<PreviousArchive>>,
) -> (step: PublicationStep)
    ensures
        if is_interrupted(*host, volume, incarnation) {
            step is Stop
        } else if loaded is None {
            step is Wait
        } else {
            exists|archived: Seq<ObjectRef>| #[trigger] are_archived(loaded->0, archived) && {
                let files = uploads(archived, snapshot.own_objects@, frontier_of(loaded->0));
                if files.len() == 0 {
                    checks(step, snapshot, forced, loaded->0, archived, files)
                } else {
                    match step {
                        PublicationStep::Upload(job) => {
                            &&& job.wf()
                            &&& job.snapshot == snapshot
                            &&& job.forced == forced
                            &&& job.previous == loaded->0
                            &&& job.archived@ == archived
                            &&& job.files@ == files
                            &&& job.done == 0
                        },
                        _ => false,
                    }
                }
            }
        },
{
    if interrupted(host, volume, incarnation) {
        return PublicationStep::Stop;
    }
    let previous: Option<PreviousArchive> = match loaded {
        Some(previous) => previous,
        None => {
            return PublicationStep::Wait;
        },
    };
    let archived: Vec<ObjectRef> = archived_files(&previous);
    let frontier: Option<(u64, u64)> = match &previous {
        Some(p) => Some((p.manifest.writer_fence, p.manifest.journal_seq)),
        None => None,
    };
    let files: Vec<ObjectRef> = plan_uploads(&archived, &snapshot.own_objects, frontier);
    let ghost before = archived@;
    proof {
        assert(are_archived(previous, before));
    }
    if files.len() == 0 {
        let all: Vec<ObjectRef> = with_uploads(archived, &files);
        PublicationStep::Check(CheckJob { snapshot, forced, previous, files: all })
    } else {
        PublicationStep::Upload(UploadJob { snapshot, forced, previous, archived, files, done: 0 })
    }
}

/// What follows once a file was uploaded, or could not be.
pub fn file_uploaded(
    host: &HostState,
    volume: u64,
    incarnation: u64,
    job: UploadJob,
    uploaded: bool,
) -> (step: PublicationStep)
    requires
        job.wf(),
    ensures
        if is_interrupted(*host, volume, incarnation) {
            step is Stop
        } else if !uploaded {
            step is Wait
        } else if job.done + 1 < job.files@.len() {
            step == PublicationStep::Upload(UploadJob { done: (job.done + 1) as usize, ..job })
        } else {
            checks(step, job.snapshot, job.forced, job.previous, job.archived@, job.files@)
        },
{
    if interrupted(host, volume, incarnation) {
        return PublicationStep::Stop;
    }
    if !uploaded {
        return PublicationStep::Wait;
    }
    let count: usize = job.files.len();
    let done: usize = job.done + 1;
    if done < count {
        PublicationStep::Upload(UploadJob { done, ..job })
    } else {
        let all: Vec<ObjectRef> = with_uploads(job.archived, &job.files);
        PublicationStep::Check(
            CheckJob {
                snapshot: job.snapshot,
                forced: job.forced,
                previous: job.previous,
                files: all,
            },
        )
    }
}

// ---------------------------------------------------------------------------
// Rewriting
// ---------------------------------------------------------------------------

/// The step describes these files as the new archived state.
pub open spec fn describes(
    step: PublicationStep,
    snapshot: PublishSnapshot,
    previous: Option<PreviousArchive>,
    volume: u64,
    metadata_checksum: u64,
    files: Seq<ObjectRef>,
) -> bool {
    match step {
        PublicationStep::Bound(job) => {
            &&& job.snapshot == snapshot
            &&& job.previous == previous
            &&& plan_describes(job.plan, previous, snapshot, volume, metadata_checksum, files)
        },
        _ => false,
    }
}

fn describe(
    snapshot: PublishSnapshot,
    previous: Option<PreviousArchive>,
    volume: u64,
    metadata_checksum: u64,
    files: &Vec<ObjectRef>,
) -> (step: PublicationStep)
    ensures
        describes(step, snapshot, previous, volume, metadata_checksum, files@),
{
    let plan: ArchivePlan = plan_archive(&previous, &snapshot, volume, metadata_checksum, files);
    PublicationStep::Bound(BoundJob { snapshot, previous, plan })
}

/// What follows once the files were checked against the state. `first_object` is
/// the number of the first file that a rewrite would make, `metadata_checksum`
/// that of the record.
pub fn files_checked(
    host: &HostState,
    volume: u64,
    incarnation: u64,
    job: CheckJob,
    consistent: bool,
    limit: usize,
    first_object: Option<u64>,
    metadata_checksum: u64,
) -> (step: PublicationStep)
    ensures
        if is_interrupted(*host, volume, incarnation) {
            step is Stop
        } else if consistent && !(job.forced && too_many_share(job.files@, limit)) {
            describes(
                step,
                job.snapshot,
                job.previous,
                volume,
                metadata_checksum,
                job.files@,
            )
        } else if first_object is None || !within_partitions(job.files@) {
            step is Wait
        } else {
            let next = match step {
                PublicationStep::Rewrite(next) => next,
                PublicationStep::Recheck(next) => next,
                _ => arbitrary(),
            };
            &&& step is Rewrite <==> job.files@.len() > 0
            &&& step is Recheck <==> job.files@.len() == 0
            &&& next.snapshot == job.snapshot
            &&& next.previous == job.previous
            &&& grouped(job.files@, next.groups@)
            &&& next.done == 0
            &&& Some(next.next_object) == first_object
            &&& next.files@ == Seq::<ObjectRef>::empty()
        },
{
    if interrupted(host, volume, incarnation) {
        return PublicationStep::Stop;
    }
    if !must_compact(&job.files, consistent, job.forced, limit) {
        return describe(job.snapshot, job.previous, volume, metadata_checksum, &job.files);
    }
    let groups: Vec<Vec<ObjectRef>> = match partition_groups(&job.files) {
        Some(groups) => groups,
        None => {
            return PublicationStep::Wait;
        },
    };
    let next_object: u64 = match first_object {
        Some(next_object) => next_object,
        None => {
            return PublicationStep::Wait;
        },
    };
    let some: bool = groups.len() > 0;
    proof {
        if job.files@.len() > 0 {
            assert(has_group(
                groups@,
                job.files@[0].first_key.file_partition(),
            ));
        } else if groups@.len() > 0 {
            reveal(Seq::filter);
            assert(groups@[0]@ == in_partition(
                job.files@,
                partition_of(groups@[0]@),
            ));
        }
    }
    let next = RewriteJob {
        snapshot: job.snapshot,
        previous: job.previous,
        groups,
        done: 0,
        next_object,
        files: Vec::new(),
    };
    if some {
        PublicationStep::Rewrite(next)
    } else {
        PublicationStep::Recheck(next)
    }
}

/// What follows once a partition was rewritten and its new files were uploaded,
/// or could not be.
pub fn partition_rewritten(
    host: &HostState,
    volume: u64,
    incarnation: u64,
    job: RewriteJob,
    rewritten: Option<Vec<ObjectRef>>,
) -> (step: PublicationStep)
    requires
        job.done < job.groups@.len(),
    ensures
        if is_interrupted(*host, volume, incarnation) {
            step is Stop
        } else if rewritten is None || job.next_object + rewritten->0@.len() > u64::MAX {
            step is Wait
        } else {
            let next = match step {
                PublicationStep::Rewrite(next) => next,
                PublicationStep::Recheck(next) => next,
                _ => arbitrary(),
            };
            &&& step is Rewrite <==> job.done + 1 < job.groups@.len()
            &&& step is Recheck <==> job.done + 1 == job.groups@.len()
            &&& next == (RewriteJob {
                done: (job.done + 1) as usize,
                next_object: (job.next_object + rewritten->0@.len()) as u64,
                files: next.files,
                ..job
            })
            &&& next.files@ == job.files@ + rewritten->0@
        },
{
    if interrupted(host, volume, incarnation) {
        return PublicationStep::Stop;
    }
    let mut rewritten: Vec<ObjectRef> = match rewritten {
        Some(rewritten) => rewritten,
        None => {
            return PublicationStep::Wait;
        },
    };
    let ghost fresh = rewritten@;
    let count: u64 = rewritten.len() as u64;
    let next_object: u64 = match job.next_object.checked_add(count) {
        Some(next_object) => next_object,
        None => {
            return PublicationStep::Wait;
        },
    };
    let partitions: usize = job.groups.len();
    let done: usize = job.done + 1;
    let more: bool = done < partitions;
    let mut files: Vec<ObjectRef> = Vec::new();
    let mut before: Vec<ObjectRef> = job.files;
    files.append(&mut before);
    files.append(&mut rewritten);
    proof {
        assert(files@ =~= job.files@ + fresh);
    }
    let next = RewriteJob {
        snapshot: job.snapshot,
        previous: job.previous,
        groups: job.groups,
        done,
        next_object,
        files,
    };
    if more {
        PublicationStep::Rewrite(next)
    } else {
        PublicationStep::Recheck(next)
    }
}

/// What follows once the rewritten files were checked against the state.
pub fn rewrite_checked(
    host: &HostState,
    volume: u64,
    incarnation: u64,
    job: RewriteJob,
    consistent: bool,
    metadata_checksum: u64,
) -> (step: PublicationStep)
    ensures
        if is_interrupted(*host, volume, incarnation) {
            step is Stop
        } else if !consistent {
            step is Wait
        } else {
            describes(
                step,
                job.snapshot,
                job.previous,
                volume,
                metadata_checksum,
                job.files@,
            )
        },
{
    if interrupted(host, volume, incarnation) {
        return PublicationStep::Stop;
    }
    if !consistent {
        return PublicationStep::Wait;
    }
    describe(job.snapshot, job.previous, volume, metadata_checksum, &job.files)
}

// ---------------------------------------------------------------------------
// Writing it down
// ---------------------------------------------------------------------------

/// The plan with the shortened description. A list that was to be written still
/// is, unless another takes its place.
pub open spec fn bounded_plan(plan: ArchivePlan, bounded: ArchivePlan) -> ArchivePlan {
    ArchivePlan {
        manifest: bounded.manifest,
        list: if bounded.list is Some {
            bounded.list
        } else {
            plan.list
        },
    }
}

/// What follows once the description was shortened as far as it had to be, or
/// could not be.
pub fn manifest_bounded(
    host: &HostState,
    volume: u64,
    incarnation: u64,
    job: BoundJob,
    bounded: Option<ArchivePlan>,
) -> (step: PublicationStep)
    ensures
        step == (match bounded {
            None => if is_interrupted(*host, volume, incarnation) {
                PublicationStep::Stop
            } else {
                PublicationStep::Wait
            },
            Some(short) => {
                let plan = bounded_plan(job.plan, short);
                let next = WriteJob { snapshot: job.snapshot, plan };
                if plan.list is Some {
                    PublicationStep::WriteList(next)
                } else {
                    PublicationStep::WritePending(next)
                }
            },
        }),
{
    let short: ArchivePlan = match bounded {
        Some(short) => short,
        None => {
            return if interrupted(host, volume, incarnation) {
                PublicationStep::Stop
            } else {
                PublicationStep::Wait
            };
        },
    };
    let list: Option<CompleteFileList> = if short.list.is_some() {
        short.list
    } else {
        job.plan.list
    };
    let listed: bool = list.is_some();
    let next = WriteJob {
        snapshot: job.snapshot,
        plan: ArchivePlan { manifest: short.manifest, list },
    };
    if listed {
        PublicationStep::WriteList(next)
    } else {
        PublicationStep::WritePending(next)
    }
}

/// What follows once the list of files was written, or could not be.
pub fn list_written(
    host: &HostState,
    volume: u64,
    incarnation: u64,
    job: WriteJob,
    written: bool,
) -> (step: PublicationStep)
    ensures
        step == (if is_interrupted(*host, volume, incarnation) {
            PublicationStep::Stop
        } else if !written {
            PublicationStep::Wait
        } else {
            PublicationStep::WritePending(job)
        }),
{
    if interrupted(host, volume, incarnation) {
        PublicationStep::Stop
    } else if !written {
        PublicationStep::Wait
    } else {
        PublicationStep::WritePending(job)
    }
}

/// What follows once the manifest was kept as unfinished, under the pointer it
/// got, or could not be.
pub fn pending_written(
    host: &HostState,
    volume: u64,
    incarnation: u64,
    job: WriteJob,
    pointer: Option<ManifestPtr>,
) -> (step: PublicationStep)
    ensures
        step == (if is_interrupted(*host, volume, incarnation) {
            PublicationStep::Stop
        } else {
            match pointer {
                Some(pointer) => PublicationStep::WriteManifest(
                    HeadJob { snapshot: job.snapshot, pointer },
                ),
                None => PublicationStep::Wait,
            }
        }),
{
    if interrupted(host, volume, incarnation) {
        return PublicationStep::Stop;
    }
    match pointer {
        Some(pointer) => PublicationStep::WriteManifest(
            HeadJob { snapshot: job.snapshot, pointer },
        ),
        None => PublicationStep::Wait,
    }
}

// ---------------------------------------------------------------------------
// The head
// ---------------------------------------------------------------------------

/// The step ends the publication without the volume.
pub open spec fn gives_up(
    before: HostState,
    after: HostState,
    volume: u64,
    incarnation: u64,
    step: PublicationStep,
) -> bool {
    match step {
        PublicationStep::Fenced(pages) => if before.volume_at_spec(volume, incarnation) is Some {
            fenced_off(before, after, volume, pages)
        } else {
            pages is None && after == before
        },
        _ => false,
    }
}

/// The step writes the head, or gives up if there is none to be replaced.
pub open spec fn heads_for(
    before: HostState,
    after: HostState,
    volume: u64,
    incarnation: u64,
    job: HeadJob,
    step: PublicationStep,
) -> bool {
    let state = before.volume_at_spec(volume, incarnation);
    if state is Some && state->0.head_version is Some {
        after == before && match step {
            PublicationStep::WriteHead { job: j, write } => {
                &&& j == job
                &&& Some(write.expected) == state->0.head_version
                &&& is_next_head(write.head, state->0, volume, before.host, job.pointer)
            },
            _ => false,
        }
    } else {
        gives_up(before, after, volume, incarnation, step)
    }
}

fn give_up(host: &mut HostState, volume: u64, incarnation: u64) -> (step: PublicationStep)
    requires
        old(host).counters.room(1),
    ensures
        gives_up(*old(host), *final(host), volume, incarnation, step),
{
    let pages: Option<Vec<u64>> = fence_volume(host, volume, Some(incarnation));
    PublicationStep::Fenced(pages)
}

/// Prepares the head that names the new archived state.
pub fn prepare_head(host: &mut HostState, volume: u64, incarnation: u64, job: HeadJob) -> (step:
    PublicationStep)
    requires
        old(host).counters.room(1),
    ensures
        heads_for(*old(host), *final(host), volume, incarnation, job, step),
        follows(*old(host), *final(host)),
{
    match plan_head(host, volume, incarnation, job.pointer) {
        Some(write) => PublicationStep::WriteHead { job, write },
        None => give_up(host, volume, incarnation),
    }
}

/// How a publication goes on once the manifest was written, or could not be.
pub open spec fn goes_on_with_manifest(
    before: HostState,
    after: HostState,
    volume: u64,
    incarnation: u64,
    job: HeadJob,
    written: bool,
    step: PublicationStep,
) -> bool {
    let stop = is_interrupted(before, volume, incarnation);
    if !written {
        after == before && step == (if stop {
            PublicationStep::Stop
        } else {
            PublicationStep::Wait
        })
    } else if stop {
        after == before && step is Discard
    } else {
        heads_for(before, after, volume, incarnation, job, step)
    }
}

/// What follows once the manifest was written where the head will name it, or
/// could not be.
pub fn manifest_written(
    host: &mut HostState,
    volume: u64,
    incarnation: u64,
    job: HeadJob,
    written: bool,
) -> (step: PublicationStep)
    requires
        old(host).counters.room(1),
    ensures
        goes_on_with_manifest(
            *old(host),
            *final(host),
            volume,
            incarnation,
            job,
            written,
            step,
        ),
        follows(*old(host), *final(host)),
{
    let stop: bool = interrupted(host, volume, incarnation);
    if !written {
        return if stop {
            PublicationStep::Stop
        } else {
            PublicationStep::Wait
        };
    }
    if stop {
        return PublicationStep::Discard;
    }
    prepare_head(host, volume, incarnation, job)
}

/// `after` is `before` with the publication recorded, if the volume is still
/// there.
pub open spec fn records(
    before: HostState,
    after: HostState,
    volume: u64,
    incarnation: u64,
    version: u64,
    job: HeadJob,
    step: PublicationStep,
) -> bool {
    if before.volume_at_spec(volume, incarnation) is Some {
        &&& step is Published
        &&& after == (HostState {
            volumes: after.volumes,
            counters: Counters {
                manifests_published: (before.counters.manifests_published + 1) as u64,
                ..before.counters
            },
            ..before
        })
        &&& after.volumes@ == before.volumes@.insert(volume, after.volumes@[volume])
        &&& publication_recorded(
            before.volumes@[volume],
            after.volumes@[volume],
            version,
            job.pointer,
            job.snapshot,
        )
    } else {
        step is Stop && after == before
    }
}

fn record(host: &mut HostState, volume: u64, incarnation: u64, version: u64, job: HeadJob) -> (step:
    PublicationStep)
    requires
        old(host).counters.room(1),
    ensures
        records(*old(host), *final(host), volume, incarnation, version, job, step),
{
    if finish_publication(host, volume, incarnation, version, job.pointer, &job.snapshot) {
        PublicationStep::Published
    } else {
        PublicationStep::Stop
    }
}

/// What follows the write of the head.
pub fn publication_head_written(
    host: &mut HostState,
    volume: u64,
    incarnation: u64,
    job: HeadJob,
    write: HeadWrite,
    outcome: Result<u64, StoreError>,
) -> (step: PublicationStep)
    requires
        old(host).counters.room(1),
    ensures
        match outcome {
            Ok(version) => records(
                *old(host),
                *final(host),
                volume,
                incarnation,
                version,
                job,
                step,
            ),
            Err(StoreError::TooLarge) => step is Failed && *final(host) == *old(host),
            Err(StoreError::Fault(StoreFault::CasConflict { .. })) => step
                == (PublicationStep::ReadHead { job, write }) && *final(host) == *old(host),
            Err(StoreError::Fault(StoreFault::Unavailable)) => step
                == (PublicationStep::ReadHead { job, write }) && retries(*old(host), *final(host)),
        },
        follows(*old(host), *final(host)),
{
    match head_written(&mut host.counters, outcome) {
        PublishStep::Published(version) => record(host, volume, incarnation, version, job),
        PublishStep::Fatal => PublicationStep::Failed,
        _ => PublicationStep::ReadHead { job, write },
    }
}

/// `before` with the version of the head that was found.
pub open spec fn version_noted(before: HostState, after: HostState, volume: u64, version: u64) ->
    bool {
    if before.volumes@.contains_key(volume) {
        &&& after == (HostState { volumes: after.volumes, ..before })
        &&& after.volumes@ == before.volumes@.insert(
            volume,
            VolumeState { head_version: Some(version), ..before.volumes@[volume] },
        )
    } else {
        after == before
    }
}

/// What follows from the head that was read back.
pub fn publication_head_read(
    host: &mut HostState,
    volume: u64,
    incarnation: u64,
    job: HeadJob,
    write: &HeadWrite,
    found: Result<Option<FoundHead>, StoreError>,
) -> (step: PublicationStep)
    requires
        old(host).counters.room(1),
    ensures
        match head_read_step(write.head, job.pointer, found) {
            PublishStep::Published(version) => records(
                *old(host),
                *final(host),
                volume,
                incarnation,
                version,
                job,
                step,
            ),
            PublishStep::Fenced => gives_up(*old(host), *final(host), volume, incarnation, step),
            PublishStep::Fatal => step is Failed && *final(host) == *old(host),
            PublishStep::Retry => step == PublicationStep::HeadLater(job) && *final(host) == *old(
                host,
            ),
            _ => exists|noted: HostState| #[trigger]
                version_noted(*old(host), noted, volume, found->Ok_0->0.version) && heads_for(
                    noted,
                    *final(host),
                    volume,
                    incarnation,
                    job,
                    step,
                ),
        },
        follows(*old(host), *final(host)),
{
    let ghost before = *host;
    match head_read(host, volume, &write.head, job.pointer, found) {
        PublishStep::Published(version) => record(host, volume, incarnation, version, job),
        PublishStep::Fenced => give_up(host, volume, incarnation),
        PublishStep::Fatal => PublicationStep::Failed,
        PublishStep::Retry => PublicationStep::HeadLater(job),
        _ => {
            let ghost noted = *host;
            proof {
                assert(version_noted(before, noted, volume, found->Ok_0->0.version)) by {
                    if before.volumes@.contains_key(volume) {
                        assert(noted.volumes@[volume] == (VolumeState {
                            head_version: Some(found->Ok_0->0.version),
                            ..before.volumes@[volume]
                        }));
                    }
                }
            }
            prepare_head(host, volume, incarnation, job)
        },
    }
}

/// A volume that is moving away is not published: whatever was prepared for it
/// is dropped before a head names it.
pub proof fn departing_volumes_are_not_published(
    before: HostState,
    after: HostState,
    volume: u64,
    incarnation: u64,
    job: HeadJob,
    written: bool,
    step: PublicationStep,
)
    requires
        goes_on_with_manifest(before, after, volume, incarnation, job, written, step),
        is_interrupted(before, volume, incarnation),
    ensures
        step !is WriteHead,
        after == before,
{
}

} // verus!
