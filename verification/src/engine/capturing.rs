//! The course of a capture: from the pages a volume has changed to a durable
//! record.
//!
//! Pages are protected, read and written to files; a guest that writes to a page
//! before it was read has it saved first. Only once all files and both copies of
//! the record are on the device is the record in effect.

use super::archive::{
    copy_footers, find_next_missing, next_missing, non_data_reset, reset_archived_non_data,
    same_footers,
};
use super::capture::{
    abandon_capture, acknowledged, armed_pages, blocks_after, capture_finished, capture_record,
    capture_refused, capture_reserved, capture_size, change_blocks, checkpoint_decision,
    count_capture, describes, drop_vmm_blocks, drops_vmm, file_recorded, finish_capture,
    keep_device_state, may_move, page_taken, record_file, reserve_capture, take_captured,
    CapturePlan, CaptureTally, Checkpoint, Finished, PreparedRescue, WrittenFile,
};
use super::checksum::unlisted;
use super::records::{copy_settled, growth, growth_of, settle_copy};
use super::state::{
    answer_stands, follows, follows_recording, with_scheduled, BlobLedger, Counters, HostState,
    VolumeBlob, VolumeBlobKind,
};
use super::volume::{
    copy_refs, BlockSum, CaptureKind, Drain, LoadedFooter, PageEntry, PendingSync, Rescue,
    VolumeConfig, VolumeOperations, VolumeRecord, VolumeState,
};
use crate::objects::{BlockKey, BlockSpace, BlxFooter, ObjectIdentity, ObjectRef};
use std::collections::BTreeMap;
use vstd::prelude::*;

verus! {

broadcast use vstd::std_specs::btree::group_btree_axioms;

// ---------------------------------------------------------------------------
// Forgetting archived memory
// ---------------------------------------------------------------------------

/// Footers that are being loaded so that archived memory can be forgotten. None
/// of them is kept before all of them are there.
pub struct ResetJob {
    pub incarnation: u64,
    /// The archived files, as they were when this began.
    pub objects: Vec<ObjectRef>,
    /// The footers that were known then, followed by those loaded since.
    pub footers: Vec<LoadedFooter>,
    /// The file whose footer comes next.
    pub at: usize,
}

impl ResetJob {
    pub open spec fn wf(self) -> bool {
        self.at < self.objects@.len()
    }

    /// The file whose footer comes next.
    pub open spec fn next_spec(&self) -> ObjectRef {
        self.objects@[self.at as int]
    }

    #[verifier::when_used_as_spec(next_spec)]
    pub fn next(&self) -> (object: ObjectRef)
        requires
            self.wf(),
        ensures
            object == self.next_spec(),
    {
        self.objects[self.at]
    }
}

pub enum ResetStep {
    /// Load the footer of the next file.
    Footer(ResetJob),
    /// Archived memory and device state are forgotten, or need not be.
    Ready,
    /// The volume has gone, or its archive cannot be read.
    GiveUp,
}

/// How forgetting ends once all footers are there.
pub open spec fn resets(
    before: HostState,
    after: HostState,
    volume: u64,
    incarnation: u64,
    objects: Seq<ObjectRef>,
    footers: Seq<LoadedFooter>,
    step: ResetStep,
) -> bool {
    match before.volume_at_spec(volume, incarnation) {
        None => step is GiveUp && after == before,
        Some(state) => {
            &&& step is Ready
            &&& after == (HostState { volumes: after.volumes, ..before })
            &&& after.volumes@ == before.volumes@.insert(volume, after.volumes@[volume])
            &&& non_data_reset(state, after.volumes@[volume], volume, objects, footers)
        },
    }
}

fn reset(
    host: &mut HostState,
    volume: u64,
    incarnation: u64,
    objects: &Vec<ObjectRef>,
    footers: Vec<LoadedFooter>,
) -> (step: ResetStep)
    ensures
        resets(*old(host), *final(host), volume, incarnation, objects@, footers@, step),
{
    if host.volume_at(volume, incarnation).is_none() {
        return ResetStep::GiveUp;
    }
    let ghost was = host.volumes@;
    if let Some(mut state) = host.volumes.remove(&volume) {
        reset_archived_non_data(&mut state, volume, objects, footers);
        host.volumes.insert(volume, state);
        proof {
            assert(was.remove(volume).insert(volume, state) =~= was.insert(volume, state));
        }
    }
    ResetStep::Ready
}

/// Forgets archived memory and device state before the first capture of a volume
/// that was booted anew, once the footers that describe them are loaded.
pub fn reset_archive(host: &mut HostState, volume: u64) -> (step: ResetStep)
    ensures
        if !old(host).volumes@.contains_key(volume) {
            step is GiveUp && *final(host) == *old(host)
        } else {
            let state = old(host).volumes@[volume];
            let first = next_missing(state.archive_objects@, state.archive_footers@, 0);
            if state.archived_non_data_reset {
                step is Ready && *final(host) == *old(host)
            } else if first < state.archive_objects@.len() {
                *final(host) == *old(host) && match step {
                    ResetStep::Footer(job) => {
                        &&& job.incarnation == state.incarnation
                        &&& job.objects@ == state.archive_objects@
                        &&& same_footers(job.footers@, state.archive_footers@)
                        &&& job.at == first
                    },
                    _ => false,
                }
            } else {
                resets(
                    *old(host),
                    *final(host),
                    volume,
                    state.incarnation,
                    state.archive_objects@,
                    state.archive_footers@,
                    step,
                )
            }
        },
        follows(*old(host), *final(host)),
{
    match host.volumes.get(&volume) {
        None => {
            return ResetStep::GiveUp;
        },
        Some(state) => {
            if state.archived_non_data_reset {
                return ResetStep::Ready;
            }
            let at: usize = find_next_missing(&state.archive_objects, &state.archive_footers, 0);
            if at < state.archive_objects.len() {
                let objects: Vec<ObjectRef> = copy_refs(&state.archive_objects);
                let footers: Vec<LoadedFooter> = copy_footers(&state.archive_footers);
                let incarnation: u64 = state.incarnation;
                return ResetStep::Footer(ResetJob { incarnation, objects, footers, at });
            }
        },
    }
    let ghost was = host.volumes@;
    if let Some(mut state) = host.volumes.remove(&volume) {
        let objects: Vec<ObjectRef> = copy_refs(&state.archive_objects);
        let mut footers: Vec<LoadedFooter> = Vec::new();
        footers.append(&mut state.archive_footers);
        reset_archived_non_data(&mut state, volume, &objects, footers);
        host.volumes.insert(volume, state);
        proof {
            assert(was.remove(volume).insert(volume, state) =~= was.insert(volume, state));
        }
    }
    ResetStep::Ready
}

/// What follows once a footer was loaded, or could not be. If it is not the
/// file's, the capture cannot go on, and no footer is kept.
pub fn reset_footer_loaded(
    host: &mut HostState,
    volume: u64,
    job: ResetJob,
    footer: Option<BlxFooter>,
) -> (step: ResetStep)
    requires
        job.wf(),
    ensures
        ({
            let object = job.next();
            if footer is None || !footer->0.belongs_to(object) {
                step is GiveUp && *final(host) == *old(host)
            } else {
                let footers = job.footers@.push(
                    LoadedFooter { identity: object.identity, footer: footer->0 },
                );
                let at = next_missing(job.objects@, footers, job.at + 1);
                if at < job.objects@.len() {
                    *final(host) == *old(host) && match step {
                        ResetStep::Footer(next) => next == (ResetJob {
                            footers: next.footers,
                            at: at as usize,
                            ..job
                        }) && next.footers@ == footers,
                        _ => false,
                    }
                } else {
                    resets(
                        *old(host),
                        *final(host),
                        volume,
                        job.incarnation,
                        job.objects@,
                        footers,
                        step,
                    )
                }
            }
        }),
        follows(*old(host), *final(host)),
{
    let footer: BlxFooter = match footer {
        Some(footer) => footer,
        None => {
            return ResetStep::GiveUp;
        },
    };
    let object: ObjectRef = job.next();
    if !footer.verify(&object) {
        return ResetStep::GiveUp;
    }
    let mut footers: Vec<LoadedFooter> = job.footers;
    footers.push(LoadedFooter { identity: object.identity, footer });
    assert(job.at < job.objects.len());
    let at: usize = find_next_missing(&job.objects, &footers, job.at + 1);
    if at < job.objects.len() {
        return ResetStep::Footer(
            ResetJob { incarnation: job.incarnation, objects: job.objects, footers, at },
        );
    }
    reset(host, volume, job.incarnation, &job.objects, footers)
}

// ---------------------------------------------------------------------------
// Reserving
// ---------------------------------------------------------------------------

/// A page as it was captured.
pub struct CapturedPage {
    pub page: u64,
    pub generation: u64,
    pub bytes: Vec<u8>,
}

/// A capture that is under way.
pub struct CaptureJob {
    pub volume: u64,
    pub kind: CaptureKind,
    pub checkpoint: Option<Checkpoint>,
    /// Whether all of memory is captured.
    pub complete: bool,
    pub plan: CapturePlan,
    pub pages: Vec<CapturedPage>,
}

impl CaptureJob {
    /// Whether the guest was paused for a request and is to run again once its
    /// pages are read.
    pub open spec fn resumes_spec(&self) -> bool {
        self.checkpoint is Some && self.checkpoint->0.req is Some
    }

    #[verifier::when_used_as_spec(resumes_spec)]
    pub fn resumes(&self) -> (yes: bool)
        ensures
            yes == self.resumes_spec(),
    {
        match self.checkpoint {
            Some(checkpoint) => checkpoint.req.is_some(),
            None => false,
        }
    }
}

/// What files are made of.
pub struct CaptureBatch {
    pub job: CaptureJob,
    pub pre_checksum: u64,
    pub post_checksum: u64,
    pub blocks: BTreeMap<u64, BlockSum>,
    /// Blocks of the device state that went, by key code.
    pub dropped: Vec<u64>,
}

/// Files of a capture that are being written.
pub struct FileJob {
    pub batch: CaptureBatch,
    pub files: Vec<WrittenFile>,
    /// How many have been written.
    pub done: usize,
    /// Room set aside for the next one.
    pub reserved: u64,
}

/// A record that is being written.
pub struct RecordJob {
    pub batch: CaptureBatch,
    pub files: Vec<WrittenFile>,
    pub names: Vec<ObjectIdentity>,
    pub record: VolumeRecord,
}

pub enum CaptureStep {
    /// Nothing was reserved.
    Refused,
    /// Protect the pages against writes.
    Protect(CaptureJob),
    /// Read the next page.
    Read(CaptureJob),
    /// Let the guest run again; `valid` if all pages were captured.
    Resume { paused: CaptureJob, valid: bool },
    /// Take over the pages of files that are given up.
    Rescue(CaptureJob),
    /// Sum up the pages.
    Sum(CaptureJob),
    /// Make files of the pages.
    Build(CaptureBatch),
    WriteFile(FileJob),
    WriteRecord(RecordJob),
    /// The record is in effect: tell who waits, and reclaim what is no longer
    /// needed.
    Finished { record: VolumeRecord, finished: Finished },
    /// Give the capture up.
    GiveUp,
    /// Give the capture up; the host cannot go on.
    Failed,
}

/// Whether a checkpoint has to capture all of memory: what is archived of it
/// must not be used.
pub fn captures_all(host: &HostState, volume: u64, checkpoint: Option<Checkpoint>) -> (complete:
    bool)
    ensures
        complete == (checkpoint is Some && host.volumes@.contains_key(volume)
            && !host.volumes@[volume].archived_memory_usable),
{
    match host.volumes.get(&volume) {
        Some(state) => checkpoint.is_some() && !state.archived_memory_usable,
        None => false,
    }
}

/// What follows once protection is settled: the first page, or none to read.
pub open spec fn reading_step(job: CaptureJob) -> CaptureStep {
    if job.pages@.len() < job.plan.pages@.len() {
        CaptureStep::Read(job)
    } else if job.resumes() {
        CaptureStep::Resume { paused: job, valid: true }
    } else {
        CaptureStep::Rescue(job)
    }
}

fn next_read(job: CaptureJob) -> (step: CaptureStep)
    ensures
        step == reading_step(job),
{
    if job.pages.len() < job.plan.pages.len() {
        CaptureStep::Read(job)
    } else if job.resumes() {
        CaptureStep::Resume { paused: job, valid: true }
    } else {
        CaptureStep::Rescue(job)
    }
}

/// How a capture begins.
pub open spec fn begins(
    before: HostState,
    after: HostState,
    volume: u64,
    kind: CaptureKind,
    reservation: Option<u64>,
    checkpoint: Option<Checkpoint>,
    complete: bool,
    prepared: Seq<PreparedRescue>,
    step: CaptureStep,
) -> bool {
    if !before.volumes@.contains_key(volume) || capture_refused(
        before.volumes@[volume],
        kind,
        reservation,
        prepared,
    ) {
        step is Refused && after.volumes@ == before.volumes@
    } else {
        let job = match step {
            CaptureStep::Protect(job) => job,
            CaptureStep::Read(job) => job,
            CaptureStep::Resume { paused, .. } => paused,
            CaptureStep::Rescue(job) => job,
            _ => arbitrary(),
        };
        &&& job.volume == volume
        &&& job.kind == kind
        &&& job.checkpoint == checkpoint
        &&& job.complete == complete
        &&& job.pages@ == Seq::<CapturedPage>::empty()
        &&& step == (if job.plan.protect@.len() > 0 {
            CaptureStep::Protect(job)
        } else {
            reading_step(job)
        })
        &&& after.volumes@ == before.volumes@.insert(volume, after.volumes@[volume])
        &&& capture_reserved(
            before.volumes@[volume],
            after.volumes@[volume],
            job.plan,
            kind,
            complete,
            prepared,
        )
    }
}

/// Begins a capture: for a reservation that was made before, or on its own if
/// something has changed.
pub fn begin_capture(
    host: &mut HostState,
    volume: u64,
    kind: CaptureKind,
    reservation: Option<u64>,
    checkpoint: Option<Checkpoint>,
    complete: bool,
    prepared: &Vec<PreparedRescue>,
) -> (step: CaptureStep)
    requires
        old(host).volumes@.contains_key(volume) ==> {
            let state = old(host).volumes@[volume];
            &&& state.next_seq < u64::MAX
            &&& state.next_object_id + capture_size(state, complete, prepared@) <= u64::MAX
            &&& state.next_gen + capture_size(state, complete, prepared@) <= u64::MAX
        },
    ensures
        *final(host) == (HostState { volumes: final(host).volumes, ..*old(host) }),
        begins(
            *old(host),
            *final(host),
            volume,
            kind,
            reservation,
            checkpoint,
            complete,
            prepared@,
            step,
        ),
        follows(*old(host), *final(host)),
{
    let ghost was = host.volumes@;
    let mut state: VolumeState = match host.volumes.remove(&volume) {
        Some(state) => state,
        None => {
            proof {
                assert(host.volumes@ =~= was);
            }
            return CaptureStep::Refused;
        },
    };
    let plan: Option<CapturePlan> = reserve_capture(
        &mut state,
        kind,
        reservation,
        complete,
        prepared,
    );
    host.volumes.insert(volume, state);
    proof {
        assert(was.remove(volume).insert(volume, state) =~= was.insert(volume, state));
    }
    match plan {
        None => {
            proof {
                assert(host.volumes@ =~= was);
            }
            CaptureStep::Refused
        },
        Some(plan) => {
            let protect: bool = plan.protect.len() > 0;
            let job = CaptureJob {
                volume,
                kind,
                checkpoint,
                complete,
                plan,
                pages: Vec::new(),
            };
            if protect {
                CaptureStep::Protect(job)
            } else {
                next_read(job)
            }
        },
    }
}

/// What follows once the pages are protected, or could not be.
pub fn pages_protected(job: CaptureJob, protected: bool) -> (step: CaptureStep)
    ensures
        step == (if protected {
            reading_step(job)
        } else {
            CaptureStep::Failed
        }),
{
    if protected {
        next_read(job)
    } else {
        CaptureStep::Failed
    }
}

// ---------------------------------------------------------------------------
// Reading
// ---------------------------------------------------------------------------

/// What follows a page that could not be captured. A paused guest runs again
/// first.
pub open spec fn broken_step(job: CaptureJob) -> CaptureStep {
    if job.resumes() {
        CaptureStep::Resume { paused: job, valid: false }
    } else {
        CaptureStep::GiveUp
    }
}

/// How a capture goes on with a page that was read.
pub open spec fn reads(
    before: HostState,
    after: HostState,
    job: CaptureJob,
    observed: Vec<u8>,
    step: CaptureStep,
) -> bool {
    let page = job.plan.pages@[job.pages@.len() as int];
    if before.volume_at_spec(job.volume, job.plan.incarnation) is None {
        step == broken_step(job) && after.volumes@ == before.volumes@
    } else {
        exists|captured: Option<(u64, Vec<u8>)>|
            {
                &&& after.volumes@ == before.volumes@.insert(job.volume, after.volumes@[job.volume])
                &&& #[trigger] page_taken(
                    before.volumes@[job.volume],
                    after.volumes@[job.volume],
                    page,
                    observed,
                    captured,
                )
                &&& match captured {
                    None => step == broken_step(job),
                    Some(taken) => {
                        let next = match step {
                            CaptureStep::Read(next) => next,
                            CaptureStep::Resume { paused, .. } => paused,
                            CaptureStep::Rescue(next) => next,
                            _ => arbitrary(),
                        };
                        &&& next == (CaptureJob { pages: next.pages, ..job })
                        &&& next.pages@ == job.pages@.push(
                            CapturedPage { page, generation: taken.0, bytes: taken.1 },
                        )
                        &&& step == reading_step(next)
                    },
                }
            }
    }
}

/// Takes a page that was read into the capture.
pub fn page_read(host: &mut HostState, job: CaptureJob, observed: Vec<u8>) -> (step: CaptureStep)
    requires
        job.pages@.len() < job.plan.pages@.len(),
    ensures
        *final(host) == (HostState { volumes: final(host).volumes, ..*old(host) }),
        reads(*old(host), *final(host), job, observed, step),
        follows(*old(host), *final(host)),
{
    let ghost seen = observed;
    let page: u64 = job.plan.pages[job.pages.len()];
    let volume: u64 = job.volume;
    let mut captured: Option<(u64, Vec<u8>)> = None;
    if host.volume_at(volume, job.plan.incarnation).is_some() {
        let ghost was = host.volumes@;
        if let Some(mut state) = host.volumes.remove(&volume) {
            captured = take_captured(&mut state, page, observed);
            host.volumes.insert(volume, state);
            proof {
                assert(was.remove(volume).insert(volume, state) =~= was.insert(volume, state));
            }
        }
    }
    let ghost got = captured;
    proof {
        if old(host).volume_at_spec(volume, job.plan.incarnation) is Some {
            assert(page_taken(old(host).volumes@[volume], host.volumes@[volume], page, seen, got));
        }
    }
    match captured {
        None => if job.resumes() {
            CaptureStep::Resume { paused: job, valid: false }
        } else {
            CaptureStep::GiveUp
        },
        Some(taken) => {
            let mut pages: Vec<CapturedPage> = job.pages;
            pages.push(CapturedPage { page, generation: taken.0, bytes: taken.1 });
            next_read(
                CaptureJob {
                    volume,
                    kind: job.kind,
                    checkpoint: job.checkpoint,
                    complete: job.complete,
                    plan: job.plan,
                    pages,
                },
            )
        },
    }
}

/// What follows once the guest runs again, or could not be resumed.
pub fn guest_resumed(job: CaptureJob, valid: bool, resumed: bool) -> (step: CaptureStep)
    ensures
        step == (if resumed && valid {
            CaptureStep::Rescue(job)
        } else {
            CaptureStep::GiveUp
        }),
{
    if resumed && valid {
        CaptureStep::Rescue(job)
    } else {
        CaptureStep::GiveUp
    }
}

// ---------------------------------------------------------------------------
// Summing up
// ---------------------------------------------------------------------------

/// The rescued pages, as captured.
pub open spec fn are_rescued(pages: Seq<CapturedPage>, rescues: Seq<Rescue>) -> bool {
    &&& pages.len() == rescues.len()
    &&& forall|i: int|
        0 <= i < pages.len() ==> (#[trigger] pages[i]) == (CapturedPage {
            page: rescues[i].page,
            generation: rescues[i].generation,
            bytes: rescues[i].bytes,
        })
}

fn as_captured(rescues: Vec<Rescue>, pages: &mut Vec<CapturedPage>)
    ensures
        final(pages)@.len() == old(pages)@.len() + rescues@.len(),
        final(pages)@.take(old(pages)@.len() as int) == old(pages)@,
        are_rescued(final(pages)@.skip(old(pages)@.len() as int), rescues@),
{
    let ghost start = pages@;
    let ghost all = rescues@;
    let mut rest: Vec<Rescue> = rescues;
    let mut reversed: Vec<Rescue> = Vec::new();
    while rest.len() > 0
        invariant
            rest@.len() + reversed@.len() == all.len(),
            rest@ == all.take(rest@.len() as int),
            forall|i: int| 0 <= i < reversed@.len() ==> reversed@[i] == all[all.len() - 1 - i],
        decreases rest@.len(),
    {
        let ghost count = rest@.len();
        if let Some(rescue) = rest.pop() {
            reversed.push(rescue);
        }
    }
    while reversed.len() > 0
        invariant
            reversed@.len() + pages@.len() == start.len() + all.len(),
            start.len() <= pages@.len(),
            pages@.take(start.len() as int) == start,
            forall|i: int| 0 <= i < reversed@.len() ==> reversed@[i] == all[all.len() - 1 - i],
            forall|i: int|
                0 <= i < pages@.len() - start.len() ==> (#[trigger] pages@.skip(
                    start.len() as int,
                )[i]) == (CapturedPage {
                    page: all[i].page,
                    generation: all[i].generation,
                    bytes: all[i].bytes,
                }),
        decreases reversed@.len(),
    {
        if let Some(rescue) = reversed.pop() {
            let ghost had = pages@;
            pages.push(
                CapturedPage {
                    page: rescue.page,
                    generation: rescue.generation,
                    bytes: rescue.bytes,
                },
            );
            proof {
                assert(pages@.skip(start.len() as int) =~= had.skip(start.len() as int).push(
                    pages@.last(),
                ));
            }
        }
    }
}

/// `after` is `before` with the rescued pages handed out.
pub open spec fn rescues_taken(before: VolumeState, after: VolumeState) -> bool {
    &&& after == (VolumeState {
        operations: VolumeOperations { drain: after.operations.drain, ..before.operations },
        ..before
    })
    &&& before.operations.drain matches Some(drain) && after.operations.drain matches Some(
        left,
    ) && left == (Drain { rescues: left.rescues, ..drain }) && left.rescues@
        == Seq::<Rescue>::empty()
}

/// Adds the pages of files that are given up to the capture.
pub fn take_rescues(host: &mut HostState, job: CaptureJob) -> (step: CaptureStep)
    ensures
        match old(host).volume_at_spec(job.volume, job.plan.incarnation) {
            Some(state) if state.operations.drain is Some => {
                &&& *final(host) == (HostState { volumes: final(host).volumes, ..*old(host) })
                &&& final(host).volumes@ == old(host).volumes@.insert(
                    job.volume,
                    final(host).volumes@[job.volume],
                )
                &&& rescues_taken(state, final(host).volumes@[job.volume])
                &&& match step {
                    CaptureStep::Sum(next) => {
                        &&& next == (CaptureJob { pages: next.pages, ..job })
                        &&& next.pages@.len() == job.pages@.len()
                            + state.operations.drain->0.rescues@.len()
                        &&& next.pages@.take(job.pages@.len() as int) == job.pages@
                        &&& are_rescued(
                            next.pages@.skip(job.pages@.len() as int),
                            state.operations.drain->0.rescues@,
                        )
                    },
                    _ => false,
                }
            },
            _ => step is GiveUp && *final(host) == *old(host),
        },
        follows(*old(host), *final(host)),
{
    let volume: u64 = job.volume;
    let draining: bool = match host.volume_at(volume, job.plan.incarnation) {
        Some(state) => state.operations.drain.is_some(),
        None => false,
    };
    if !draining {
        return CaptureStep::GiveUp;
    }
    let ghost was = host.volumes@;
    let mut rescues: Vec<Rescue> = Vec::new();
    if let Some(mut state) = host.volumes.remove(&volume) {
        if let Some(mut drain) = state.operations.drain.take() {
            let mut taken: Vec<Rescue> = Vec::new();
            taken.append(&mut drain.rescues);
            proof {
                assert(taken@ =~= was[volume].operations.drain->0.rescues@);
            }
            rescues = taken;
            state.operations.drain = Some(drain);
        }
        host.volumes.insert(volume, state);
        proof {
            assert(was.remove(volume).insert(volume, state) =~= was.insert(volume, state));
        }
    }
    let mut pages: Vec<CapturedPage> = job.pages;
    as_captured(rescues, &mut pages);
    CaptureStep::Sum(
        CaptureJob {
            volume,
            kind: job.kind,
            checkpoint: job.checkpoint,
            complete: job.complete,
            plan: job.plan,
            pages,
        },
    )
}

/// What the captured pages change.
pub open spec fn page_changes(
    config: VolumeConfig,
    pages: Seq<CapturedPage>,
    sums: Seq<u64>,
) -> Seq<(u64, Option<BlockSum>)> {
    Seq::new(
        pages.len(),
        |i: int|
            (
                config.key(pages[i].page as u32).code(),
                Some(BlockSum { generation: pages[i].generation, contribution: sums[i] }),
            ),
    )
}

/// What the device state of a checkpoint changes: its blocks are numbered from
/// zero, under the number of the record.
pub open spec fn device_changes(seq: u64, sums: Seq<u64>) -> Seq<(u64, Option<BlockSum>)> {
    Seq::new(
        sums.len(),
        |i: int|
            (
                BlockKey { space: BlockSpace::Vmm, block: i as u32 }.code(),
                Some(BlockSum { generation: seq, contribution: sums[i] }),
            ),
    )
}

/// Blocks of an earlier device state that the new one does not have.
pub open spec fn dropped_blocks(drops: Seq<(u64, Option<BlockSum>)>, count: nat) -> Seq<u64> {
    drops.map_values(|d: (u64, Option<BlockSum>)| d.0).filter(
        |code: u64| code >= 0x2_0000_0000 + count,
    )
}

fn find_dropped(drops: &Vec<(u64, Option<BlockSum>)>, count: usize) -> (dropped: Vec<u64>)
    ensures
        dropped@ == dropped_blocks(drops@, count as nat),
{
    let mut dropped: Vec<u64> = Vec::new();
    let mut i: usize = 0;
    let ghost codes = drops@.map_values(|d: (u64, Option<BlockSum>)| d.0);
    let ghost left = |code: u64| code >= 0x2_0000_0000 + count;
    proof {
        reveal(Seq::filter);
    }
    while i < drops.len()
        invariant
            i <= drops@.len(),
            codes == drops@.map_values(|d: (u64, Option<BlockSum>)| d.0),
            left == (|code: u64| code >= 0x2_0000_0000 + count),
            dropped@ == codes.take(i as int).filter(left),
        decreases drops@.len() - i,
    {
        proof {
            reveal(Seq::filter);
            assert(codes.take(i + 1).drop_last() =~= codes.take(i as int));
        }
        let code: u64 = drops[i].0;
        if code >= 0x2_0000_0000 && code - 0x2_0000_0000 >= count as u64 {
            dropped.push(code);
        }
        i = i + 1;
    }
    proof {
        assert(codes.take(i as int) =~= codes);
    }
    dropped
}

/// The batch holds what the capture makes of the volume.
pub open spec fn sums_up(
    state: VolumeState,
    job: CaptureJob,
    sums: Seq<u64>,
    device: Seq<u64>,
    batch: CaptureBatch,
) -> bool {
    &&& batch.job == job
    &&& batch.pre_checksum == state.state_checksum
    &&& unlisted(batch.post_checksum, batch.blocks@) == unlisted(
        state.state_checksum,
        state.blocks@,
    )
    &&& if job.checkpoint is Some {
        exists|drops: Seq<(u64, Option<BlockSum>)>|
            {
                &&& #[trigger] drops_vmm(drops, state.blocks@)
                &&& batch.blocks@ == blocks_after(
                    state.blocks@,
                    page_changes(state.config, job.pages@, sums) + drops + device_changes(
                        job.plan.seq,
                        device,
                    ),
                )
                &&& batch.dropped@ == dropped_blocks(drops, device.len())
            }
    } else {
        &&& batch.blocks@ == blocks_after(
            state.blocks@,
            page_changes(state.config, job.pages@, sums),
        )
        &&& batch.dropped@ == Seq::<u64>::empty()
    }
}

fn list_page_changes(config: VolumeConfig, pages: &Vec<CapturedPage>, sums: &Vec<u64>) -> (changes:
    Vec<(u64, Option<BlockSum>)>)
    requires
        sums@.len() == pages@.len(),
    ensures
        changes@ == page_changes(config, pages@, sums@),
{
    let mut changes: Vec<(u64, Option<BlockSum>)> = Vec::new();
    let mut i: usize = 0;
    while i < pages.len()
        invariant
            i <= pages@.len(),
            sums@.len() == pages@.len(),
            changes@.len() == i,
            forall|a: int|
                0 <= a < i ==> #[trigger] changes@[a] == page_changes(config, pages@, sums@)[a],
        decreases pages@.len() - i,
    {
        changes.push(
            (
                config.key(pages[i].page as u32).code(),
                Some(BlockSum { generation: pages[i].generation, contribution: sums[i] }),
            ),
        );
        i = i + 1;
    }
    changes
}

fn list_device_changes(seq: u64, sums: &Vec<u64>) -> (changes: Vec<(u64, Option<BlockSum>)>)
    ensures
        changes@ == device_changes(seq, sums@),
{
    let mut changes: Vec<(u64, Option<BlockSum>)> = Vec::new();
    let mut i: usize = 0;
    while i < sums.len()
        invariant
            i <= sums@.len(),
            changes@.len() == i,
            forall|a: int| 0 <= a < i ==> #[trigger] changes@[a] == device_changes(seq, sums@)[a],
        decreases sums@.len() - i,
    {
        changes.push(
            (
                BlockKey { space: BlockSpace::Vmm, block: i as u32 }.code(),
                Some(BlockSum { generation: seq, contribution: sums[i] }),
            ),
        );
        i = i + 1;
    }
    changes
}

/// Sums the capture up. `sums` are the contributions of the pages, `device` those
/// of the device state of a checkpoint, block by block.
pub fn pages_summed(host: &HostState, job: CaptureJob, sums: &Vec<u64>, device: &Vec<u64>) -> (step:
    CaptureStep)
    requires
        sums@.len() == job.pages@.len(),
    ensures
        if host.volumes@.contains_key(job.volume) {
            match step {
                CaptureStep::Build(batch) => sums_up(
                    host.volumes@[job.volume],
                    job,
                    sums@,
                    device@,
                    batch,
                ),
                _ => false,
            }
        } else {
            step is GiveUp
        },
{
    let state: &VolumeState = match host.volumes.get(&job.volume) {
        Some(state) => state,
        None => {
            return CaptureStep::GiveUp;
        },
    };
    let mut changes: Vec<(u64, Option<BlockSum>)> = list_page_changes(
        state.config,
        &job.pages,
        sums,
    );
    let mut dropped: Vec<u64> = Vec::new();
    if job.checkpoint.is_some() {
        let mut drops: Vec<(u64, Option<BlockSum>)> = drop_vmm_blocks(&state.blocks);
        dropped = find_dropped(&drops, device.len());
        let ghost gone = drops@;
        let mut added: Vec<(u64, Option<BlockSum>)> = list_device_changes(job.plan.seq, device);
        changes.append(&mut drops);
        changes.append(&mut added);
        proof {
            assert(changes@ =~= page_changes(state.config, job.pages@, sums@) + gone
                + device_changes(job.plan.seq, device@));
            assert(drops_vmm(gone, state.blocks@));
        }
    }
    let (post_checksum, blocks) = change_blocks(state.state_checksum, &state.blocks, &changes);
    CaptureStep::Build(
        CaptureBatch { job, pre_checksum: state.state_checksum, post_checksum, blocks, dropped },
    )
}

// ---------------------------------------------------------------------------
// Files
// ---------------------------------------------------------------------------

pub open spec fn file_name(volume: u64, fence: u64, object: u64) -> VolumeBlob {
    VolumeBlob { volume, fence, kind: VolumeBlobKind::File, number: object }
}

/// The names of the files of a capture.
pub open spec fn names_of(volume: u64, fence: u64, files: Seq<WrittenFile>) -> Seq<ObjectIdentity> {
    files.map_values(|f: WrittenFile| ObjectIdentity::volume(volume, fence, f.object))
}

fn list_names(volume: u64, fence: u64, files: &Vec<WrittenFile>) -> (names: Vec<ObjectIdentity>)
    ensures
        names@ == names_of(volume, fence, files@),
{
    let mut names: Vec<ObjectIdentity> = Vec::new();
    let mut i: usize = 0;
    while i < files.len()
        invariant
            i <= files@.len(),
            names@ == names_of(volume, fence, files@.take(i as int)),
        decreases files@.len() - i,
    {
        names.push(ObjectIdentity::volume(volume, fence, files[i].object));
        i = i + 1;
    }
    names
}

/// How a capture goes on with its next file, or with its record once all files
/// are written.
pub open spec fn goes_on_writing(
    before: HostState,
    after: HostState,
    batch: CaptureBatch,
    files: Vec<WrittenFile>,
    done: int,
    step: CaptureStep,
) -> bool {
    let job = batch.job;
    if done < files@.len() {
        let name = file_name(job.volume, job.plan.fence, files@[done].object);
        let more = growth(before.blobs@, name, files@[done].bytes);
        if before.ledger.fits(more as int) && before.ledger.reserved + more <= u64::MAX {
            &&& step == CaptureStep::WriteFile(
                FileJob { batch, files, done: done as usize, reserved: more },
            )
            &&& after == (HostState {
                ledger: BlobLedger {
                    reserved: (before.ledger.reserved + more) as u64,
                    ..before.ledger
                },
                ..before
            })
        } else {
            step is GiveUp && after == before
        }
    } else {
        records_state(before, after, batch, files, step)
    }
}

/// How a capture goes on with its record. A checkpoint's record needs the files
/// of its device state.
pub open spec fn records_state(
    before: HostState,
    after: HostState,
    batch: CaptureBatch,
    files: Vec<WrittenFile>,
    step: CaptureStep,
) -> bool {
    let job = batch.job;
    let names = names_of(job.volume, job.plan.fence, files@);
    match before.volume_at_spec(job.volume, job.plan.incarnation) {
        None => step is GiveUp && after == before,
        Some(state) => {
            let now = after.volumes@[job.volume];
            &&& after == (HostState { volumes: after.volumes, ..before })
            &&& after.volumes@ == before.volumes@.insert(job.volume, now)
            &&& now == (VolumeState { vmm_files: now.vmm_files, ..state })
            &&& now.vmm_files@ == (if job.checkpoint is Some {
                names
            } else {
                state.vmm_files@
            })
            &&& match step {
                CaptureStep::WriteRecord(next) => {
                    &&& next.batch == batch
                    &&& next.files == files
                    &&& next.names@ == names
                    &&& describes(
                        next.record,
                        now,
                        job.volume,
                        job.plan,
                        job.kind,
                        job.checkpoint,
                        batch.post_checksum,
                    )
                },
                _ => false,
            }
        },
    }
}

fn make_record(host: &mut HostState, batch: CaptureBatch, files: Vec<WrittenFile>) -> (step:
    CaptureStep)
    ensures
        records_state(*old(host), *final(host), batch, files, step),
{
    let volume: u64 = batch.job.volume;
    if host.volume_at(volume, batch.job.plan.incarnation).is_none() {
        return CaptureStep::GiveUp;
    }
    let names: Vec<ObjectIdentity> = list_names(volume, batch.job.plan.fence, &files);
    let ghost was = host.volumes@;
    match host.volumes.remove(&volume) {
        None => CaptureStep::GiveUp,
        Some(mut state) => {
            if batch.job.checkpoint.is_some() {
                keep_device_state(&mut state, &names);
            }
            let record: VolumeRecord = capture_record(
                &state,
                volume,
                &batch.job.plan,
                batch.job.kind,
                batch.job.checkpoint,
                batch.post_checksum,
            );
            host.volumes.insert(volume, state);
            proof {
                assert(was.remove(volume).insert(volume, state) =~= was.insert(volume, state));
            }
            CaptureStep::WriteRecord(RecordJob { batch, files, names, record })
        },
    }
}

fn go_on_writing(host: &mut HostState, batch: CaptureBatch, files: Vec<WrittenFile>, done: usize) -> (
step: CaptureStep)
    requires
        done <= files@.len(),
    ensures
        goes_on_writing(*old(host), *final(host), batch, files, done as int, step),
{
    if done >= files.len() {
        return make_record(host, batch, files);
    }
    let name = VolumeBlob {
        volume: batch.job.volume,
        fence: batch.job.plan.fence,
        kind: VolumeBlobKind::File,
        number: files[done].object,
    };
    let more: u64 = growth_of(&host.blobs, name, files[done].bytes);
    if !host.ledger.try_reserve(more) {
        return CaptureStep::GiveUp;
    }
    CaptureStep::WriteFile(FileJob { batch, files, done, reserved: more })
}

/// What follows once the files are made. Room is set aside for the first.
pub fn files_built(host: &mut HostState, batch: CaptureBatch, files: Vec<WrittenFile>) -> (step:
    CaptureStep)
    ensures
        goes_on_writing(*old(host), *final(host), batch, files, 0, step),
        follows(*old(host), *final(host)),
{
    go_on_writing(host, batch, files, 0)
}

/// `after` is `before` with the file on the device.
pub open spec fn file_stored(before: HostState, after: HostState, job: FileJob) -> bool {
    let file = job.files@[job.done as int];
    copy_settled(
        before,
        after,
        file_name(job.batch.job.volume, job.batch.job.plan.fence, file.object),
        file.bytes,
        job.reserved,
        true,
    )
}

/// `after` is `before` with the file taken into account.
pub open spec fn file_counted(before: HostState, after: HostState, job: FileJob) -> bool {
    let volume = job.batch.job.volume;
    &&& after == (HostState { volumes: after.volumes, ..before })
    &&& after.volumes@ == before.volumes@.insert(volume, after.volumes@[volume])
    &&& file_recorded(
        before.volumes@[volume],
        after.volumes@[volume],
        volume,
        job.batch.job.plan,
        job.files@[job.done as int],
        job.batch.post_checksum,
        job.batch.blocks@,
    )
}

/// What follows once a file was written, or could not be.
pub fn file_written(host: &mut HostState, job: FileJob, written: bool) -> (step: CaptureStep)
    requires
        job.done < job.files@.len(),
        old(host).ledger.used + job.files@[job.done as int].bytes <= u64::MAX,
        old(host).volumes@.contains_key(job.batch.job.volume) ==> old(
            host,
        ).volumes@[job.batch.job.volume].wf(),
    ensures
        if !written {
            step is Failed && *final(host) == *old(host)
        } else {
            exists|stored: HostState| #[trigger]
                file_stored(*old(host), stored, job) && if old(host).volume_at_spec(
                    job.batch.job.volume,
                    job.batch.job.plan.incarnation,
                ) is None {
                    step is GiveUp && *final(host) == stored
                } else {
                    exists|counted: HostState| #[trigger]
                        file_counted(stored, counted, job) && goes_on_writing(
                            counted,
                            *final(host),
                            job.batch,
                            job.files,
                            job.done + 1,
                            step,
                        )
                }
        },
        follows(*old(host), *final(host)),
{
    if !written {
        return CaptureStep::Failed;
    }
    let volume: u64 = job.batch.job.volume;
    let count: usize = job.files.len();
    let name = VolumeBlob {
        volume,
        fence: job.batch.job.plan.fence,
        kind: VolumeBlobKind::File,
        number: job.files[job.done].object,
    };
    settle_copy(host, name, job.files[job.done].bytes, job.reserved, true);
    let ghost stored = *host;
    proof {
        assert(file_stored(*old(host), stored, job));
    }
    if host.volume_at(volume, job.batch.job.plan.incarnation).is_none() {
        return CaptureStep::GiveUp;
    }
    if let Some(mut state) = host.volumes.remove(&volume) {
        record_file(
            &mut state,
            volume,
            &job.batch.job.plan,
            &job.files[job.done],
            job.batch.post_checksum,
            &job.batch.blocks,
        );
        host.volumes.insert(volume, state);
        proof {
            assert(stored.volumes@.remove(volume).insert(volume, state)
                =~= stored.volumes@.insert(volume, state));
        }
    }
    proof {
        assert(file_counted(stored, *host, job));
    }
    let done: usize = job.done + 1;
    go_on_writing(host, job.batch, job.files, done)
}

// ---------------------------------------------------------------------------
// The record
// ---------------------------------------------------------------------------

/// Pages in the files that were not flushed: those taken over.
pub open spec fn taken_over(entries: Seq<(u64, PageEntry)>, flushed: Seq<u64>) -> nat
    decreases entries.len(),
{
    if entries.len() == 0 {
        0
    } else {
        taken_over(entries.drop_last(), flushed) + if flushed.contains(entries.last().0) {
            0nat
        } else {
            1nat
        }
    }
}

pub open spec fn all_taken_over(files: Seq<WrittenFile>, flushed: Seq<u64>) -> nat
    decreases files.len(),
{
    if files.len() == 0 {
        0
    } else {
        all_taken_over(files.drop_last(), flushed) + taken_over(
            files.last().entries@,
            flushed,
        )
    }
}

fn is_flushed(flushed: &Vec<u64>, page: u64) -> (found: bool)
    ensures
        found == flushed@.contains(page),
{
    let mut i: usize = 0;
    while i < flushed.len()
        invariant
            i <= flushed@.len(),
            forall|a: int| 0 <= a < i ==> flushed@[a] != page,
        decreases flushed@.len() - i,
    {
        if flushed[i] == page {
            return true;
        }
        i = i + 1;
    }
    false
}

proof fn lemma_taken_over_prefix(entries: Seq<(u64, PageEntry)>, flushed: Seq<u64>, n: int)
    requires
        0 <= n <= entries.len(),
    ensures
        taken_over(entries.take(n), flushed) <= taken_over(entries, flushed),
    decreases entries.len() - n,
{
    if n < entries.len() {
        assert(entries.take(n + 1).drop_last() =~= entries.take(n));
        lemma_taken_over_prefix(entries, flushed, n + 1);
    } else {
        assert(entries.take(n) =~= entries);
    }
}

proof fn lemma_all_taken_over_prefix(files: Seq<WrittenFile>, flushed: Seq<u64>, n: int)
    requires
        0 <= n <= files.len(),
    ensures
        all_taken_over(files.take(n), flushed) <= all_taken_over(files, flushed),
    decreases files.len() - n,
{
    if n < files.len() {
        assert(files.take(n + 1).drop_last() =~= files.take(n));
        lemma_all_taken_over_prefix(files, flushed, n + 1);
    } else {
        assert(files.take(n) =~= files);
    }
}

fn count_entries(entries: &Vec<(u64, PageEntry)>, flushed: &Vec<u64>, start: usize) -> (count: usize)
    requires
        start + taken_over(entries@, flushed@) <= usize::MAX,
    ensures
        count == start + taken_over(entries@, flushed@),
{
    let mut count: usize = start;
    let mut i: usize = 0;
    while i < entries.len()
        invariant
            i <= entries@.len(),
            start + taken_over(entries@, flushed@) <= usize::MAX,
            count == start + taken_over(entries@.take(i as int), flushed@),
        decreases entries@.len() - i,
    {
        proof {
            assert(entries@.take(i + 1).drop_last() =~= entries@.take(i as int));
            lemma_taken_over_prefix(entries@, flushed@, i + 1);
        }
        if !is_flushed(flushed, entries[i].0) {
            count = count + 1;
        }
        i = i + 1;
    }
    proof {
        assert(entries@.take(i as int) =~= entries@);
    }
    count
}

fn count_taken_over(files: &Vec<WrittenFile>, flushed: &Vec<u64>) -> (count: usize)
    requires
        all_taken_over(files@, flushed@) <= usize::MAX,
    ensures
        count == all_taken_over(files@, flushed@),
{
    let mut count: usize = 0;
    let mut i: usize = 0;
    while i < files.len()
        invariant
            i <= files@.len(),
            all_taken_over(files@, flushed@) <= usize::MAX,
            count == all_taken_over(files@.take(i as int), flushed@),
        decreases files@.len() - i,
    {
        proof {
            assert(files@.take(i + 1).drop_last() =~= files@.take(i as int));
            lemma_all_taken_over_prefix(files@, flushed@, i + 1);
        }
        count = count_entries(&files[i].entries, flushed, count);
        i = i + 1;
    }
    proof {
        assert(files@.take(i as int) =~= files@);
    }
    count
}

/// The counters can take what the capture moved.
pub open spec fn can_count(host: HostState, job: RecordJob) -> bool {
    let plan = job.batch.job.plan;
    let moved = all_taken_over(job.files@, plan.flushed@);
    &&& moved <= usize::MAX
    &&& host.counters.room(1)
    &&& host.counters.room(moved as int)
    &&& host.counters.room(plan.pages@.len() as int)
    &&& host.counters.room(plan.victims@.len() as int)
    &&& host.volumes@.contains_key(job.batch.job.volume) ==> host.counters.room(
        host.volumes@[job.batch.job.volume].pending_syncs@.len() as int,
    )
}

/// `after` counts the capture.
pub open spec fn counted(before: Counters, job: RecordJob, syncs: nat) -> Counters {
    let plan = job.batch.job.plan;
    Counters {
        records_written: (before.records_written + 1) as u64,
        pages_flushed: (before.pages_flushed + plan.pages@.len()) as u64,
        files_compacted: (before.files_compacted + plan.victims@.len()) as u64,
        pages_compacted: (before.pages_compacted + all_taken_over(
            job.files@,
            plan.flushed@,
        )) as u64,
        syncs_acked: (before.syncs_acked + syncs) as u64,
        checkpoints_done: (before.checkpoints_done + if job.batch.job.checkpoint is Some {
            1int
        } else {
            0
        }) as u64,
        ..before
    }
}

/// The request that a capture answers, with its volume.
pub open spec fn recorded_by(job: RecordJob) -> Option<(u64, u64)> {
    match job.batch.job.checkpoint {
        Some(Checkpoint { req: Some(req), .. }) => Some((job.batch.job.volume, req)),
        _ => None,
    }
}

/// What follows once both copies of the record were written, or could not be.
/// Then the record is in effect.
pub fn record_written(host: &mut HostState, job: RecordJob, written: bool) -> (step: CaptureStep)
    requires
        can_count(*old(host), job),
    ensures
        if !written {
            step is Failed && *final(host) == *old(host)
        } else {
            let capture = job.batch.job;
            match old(host).volume_at_spec(capture.volume, capture.plan.incarnation) {
                None => step is GiveUp && *final(host) == *old(host),
                Some(state) => {
                    let syncs = acknowledged(state.pending_syncs@, state.sync_ack_through);
                    &&& *final(host) == (HostState {
                        volumes: final(host).volumes,
                        counters: counted(old(host).counters, job, syncs.len()),
                        ..*old(host)
                    })
                    &&& final(host).volumes@ == old(host).volumes@.insert(
                        capture.volume,
                        final(host).volumes@[capture.volume],
                    )
                    &&& capture_finished(
                        state,
                        final(host).volumes@[capture.volume],
                        capture.plan,
                        capture.kind,
                        capture.checkpoint,
                        job.record,
                        job.names@,
                        capture.complete,
                    )
                    &&& match step {
                        CaptureStep::Finished { record, finished } => {
                            &&& record == job.record
                            &&& finished.syncs@ == syncs
                            &&& finished.waiters@ == state.mutation_waiters@
                        },
                        _ => false,
                    }
                },
            }
        },
        follows_recording(*old(host), *final(host), recorded_by(job)),
        // A request that is answered for the first time, as one is that was
        // reserved, takes no answer back.
        (match job.batch.job.checkpoint {
            Some(Checkpoint { req: Some(req), epoch, .. }) => answer_stands(
                *old(host),
                job.batch.job.volume,
                req,
                epoch,
            ),
            _ => true,
        }) ==> follows(*old(host), *final(host)),
{
    if !written {
        return CaptureStep::Failed;
    }
    let volume: u64 = job.batch.job.volume;
    if host.volume_at(volume, job.batch.job.plan.incarnation).is_none() {
        return CaptureStep::GiveUp;
    }
    let ghost was = host.volumes@;
    match host.volumes.remove(&volume) {
        None => CaptureStep::GiveUp,
        Some(mut state) => {
            proof {
                lemma_acknowledged_len(state.pending_syncs@, state.sync_ack_through);
            }
            let finished: Finished = finish_capture(
                &mut state,
                &job.batch.job.plan,
                job.batch.job.kind,
                job.batch.job.checkpoint,
                &job.record,
                &job.names,
                job.batch.job.complete,
            );
            host.volumes.insert(volume, state);
            proof {
                assert(was.remove(volume).insert(volume, state) =~= was.insert(volume, state));
            }
            let rescued_pages: usize = count_taken_over(&job.files, &job.batch.job.plan.flushed);
            count_capture(
                &mut host.counters,
                CaptureTally {
                    pages: job.batch.job.plan.pages.len(),
                    victims: job.batch.job.plan.victims.len(),
                    rescued_pages,
                    syncs: finished.syncs.len(),
                    checkpoint: job.batch.job.checkpoint.is_some(),
                },
            );
            CaptureStep::Finished { record: job.record, finished }
        },
    }
}

proof fn lemma_acknowledged_len(syncs: Seq<PendingSync>, ack: u64)
    ensures
        acknowledged(syncs, ack).len() <= syncs.len(),
    decreases syncs.len(),
{
    reveal(Seq::filter);
    if syncs.len() > 0 {
        lemma_acknowledged_len(syncs.drop_last(), ack);
    }
}

// ---------------------------------------------------------------------------
// Giving up
// ---------------------------------------------------------------------------

/// `after` is `before` with the capture given up. Its pages are still protected,
/// and the right to change the volume is still taken.
pub open spec fn capture_given_up(
    before: HostState,
    after: HostState,
    volume: u64,
    incarnation: u64,
    armed: Seq<u64>,
) -> bool {
    match before.volume_at_spec(volume, incarnation) {
        None => armed == Seq::<u64>::empty() && after == before,
        Some(state) => {
            &&& armed == armed_pages(state)
            &&& after == (HostState { volumes: after.volumes, ..before })
            &&& after.volumes@ == before.volumes@.insert(
                volume,
                VolumeState {
                    operations: VolumeOperations { drain: None, ..state.operations },
                    ..state
                },
            )
        },
    }
}

/// Gives a capture up: the pages to be unprotected. Until they are, the volume
/// stays as it is for everyone else; then the capture is released.
pub fn give_up_capture(host: &mut HostState, volume: u64, incarnation: u64) -> (armed: Vec<u64>)
    ensures
        capture_given_up(*old(host), *final(host), volume, incarnation, armed@),
        follows(*old(host), *final(host)),
{
    let mut armed: Vec<u64> = Vec::new();
    if host.volume_at(volume, incarnation).is_none() {
        return armed;
    }
    let ghost was = host.volumes@;
    if let Some(mut state) = host.volumes.remove(&volume) {
        armed = abandon_capture(&mut state);
        host.volumes.insert(volume, state);
        proof {
            assert(was.remove(volume).insert(volume, state) =~= was.insert(volume, state));
        }
    }
    armed
}

/// `after` is `before` with the right to change the volume given back.
pub open spec fn slot_released(
    before: HostState,
    after: HostState,
    volume: u64,
    incarnation: u64,
    kind: CaptureKind,
    waiters: Seq<u64>,
) -> bool {
    match before.volume_at_spec(volume, incarnation) {
        None => waiters == Seq::<u64>::empty() && after == before,
        Some(state) => {
            let now = after.volumes@[volume];
            &&& waiters == state.mutation_waiters@
            &&& after == (HostState {
                volumes: after.volumes,
                scheduled: after.scheduled,
                ..before
            })
            &&& after.scheduled@ == with_scheduled(before.scheduled@, volume)
            &&& after.volumes@ == before.volumes@.insert(volume, now)
            &&& now == (VolumeState {
                operations: VolumeOperations {
                    mutation: (if state.operations.mutation == Some(kind) {
                        None
                    } else {
                        state.operations.mutation
                    }),
                    ..state.operations
                },
                mutation_waiters: now.mutation_waiters,
                ..state
            })
            &&& now.mutation_waiters@ == Seq::<u64>::empty()
        },
    }
}

/// Releases a capture that was given up, once none of its pages is protected any
/// more: who waited for the volume is told, and the volume is looked at again.
pub fn capture_released(host: &mut HostState, volume: u64, incarnation: u64, kind: CaptureKind) -> (
waiters: Vec<u64>)
    ensures
        slot_released(*old(host), *final(host), volume, incarnation, kind, waiters@),
        follows(*old(host), *final(host)),
{
    let mut waiters: Vec<u64> = Vec::new();
    if host.volume_at(volume, incarnation).is_none() {
        return waiters;
    }
    let ghost was = host.volumes@;
    if let Some(mut state) = host.volumes.remove(&volume) {
        if let Some(owner) = state.operations.mutation {
            if owner == kind {
                state.operations.mutation = None;
            }
        }
        waiters.append(&mut state.mutation_waiters);
        host.volumes.insert(volume, state);
        proof {
            assert(was.remove(volume).insert(volume, state) =~= was.insert(volume, state));
        }
    }
    host.schedule_volume(volume);
    waiters
}

/// Nothing starts on a volume between the moment its capture is given up and the
/// moment it is released, when its pages are no longer protected: no other
/// capture, no checkpoint, and no capture to move it. Requests wait, and none of
/// them is told before the release.
pub proof fn nothing_starts_before_the_release(
    before: HostState,
    given_up: HostState,
    between: HostState,
    volume: u64,
    incarnation: u64,
    kind: CaptureKind,
    armed: Seq<u64>,
    req: u64,
    prepared: Seq<PreparedRescue>,
)
    requires
        before.volume_at_spec(volume, incarnation) is Some,
        before.volumes@[volume].operations.mutation == Some(kind),
        capture_given_up(before, given_up, volume, incarnation, armed),
        // Whatever else happens meanwhile, no one but the release gives the right
        // back.
        between.volume_at_spec(volume, incarnation) is Some,
        between.volumes@[volume].operations.mutation
            == given_up.volumes@[volume].operations.mutation,
    ensures
        given_up.volumes@[volume].operations.mutation_blocked(),
        given_up.volumes@[volume].mutation_waiters == before.volumes@[volume].mutation_waiters,
        given_up.scheduled == before.scheduled,
        between.volumes@[volume].operations.mutation_blocked(),
        capture_refused(between.volumes@[volume], CaptureKind::Writeback, None, prepared),
        checkpoint_decision(Some(between.volumes@[volume]), req) !is Reserved,
        !may_move(between.volumes@[volume]),
{
}

/// The release, and only it, lets others at the volume again, unless its guest
/// still has to be resumed.
pub proof fn the_release_frees_the_volume(
    before: HostState,
    after: HostState,
    volume: u64,
    incarnation: u64,
    kind: CaptureKind,
    waiters: Seq<u64>,
)
    requires
        before.volume_at_spec(volume, incarnation) is Some,
        before.volumes@[volume].operations.mutation == Some(kind),
        slot_released(before, after, volume, incarnation, kind, waiters),
    ensures
        before.volumes@[volume].operations.mutation_blocked(),
        after.volumes@[volume].operations.mutation_blocked()
            <==> before.volumes@[volume].operations.guest_resume,
        waiters == before.volumes@[volume].mutation_waiters@,
        after.scheduled@ == with_scheduled(before.scheduled@, volume),
{
}

/// Until its record is durable a capture changes nothing that recovery would
/// see: the newest record stays what it was.
pub proof fn an_unfinished_capture_is_not_seen(before: HostState, counted: HostState, job: FileJob)
    requires
        file_counted(before, counted, job),
    ensures
        counted.volumes@[job.batch.job.volume].best_record
            == before.volumes@[job.batch.job.volume].best_record,
        counted.volumes@[job.batch.job.volume].local_covered_through
            == before.volumes@[job.batch.job.volume].local_covered_through,
{
}

} // verus!
