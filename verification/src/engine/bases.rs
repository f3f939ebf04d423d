//! The course of keeping a state as a base, and of forking a volume from one.

use super::heads::{
    claim_read, claim_read_step, claim_written, claim_written_step, exact_read, exact_read_step,
    exact_written, is_new_head, new_head, ClaimStep, FoundHead,
};
use super::lineage::{
    abandon_fork, base_manifest, begin_fork, collected, finish_fork, fork_begun, fork_manifest,
    fork_opened, fork_record, fork_verdict, fresh_files, is_fork_manifest, is_fork_record,
    keep_rewrites, keep_source, kept_files, kept_manifest, plan_keep, plan_rewrite, BaseManifest,
    KeepSource,
};
use super::publish::{
    are_additions, grouped, has_group, is_union, partition_groups, uploads, within_partitions,
};
use super::reconcile::retries;
use super::state::{follows, with_scheduled, Counters, HostState};
use super::volume::{BaseRef, VolumeConfig, VolumeRecord};
use crate::head::{HeadRecord, ManifestPtr, RetiredStash, StashAssignment};
use crate::manifest::{in_order, Manifest};
use crate::objects::{sorted, ObjectRef};
use crate::protocol::{AdminError, AdminResult, AdminSuccess};
use crate::store::{StoreError, StoreFault};
use vstd::prelude::*;

verus! {

broadcast use vstd::std_specs::btree::group_btree_axioms;

// ---------------------------------------------------------------------------
// Keeping
// ---------------------------------------------------------------------------

/// Files of a state to be kept that are being collected.
pub struct CollectJob {
    pub base: u64,
    pub source: KeepSource,
    pub files: Vec<ObjectRef>,
    /// How many have been collected.
    pub done: usize,
}

impl CollectJob {
    pub open spec fn wf(self) -> bool {
        &&& sorted(self.source.archived@)
        &&& are_additions(self.source.archived@, self.files@)
        &&& self.done < self.files@.len()
    }
}

/// Files of a state to be kept that are being rewritten, one partition after the
/// other.
pub struct KeepJob {
    pub base: u64,
    pub source: KeepSource,
    pub groups: Vec<Vec<ObjectRef>>,
    /// How many partitions have been rewritten.
    pub done: usize,
    /// Number of the next new file.
    pub next_object: u64,
    pub objects: Vec<ObjectRef>,
}

pub enum KeepStep {
    /// Read the next file and see whether it is what is said of it; if it is the
    /// volume's own, have it archived.
    Collect { job: CollectJob, upload: bool },
    /// Rewrite the next partition under the base's name.
    Rewrite(KeepJob),
    /// See whether the objects fit together.
    Check(KeepJob),
    WriteManifest(BaseManifest),
    /// Write the root that makes the base known.
    WriteRoot(BaseManifest),
    Reply(AdminResult),
}

pub open spec fn rejected() -> KeepStep {
    KeepStep::Reply(Err(AdminError::Rejected))
}

/// How keeping goes on with all files at hand.
pub open spec fn goes_on_collected(
    base: u64,
    source: KeepSource,
    all: Seq<ObjectRef>,
    limit: usize,
    step: KeepStep,
) -> bool {
    let fresh = fresh_files(all, source.archived@);
    if !keep_rewrites(all, source.archived@, limit) {
        match step {
            KeepStep::Check(job) => job.base == base && job.source == source && job.objects@ == all,
            _ => false,
        }
    } else if !within_partitions(fresh) {
        step == rejected()
    } else {
        match step {
            KeepStep::Rewrite(job) => {
                &&& job.base == base
                &&& job.source == source
                &&& grouped(fresh, job.groups@)
                &&& job.groups@.len() > 0
                &&& job.done == 0
                &&& job.next_object == 0
                &&& job.objects@ == kept_files(all, source.archived@)
            },
            _ => false,
        }
    }
}

fn go_on_collected(base: u64, source: KeepSource, files: &Vec<ObjectRef>, limit: usize) -> (step:
    KeepStep)
    requires
        sorted(source.archived@),
        are_additions(source.archived@, files@),
    ensures
        exists|all: Seq<ObjectRef>| #[trigger]
            is_union(source.archived@, files@, all) && goes_on_collected(
                base,
                source,
                all,
                limit,
                step,
            ),
{
    let all: Vec<ObjectRef> = collected(&source, files);
    let plan = plan_rewrite(&all, &source.archived, limit);
    if plan.rewritten.len() == 0 {
        return KeepStep::Check(
            KeepJob {
                base,
                source,
                groups: Vec::new(),
                done: 0,
                next_object: 0,
                objects: plan.kept,
            },
        );
    }
    match partition_groups(&plan.rewritten) {
        None => KeepStep::Reply(Err(AdminError::Rejected)),
        Some(groups) => {
            proof {
                assert(has_group(groups@, plan.rewritten@[0].first_key.file_partition()));
            }
            KeepStep::Rewrite(
                KeepJob { base, source, groups, done: 0, next_object: 0, objects: plan.kept },
            )
        },
    }
}

/// Starts keeping the pinned state of a volume. It needs one, and has to be
/// open.
pub fn start_keep(host: &HostState, volume: u64, base: u64, limit: usize) -> (step: KeepStep)
    ensures
        if !(host.volumes@.contains_key(volume) && host.volumes@[volume].ready
            && host.volumes@[volume].pinned is Some) {
            step == rejected()
        } else {
            let state = host.volumes@[volume];
            exists|source: KeepSource|
                {
                    let files = uploads(source.archived@, source.record.files@, None);
                    &&& source.record.same(state.pinned->0)
                    &&& source.state_checksum == state.state_checksum
                    &&& #[trigger] in_order(state.archive_objects@, source.archived@)
                    &&& if files.len() > 0 {
                        match step {
                            KeepStep::Collect { job, upload } => {
                                &&& job.wf()
                                &&& job.base == base
                                &&& job.source == source
                                &&& job.files@ == files
                                &&& job.done == 0
                                &&& upload == files[0].identity.of_volume(volume)
                            },
                            _ => false,
                        }
                    } else {
                        exists|all: Seq<ObjectRef>| #[trigger]
                            is_union(source.archived@, files, all) && goes_on_collected(
                                base,
                                source,
                                all,
                                limit,
                                step,
                            )
                    }
                }
        },
{
    let source: KeepSource = match keep_source(host, volume) {
        Ok(source) => source,
        Err(error) => {
            return KeepStep::Reply(Err(error));
        },
    };
    let ghost kept = source;
    let files: Vec<ObjectRef> = plan_keep(&source);
    proof {
        assert(in_order(host.volumes@[volume].archive_objects@, kept.archived@));
    }
    if files.len() == 0 {
        return go_on_collected(base, source, &files, limit);
    }
    let upload: bool = files[0].identity.of_volume(volume);
    KeepStep::Collect { job: CollectJob { base, source, files, done: 0 }, upload }
}

/// What follows once a file was collected, or could not be.
pub fn file_collected(volume: u64, job: CollectJob, held: bool, limit: usize) -> (step: KeepStep)
    requires
        job.wf(),
    ensures
        if !held {
            step == rejected()
        } else if job.done + 1 < job.files@.len() {
            step == (KeepStep::Collect {
                job: CollectJob { done: (job.done + 1) as usize, ..job },
                upload: job.files@[job.done + 1].identity.of_volume(volume),
            })
        } else {
            exists|all: Seq<ObjectRef>| #[trigger]
                is_union(job.source.archived@, job.files@, all) && goes_on_collected(
                    job.base,
                    job.source,
                    all,
                    limit,
                    step,
                )
        },
{
    if !held {
        return KeepStep::Reply(Err(AdminError::Rejected));
    }
    let count: usize = job.files.len();
    let done: usize = job.done + 1;
    if done < count {
        let upload: bool = job.files[done].identity.of_volume(volume);
        KeepStep::Collect { job: CollectJob { done, ..job }, upload }
    } else {
        go_on_collected(job.base, job.source, &job.files, limit)
    }
}

/// What follows once a partition was rewritten and its new files were archived,
/// or could not be.
pub fn partition_kept(job: KeepJob, rewritten: Option<Vec<ObjectRef>>) -> (step: KeepStep)
    requires
        job.done < job.groups@.len(),
    ensures
        if rewritten is None || job.next_object + rewritten->0@.len() > u64::MAX {
            step == rejected()
        } else {
            let next = match step {
                KeepStep::Rewrite(next) => next,
                KeepStep::Check(next) => next,
                _ => arbitrary(),
            };
            &&& step is Rewrite <==> job.done + 1 < job.groups@.len()
            &&& step is Check <==> job.done + 1 == job.groups@.len()
            &&& next == (KeepJob {
                done: (job.done + 1) as usize,
                next_object: (job.next_object + rewritten->0@.len()) as u64,
                objects: next.objects,
                ..job
            })
            &&& next.objects@ == job.objects@ + rewritten->0@
        },
{
    let mut rewritten: Vec<ObjectRef> = match rewritten {
        Some(rewritten) => rewritten,
        None => {
            return KeepStep::Reply(Err(AdminError::Rejected));
        },
    };
    let ghost fresh = rewritten@;
    let count: u64 = rewritten.len() as u64;
    let next_object: u64 = match job.next_object.checked_add(count) {
        Some(next_object) => next_object,
        None => {
            return KeepStep::Reply(Err(AdminError::Rejected));
        },
    };
    let partitions: usize = job.groups.len();
    let done: usize = job.done + 1;
    let mut before: Vec<ObjectRef> = job.objects;
    let mut objects: Vec<ObjectRef> = Vec::new();
    objects.append(&mut before);
    objects.append(&mut rewritten);
    proof {
        assert(objects@ =~= job.objects@ + fresh);
    }
    let next = KeepJob {
        base: job.base,
        source: job.source,
        groups: job.groups,
        done,
        next_object,
        objects,
    };
    if done < partitions {
        KeepStep::Rewrite(next)
    } else {
        KeepStep::Check(next)
    }
}

/// What follows once the objects were checked. `metadata_checksum` is that of the
/// kept record.
pub fn objects_checked(job: KeepJob, valid: bool, metadata_checksum: u64) -> (step: KeepStep)
    ensures
        step == (if valid {
            KeepStep::WriteManifest(
                kept_manifest(job.base, job.source, metadata_checksum, job.objects),
            )
        } else {
            rejected()
        }),
{
    if !valid {
        return KeepStep::Reply(Err(AdminError::Rejected));
    }
    KeepStep::WriteManifest(
        base_manifest(job.base, &job.source, metadata_checksum, job.objects),
    )
}

/// What follows once the manifest of a base was written, or could not be.
pub fn base_manifest_written(manifest: BaseManifest, written: bool) -> (step: KeepStep)
    ensures
        step == (if written {
            KeepStep::WriteRoot(manifest)
        } else {
            rejected()
        }),
{
    if written {
        KeepStep::WriteRoot(manifest)
    } else {
        KeepStep::Reply(Err(AdminError::Rejected))
    }
}

/// What follows once the root of a base was written, or could not be.
pub fn base_root_written(manifest: &BaseManifest, written: bool) -> (step: KeepStep)
    ensures
        step == (if written {
            KeepStep::Reply(Ok(AdminSuccess::BaseKept { base: manifest.base_id }))
        } else {
            rejected()
        }),
{
    if written {
        KeepStep::Reply(Ok(AdminSuccess::BaseKept { base: manifest.base_id }))
    } else {
        KeepStep::Reply(Err(AdminError::Rejected))
    }
}

// ---------------------------------------------------------------------------
// Forking
// ---------------------------------------------------------------------------

/// A base as it was loaded.
pub struct LoadedBase {
    pub root: BaseRef,
    pub manifest: BaseManifest,
}

/// A fork whose head is being taken.
pub struct ForkJob {
    pub incarnation: u64,
    pub stash: StashAssignment,
    pub root: BaseRef,
    pub base: BaseManifest,
}

/// A fork whose head is taken.
pub struct ForkedJob {
    pub fork: ForkJob,
    pub fence: u64,
    pub record: VolumeRecord,
}

/// A fork whose archived state is written.
pub struct ForkHead {
    pub forked: ForkedJob,
    pub pointer: ManifestPtr,
    pub expected: u64,
    pub head: HeadRecord,
}

pub enum ForkStep {
    /// Load the base.
    Load,
    /// Write a first head, after a while if `wait`.
    Claim { job: ForkJob, head: HeadRecord, wait: bool },
    /// Read the head back; `lost` if the answer to the write got lost.
    ClaimRead { job: ForkJob, lost: bool },
    WriteRecord(ForkedJob),
    WriteManifest { forked: ForkedJob, manifest: Manifest },
    /// Move the head, after a while if `wait`.
    WriteHead { named: ForkHead, wait: bool },
    ReadHead(ForkHead),
    /// The volume is no longer here: there is nothing to answer.
    Gone,
    /// The host cannot go on.
    Failed,
    Reply(AdminResult),
}

/// The step rejects the fork, and the volume is given up.
pub open spec fn gives_up_fork(
    before: HostState,
    after: HostState,
    volume: u64,
    step: ForkStep,
) -> bool {
    &&& step == ForkStep::Reply(Err(AdminError::Rejected))
    &&& after == (HostState { volumes: after.volumes, ..before })
    &&& after.volumes@ == before.volumes@.remove(volume)
}

fn give_up_fork(host: &mut HostState, volume: u64) -> (step: ForkStep)
    ensures
        gives_up_fork(*old(host), *final(host), volume, step),
{
    abandon_fork(host, volume);
    ForkStep::Reply(Err(AdminError::Rejected))
}

/// Starts forking a volume. It must be new here.
pub fn start_fork(host: &HostState, volume: u64) -> (step: ForkStep)
    ensures
        step == (if host.volumes@.contains_key(volume) {
            ForkStep::Reply(Err(AdminError::Rejected))
        } else {
            ForkStep::Load
        }),
{
    if host.volumes.contains_key(&volume) {
        ForkStep::Reply(Err(AdminError::Rejected))
    } else {
        ForkStep::Load
    }
}

/// What follows once the base was loaded, or could not be. It must be of the
/// shape asked for, and there must be a second keeper.
pub fn base_loaded(
    host: &mut HostState,
    volume: u64,
    config: VolumeConfig,
    loaded: Option<LoadedBase>,
    stash: Option<StashAssignment>,
) -> (step: ForkStep)
    requires
        old(host).next_incarnation < u64::MAX,
    ensures
        if loaded is None || loaded->0.manifest.config != config || stash is None {
            step == ForkStep::Reply(Err(AdminError::Rejected)) && *final(host) == *old(host)
        } else {
            &&& match step {
                ForkStep::Claim { job, head, wait } => {
                    &&& job == (ForkJob {
                        incarnation: old(host).next_incarnation,
                        stash: stash->0,
                        root: loaded->0.root,
                        base: loaded->0.manifest,
                    })
                    &&& is_new_head(head, volume, old(host).host, stash)
                    &&& !wait
                },
                _ => false,
            }
            &&& *final(host) == (HostState {
                volumes: final(host).volumes,
                next_incarnation: (old(host).next_incarnation + 1) as u64,
                ..*old(host)
            })
            &&& final(host).volumes@ == old(host).volumes@.insert(
                volume,
                final(host).volumes@[volume],
            )
            &&& final(host).volumes@[volume].is_fresh(config, old(host).next_incarnation)
        },
        follows(*old(host), *final(host)),
{
    let loaded: LoadedBase = match loaded {
        Some(loaded) => loaded,
        None => {
            return ForkStep::Reply(Err(AdminError::Rejected));
        },
    };
    let root: BaseRef = loaded.root;
    let base: BaseManifest = loaded.manifest;
    if base.config != config {
        return ForkStep::Reply(Err(AdminError::Rejected));
    }
    let keeper: StashAssignment = match stash {
        Some(keeper) => keeper,
        None => {
            return ForkStep::Reply(Err(AdminError::Rejected));
        },
    };
    let incarnation: u64 = host.insert_fresh_volume(volume, config);
    ForkStep::Claim {
        job: ForkJob { incarnation, stash: keeper, root, base },
        head: new_head(volume, host.host, Some(keeper)),
        wait: false,
    }
}

/// How a fork goes on once its head is taken.
pub open spec fn forks(
    before: HostState,
    after: HostState,
    volume: u64,
    job: ForkJob,
    fence: u64,
    step: ForkStep,
) -> bool {
    &&& match step {
        ForkStep::WriteRecord(forked) => {
            &&& forked.fork == job
            &&& forked.fence == fence
            &&& is_fork_record(forked.record, fence, job.base)
        },
        _ => false,
    }
    &&& after == (HostState {
        volumes: after.volumes,
        counters: Counters {
            assignment_claims: (before.counters.assignment_claims + 1) as u64,
            ..before.counters
        },
        ..before
    })
    &&& after.volumes@ == before.volumes@.insert(volume, after.volumes@[volume])
    &&& fork_begun(
        before.volumes@[volume],
        after.volumes@[volume],
        fence,
        job.stash,
        job.root,
        job.base,
    )
}

fn fork(host: &mut HostState, volume: u64, job: ForkJob, fence: u64) -> (step: ForkStep)
    requires
        old(host).volumes@.contains_key(volume),
        old(host).counters.room(1),
    ensures
        forks(*old(host), *final(host), volume, job, fence, step),
{
    begin_fork(host, volume, fence, job.stash, job.root, &job.base);
    let record: VolumeRecord = fork_record(fence, &job.base);
    ForkStep::WriteRecord(ForkedJob { fork: job, fence, record })
}

/// What follows the write of the fork's first head. Once it is written the volume
/// must be here.
pub fn fork_claim_written(
    host: &mut HostState,
    volume: u64,
    job: ForkJob,
    outcome: Result<u64, StoreError>,
) -> (step: ForkStep)
    requires
        claim_written_step(outcome) is Claimed ==> old(host).volumes@.contains_key(volume),
        old(host).counters.room(1),
    ensures
        match claim_written_step(outcome) {
            ClaimStep::Claimed(fence) => forks(
                *old(host),
                *final(host),
                volume,
                job,
                fence,
                step,
            ),
            ClaimStep::ReadBack { lost } => {
                &&& step == (ForkStep::ClaimRead { job, lost })
                &&& if lost {
                    retries(*old(host), *final(host))
                } else {
                    *final(host) == (HostState {
                        counters: Counters {
                            assignment_claim_conflicts: (old(
                                host,
                            ).counters.assignment_claim_conflicts + 1) as u64,
                            ..old(host).counters
                        },
                        ..*old(host)
                    })
                }
            },
            _ => gives_up_fork(*old(host), *final(host), volume, step),
        },
        follows(*old(host), *final(host)),
{
    match claim_written(&mut host.counters, outcome) {
        ClaimStep::Claimed(fence) => fork(host, volume, job, fence),
        ClaimStep::ReadBack { lost } => ForkStep::ClaimRead { job, lost },
        _ => give_up_fork(host, volume),
    }
}

/// What follows from the head that was read back. If it is the fork's, the volume
/// must be here.
pub fn fork_claim_read(
    host: &mut HostState,
    volume: u64,
    job: ForkJob,
    lost: bool,
    found: Result<Option<FoundHead>, StoreError>,
) -> (step: ForkStep)
    requires
        claim_read_step(
            *old(host),
            volume,
            job.incarnation,
            Some(job.stash),
            lost,
            found,
        ) is Claimed ==> old(host).volumes@.contains_key(volume),
        old(host).counters.room(1),
    ensures
        match claim_read_step(
            *old(host),
            volume,
            job.incarnation,
            Some(job.stash),
            lost,
            found,
        ) {
            ClaimStep::Claimed(fence) => forks(
                *old(host),
                *final(host),
                volume,
                job,
                fence,
                step,
            ),
            ClaimStep::Retry => *final(host) == *old(host) && match step {
                ForkStep::Claim { job: j, head, wait } => j == job && wait && is_new_head(
                    head,
                    volume,
                    old(host).host,
                    Some(job.stash),
                ),
                _ => false,
            },
            _ => gives_up_fork(*old(host), *final(host), volume, step),
        },
        follows(*old(host), *final(host)),
{
    match claim_read(host, volume, job.incarnation, Some(job.stash), lost, found) {
        ClaimStep::Claimed(fence) => fork(host, volume, job, fence),
        ClaimStep::Retry => {
            let head = new_head(volume, host.host, Some(job.stash));
            ForkStep::Claim { job, head, wait: true }
        },
        _ => give_up_fork(host, volume),
    }
}

/// What follows once the fork's first record was written, or could not be.
pub fn fork_record_written(host: &mut HostState, volume: u64, job: ForkedJob, written: bool) -> (step:
    ForkStep)
    ensures
        if written {
            *final(host) == *old(host) && match step {
                ForkStep::WriteManifest { forked, manifest } => forked == job && is_fork_manifest(
                    manifest,
                    volume,
                    job.fence,
                    job.fork.root,
                    job.fork.base,
                ),
                _ => false,
            }
        } else {
            &&& step is Failed
            &&& *final(host) == (HostState { volumes: final(host).volumes, ..*old(host) })
            &&& final(host).volumes@ == old(host).volumes@.remove(volume)
        },
        follows(*old(host), *final(host)),
{
    if !written {
        abandon_fork(host, volume);
        return ForkStep::Failed;
    }
    let manifest: Manifest = fork_manifest(volume, job.fence, job.fork.root, &job.fork.base);
    ForkStep::WriteManifest { forked: job, manifest }
}

/// The head that names a fork's first archived state.
pub open spec fn is_fork_head(
    head: HeadRecord,
    volume: u64,
    host: HostState,
    job: ForkedJob,
    pointer: ManifestPtr,
) -> bool {
    &&& head.volume == volume
    &&& head.holder == host.host
    &&& head.fence == job.fence
    &&& head.manifest == Some(pointer)
    &&& head.stash == Some(job.fork.stash)
    &&& head.retired_stashes@ == Seq::<RetiredStash>::empty()
}

/// What follows once the fork's archived state was written, under the pointer it
/// got, or could not be.
pub fn fork_manifest_written(
    host: &mut HostState,
    volume: u64,
    job: ForkedJob,
    pointer: Option<ManifestPtr>,
) -> (step: ForkStep)
    ensures
        if pointer is None {
            gives_up_fork(*old(host), *final(host), volume, step)
        } else if old(host).volumes@.contains_key(volume) && old(
            host,
        ).volumes@[volume].head_version is Some {
            *final(host) == *old(host) && match step {
                ForkStep::WriteHead { named: next, wait } => {
                    &&& !wait
                    &&& next.forked == job
                    &&& Some(next.pointer) == pointer
                    &&& Some(next.expected) == old(host).volumes@[volume].head_version
                    &&& is_fork_head(next.head, volume, *old(host), job, pointer->0)
                },
                _ => false,
            }
        } else {
            step is Gone && *final(host) == *old(host)
        },
        follows(*old(host), *final(host)),
{
    let pointer: ManifestPtr = match pointer {
        Some(pointer) => pointer,
        None => {
            return give_up_fork(host, volume);
        },
    };
    let version: Option<u64> = match host.volumes.get(&volume) {
        Some(state) => state.head_version,
        None => None,
    };
    match version {
        Some(expected) => {
            let head = HeadRecord {
                volume,
                holder: host.host,
                fence: job.fence,
                manifest: Some(pointer),
                stash: Some(job.fork.stash),
                retired_stashes: Vec::new(),
            };
            ForkStep::WriteHead {
                named: ForkHead { forked: job, pointer, expected, head },
                wait: false,
            }
        },
        None => ForkStep::Gone,
    }
}

/// How a fork ends once its head names its archived state.
pub open spec fn opens_fork(
    before: HostState,
    after: HostState,
    volume: u64,
    job: ForkHead,
    version: u64,
    step: ForkStep,
) -> bool {
    if before.volume_at_spec(volume, job.forked.fork.incarnation) is Some {
        &&& step == ForkStep::Reply(
            Ok(
                AdminSuccess::VolumeForked {
                    volume,
                    verdict: fork_verdict(job.forked.fork.base.kind),
                },
            ),
        )
        &&& after == (HostState {
            volumes: after.volumes,
            scheduled: after.scheduled,
            counters: Counters {
                records_written: (before.counters.records_written + 1) as u64,
                manifests_published: (before.counters.manifests_published + 1) as u64,
                ..before.counters
            },
            ..before
        })
        &&& after.scheduled@ == with_scheduled(before.scheduled@, volume)
        &&& after.volumes@ == before.volumes@.insert(volume, after.volumes@[volume])
        &&& fork_opened(
            before.volumes@[volume],
            after.volumes@[volume],
            job.pointer,
            version,
            job.forked.record,
        )
    } else {
        step is Gone && after == before
    }
}

fn open_fork(host: &mut HostState, volume: u64, job: &ForkHead, version: u64) -> (step: ForkStep)
    requires
        old(host).counters.room(1),
    ensures
        opens_fork(*old(host), *final(host), volume, *job, version, step),
{
    if finish_fork(
        host,
        volume,
        job.forked.fork.incarnation,
        job.pointer,
        version,
        &job.forked.record,
    ) {
        ForkStep::Reply(
            Ok(
                AdminSuccess::VolumeForked {
                    volume,
                    verdict: fork_verdict(job.forked.fork.base.kind),
                },
            ),
        )
    } else {
        ForkStep::Gone
    }
}

/// What follows the write of the head that names the fork's archived state.
pub fn fork_head_written(
    host: &mut HostState,
    volume: u64,
    job: ForkHead,
    outcome: Result<u64, StoreError>,
) -> (step: ForkStep)
    requires
        old(host).counters.room(1),
    ensures
        match outcome {
            Ok(version) => opens_fork(*old(host), *final(host), volume, job, version, step),
            Err(StoreError::Fault(StoreFault::Unavailable)) => step == ForkStep::ReadHead(job)
                && retries(*old(host), *final(host)),
            Err(_) => gives_up_fork(*old(host), *final(host), volume, step),
        },
        follows(*old(host), *final(host)),
{
    match exact_written(&mut host.counters, outcome) {
        ClaimStep::Claimed(version) => open_fork(host, volume, &job, version),
        ClaimStep::ReadBack { .. } => ForkStep::ReadHead(job),
        _ => give_up_fork(host, volume),
    }
}

/// What follows from the head that was read back.
pub fn fork_head_read(
    host: &mut HostState,
    volume: u64,
    job: ForkHead,
    found: Result<Option<FoundHead>, StoreError>,
) -> (step: ForkStep)
    requires
        old(host).counters.room(1),
    ensures
        match exact_read_step(job.head, found) {
            ClaimStep::Claimed(version) => opens_fork(
                *old(host),
                *final(host),
                volume,
                job,
                version,
                step,
            ),
            ClaimStep::Retry => step == (ForkStep::WriteHead { named: job, wait: true }) && *final(host)
                == *old(host),
            _ => gives_up_fork(*old(host), *final(host), volume, step),
        },
        follows(*old(host), *final(host)),
{
    match exact_read(&job.head, found) {
        ClaimStep::Claimed(version) => open_fork(host, volume, &job, version),
        ClaimStep::Retry => ForkStep::WriteHead { named: job, wait: true },
        _ => give_up_fork(host, volume),
    }
}

/// A fork that is rejected leaves nothing behind.
pub proof fn rejected_forks_leave_nothing(
    before: HostState,
    after: HostState,
    volume: u64,
    step: ForkStep,
)
    requires
        gives_up_fork(before, after, volume, step),
    ensures
        !after.volumes@.contains_key(volume),
        forall|other: u64|
            other != volume && before.volumes@.contains_key(other)
                ==> after.volumes@.contains_key(other) && #[trigger] after.volumes@[other]
                == before.volumes@[other],
{
}

} // verus!
