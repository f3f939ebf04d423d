use blockd_core::engine::bases::{
    base_loaded, base_manifest_written, base_root_written, file_collected, fork_claim_read,
    fork_claim_written, fork_head_read, fork_head_written, fork_manifest_written,
    fork_record_written, objects_checked, partition_kept, start_fork, start_keep, ForkStep,
    KeepStep, LoadedBase,
};
use blockd_core::engine::heads::{
    claim_read, claim_written, exact_read, exact_written, head_read, head_written, new_head,
    plan_head, ClaimStep, FoundHead, PublishStep,
};
use blockd_core::engine::lineage::{base_deleted, BaseManifest, DeleteStep};
use blockd_core::engine::reconcile::{
    archive_loaded, first_head_written, head_found, manifest_found, upgrade_written,
    FoundManifest, ReconcileStep, RecoveryEnd,
};
use blockd_core::engine::recovery::{archive_closure, ManifestSummary};
use blockd_core::engine::state::HostState;
use blockd_core::engine::volume::{
    BaseRef, Verdict, VolumeConfig, VolumeRecord, VolumeRecordKind,
};
use blockd_core::head::{HeadRecord, ManifestPtr, ReplicaCommitInfo, StashAssignment};
use blockd_core::objects::{BlockKey, BlockSpace, ObjectIdentity, ObjectRef};
use blockd_core::protocol::{AdminCall, AdminError, AdminSuccess};
use blockd_core::store::{StoreError, StoreFault};
use blockd_core::types::HostId;
use std::collections::BTreeMap;

const VOLUME: u64 = 7;
const BASE: u64 = 40;
const UNAVAILABLE: StoreError = StoreError::Fault(StoreFault::Unavailable);
const CONFLICT: StoreError = StoreError::Fault(StoreFault::CasConflict { actual: Some(9) });

fn object(number: u64, first: u32, last: u32) -> ObjectRef {
    ObjectRef {
        identity: ObjectIdentity::volume(VOLUME, 1, number),
        first_key: BlockKey { space: BlockSpace::Data, block: first },
        last_key: BlockKey { space: BlockSpace::Data, block: last },
        max_seq: 0,
        batch_id: number,
        object_checksum: 0,
        footer_offset: 0,
        footer_length: 0,
    }
}

fn record(kind: VolumeRecordKind, files: Vec<ObjectRef>) -> VolumeRecord {
    VolumeRecord {
        config: VolumeConfig::data(16),
        seq: 3,
        fence: 1,
        kind,
        capture_seq: 6,
        sync_covered_through: 5,
        post_state_checksum: 70,
        files,
        page_index: BTreeMap::new(),
        migrated_from: None,
    }
}

fn keeper(membership_epoch: u64) -> StashAssignment {
    StashAssignment {
        assignment_epoch: 1,
        active_peer: HostId(1),
        active_assignment_epoch: 1,
        transition_peer: None,
        membership_epoch,
    }
}

/// A host with one volume that has a pinned state of two files, one of which is
/// archived.
fn pinned_host() -> HostState {
    let mut host = HostState::new(HostId(0), None, 0);
    host.insert_fresh_volume(VOLUME, VolumeConfig::data(16));
    let state = host.volumes.get_mut(&VOLUME).expect("inserted");
    state.ready = true;
    state.state_checksum = 71;
    state.archive_objects = vec![object(1, 0, 4)];
    state.pinned = Some(record(VolumeRecordKind::Commit, vec![object(1, 0, 4), object(2, 3, 6)]));
    host
}

#[test]
fn a_pinned_state_is_kept_as_it_is() {
    let host = pinned_host();
    let KeepStep::Collect { job, upload: true } = start_keep(&host, VOLUME, BASE, 3) else {
        panic!("one file is not archived");
    };
    assert_eq!(job.files, vec![object(2, 3, 6)]);
    let KeepStep::Check(job) = file_collected(VOLUME, job, true, 3) else {
        panic!("nothing is rewritten");
    };
    assert_eq!(job.objects, vec![object(1, 0, 4), object(2, 3, 6)]);
    let KeepStep::WriteManifest(manifest) = objects_checked(job, true, 33) else {
        panic!("the objects fit");
    };
    assert_eq!((manifest.base_id, manifest.manifest_id), (BASE, 1));
    assert_eq!((manifest.capture_seq, manifest.sync_covered_through), (6, 5));
    assert_eq!((manifest.post_state_checksum, manifest.metadata_checksum), (71, 33));
    let KeepStep::WriteRoot(manifest) = base_manifest_written(manifest, true) else {
        panic!("the manifest is written");
    };
    assert!(matches!(
        base_root_written(&manifest, true),
        KeepStep::Reply(Ok(AdminSuccess::BaseKept { base: BASE }))
    ));
    assert!(matches!(
        base_root_written(&manifest, false),
        KeepStep::Reply(Err(AdminError::Rejected))
    ));
}

#[test]
fn keeping_rewrites_only_what_is_not_archived() {
    let host = pinned_host();
    let KeepStep::Collect { job, .. } = start_keep(&host, VOLUME, BASE, 2) else {
        panic!("one file is not archived");
    };
    let KeepStep::Rewrite(job) = file_collected(VOLUME, job, true, 2) else {
        panic!("two files share a key");
    };
    assert_eq!(job.objects, vec![object(1, 0, 4)]);
    assert_eq!(job.groups, vec![vec![object(2, 3, 6)]]);
    let KeepStep::Check(job) = partition_kept(job, Some(vec![object(9, 3, 6)])) else {
        panic!("there is one partition");
    };
    assert_eq!(job.objects, vec![object(1, 0, 4), object(9, 3, 6)]);
    assert_eq!(job.next_object, 1);
    assert!(matches!(
        objects_checked(job, false, 0),
        KeepStep::Reply(Err(AdminError::Rejected))
    ));
}

#[test]
fn what_cannot_be_kept_is_rejected() {
    let rejected = |step: KeepStep| matches!(step, KeepStep::Reply(Err(AdminError::Rejected)));
    let mut host = pinned_host();
    assert!(rejected(start_keep(&host, 99, BASE, 3)));
    let KeepStep::Collect { job, .. } = start_keep(&host, VOLUME, BASE, 3) else {
        panic!("one file is not archived");
    };
    assert!(rejected(file_collected(VOLUME, job, false, 3)));
    let KeepStep::Collect { job, .. } = start_keep(&host, VOLUME, BASE, 3) else {
        panic!("one file is not archived");
    };
    let KeepStep::Rewrite(job) = file_collected(VOLUME, job, true, 1) else {
        panic!("every key is shared enough");
    };
    assert!(rejected(partition_kept(job, None)));
    host.volumes.get_mut(&VOLUME).expect("volume").pinned = None;
    assert!(rejected(start_keep(&host, VOLUME, BASE, 3)));
}

#[test]
fn bases_are_deleted_again_if_the_store_is_unavailable() {
    let mut host = pinned_host();
    assert_eq!(base_deleted(&mut host.counters, Ok(())), DeleteStep::Deleted);
    assert_eq!(base_deleted(&mut host.counters, Err(UNAVAILABLE)), DeleteStep::Retry);
    assert_eq!(base_deleted(&mut host.counters, Err(CONFLICT)), DeleteStep::Rejected);
    assert_eq!(host.counters.store_retries, 1);
}

fn loaded(kind: VolumeRecordKind) -> Option<LoadedBase> {
    Some(LoadedBase {
        root: BaseRef {
            base_id: BASE,
            manifest_id: 1,
            manifest_checksum: 8,
            post_state_checksum: 71,
        },
        manifest: BaseManifest {
            base_id: BASE,
            manifest_id: 1,
            capture_seq: 6,
            sync_covered_through: 5,
            kind,
            config: VolumeConfig::data(16),
            post_state_checksum: 71,
            metadata_checksum: 33,
            objects: vec![object(1, 0, 4)],
        },
    })
}

const POINTER: ManifestPtr =
    ManifestPtr { fence: 4, seq: 0, journal_seq: 0, capture_seq: 6, checksum: 2 };

#[test]
fn a_fork_opens_once_its_head_names_its_state() {
    let mut host = HostState::new(HostId(0), None, 0);
    assert!(matches!(start_fork(&host, VOLUME), ForkStep::Load));
    let kind = VolumeRecordKind::Checkpoint { epoch: 3, vmstate: 42, vmstate_length: 8 };
    let config = VolumeConfig::data(16);
    let ForkStep::Claim { job, head, wait: false } =
        base_loaded(&mut host, VOLUME, config, loaded(kind), Some(keeper(1)))
    else {
        panic!("the base is of the right shape");
    };
    assert_eq!((head.holder, head.fence, head.stash), (HostId(0), 0, Some(keeper(1))));
    let ForkStep::WriteRecord(job) = fork_claim_written(&mut host, VOLUME, job, Ok(4)) else {
        panic!("the head is free");
    };
    assert_eq!(
        job.record.kind,
        VolumeRecordKind::Checkpoint { epoch: 0, vmstate: 42, vmstate_length: 8 }
    );
    {
        let state = &host.volumes[&VOLUME];
        assert!(!state.ready && state.archived_memory_usable);
        assert_eq!((state.fence, state.head_version, state.state_checksum), (4, Some(4), 71));
    }
    let ForkStep::WriteManifest { forked, manifest } =
        fork_record_written(&mut host, VOLUME, job, true)
    else {
        panic!("the record is written");
    };
    assert_eq!((manifest.capture_seq, manifest.writer_fence, manifest.journal_seq), (6, 4, 0));
    assert!(manifest.complete_list.is_none() && manifest.added.is_empty());
    let ForkStep::WriteHead { named, wait: false } =
        fork_manifest_written(&mut host, VOLUME, forked, Some(POINTER))
    else {
        panic!("the manifest is written");
    };
    assert_eq!((named.expected, named.head.manifest), (4, Some(POINTER)));
    let ForkStep::ReadHead(named) =
        fork_head_written(&mut host, VOLUME, named, Err(UNAVAILABLE))
    else {
        panic!("the answer is lost");
    };
    let ForkStep::WriteHead { named, wait: true } =
        fork_head_read(&mut host, VOLUME, named, Err(UNAVAILABLE))
    else {
        panic!("the store is unavailable");
    };
    assert!(matches!(
        fork_head_written(&mut host, VOLUME, named, Ok(5)),
        ForkStep::Reply(Ok(AdminSuccess::VolumeForked { volume: VOLUME, verdict: Verdict::Whole }))
    ));
    let state = &host.volumes[&VOLUME];
    assert!(state.ready);
    assert_eq!((state.head_version, state.backed, state.next_seq), (Some(5), Some(POINTER), 1));
    assert_eq!(state.archive_objects, vec![object(1, 0, 4)]);
    assert!(state.files.is_empty());
    assert!(state.pinned.is_some());
    assert!(matches!(start_fork(&host, VOLUME), ForkStep::Reply(Err(AdminError::Rejected))));
}

#[test]
fn a_fork_that_is_rejected_leaves_no_volume() {
    let kind = VolumeRecordKind::Commit;
    let config = VolumeConfig::data(16);
    let rejected = |step: ForkStep| matches!(step, ForkStep::Reply(Err(AdminError::Rejected)));
    let mut host = HostState::new(HostId(0), None, 0);
    assert!(rejected(base_loaded(&mut host, VOLUME, config, None, Some(keeper(1)))));
    assert!(rejected(base_loaded(&mut host, VOLUME, config, loaded(kind), None)));
    let other = VolumeConfig::data(8);
    assert!(rejected(base_loaded(&mut host, VOLUME, other, loaded(kind), Some(keeper(1)))));

    let claim = |host: &mut HostState| {
        let ForkStep::Claim { job, .. } =
            base_loaded(host, VOLUME, config, loaded(kind), Some(keeper(1)))
        else {
            panic!("the base is of the right shape");
        };
        job
    };
    let job = claim(&mut host);
    let ForkStep::ClaimRead { job, lost: false } =
        fork_claim_written(&mut host, VOLUME, job, Err(CONFLICT))
    else {
        panic!("another head is there");
    };
    assert_eq!(host.counters.assignment_claim_conflicts, 1);
    let foreign = FoundHead { version: 3, record: Some(new_head(VOLUME, HostId(2), None)) };
    assert!(rejected(fork_claim_read(&mut host, VOLUME, job, false, Ok(Some(foreign)))));
    assert!(host.volumes.is_empty());

    let job = claim(&mut host);
    let ForkStep::ClaimRead { job, lost: true } =
        fork_claim_written(&mut host, VOLUME, job, Err(UNAVAILABLE))
    else {
        panic!("the answer is lost");
    };
    let ForkStep::Claim { job, wait: true, .. } =
        fork_claim_read(&mut host, VOLUME, job, true, Ok(None))
    else {
        panic!("nothing was written");
    };
    let ours =
        FoundHead { version: 4, record: Some(new_head(VOLUME, HostId(0), Some(keeper(1)))) };
    let ForkStep::WriteRecord(job) =
        fork_claim_read(&mut host, VOLUME, job, true, Ok(Some(ours)))
    else {
        panic!("the head was written");
    };
    assert!(!host.volumes[&VOLUME].archived_memory_usable, "nothing but data is inherited");
    let ForkStep::WriteManifest { forked, .. } = fork_record_written(&mut host, VOLUME, job, true)
    else {
        panic!("the record is written");
    };
    assert!(rejected(fork_manifest_written(&mut host, VOLUME, forked, None)));
    assert!(host.volumes.is_empty());

    let job = claim(&mut host);
    let ForkStep::WriteRecord(job) = fork_claim_written(&mut host, VOLUME, job, Ok(4)) else {
        panic!("the head is free");
    };
    assert!(matches!(fork_record_written(&mut host, VOLUME, job, false), ForkStep::Failed));
    assert!(host.volumes.is_empty());

    let job = claim(&mut host);
    let ForkStep::WriteRecord(job) = fork_claim_written(&mut host, VOLUME, job, Ok(4)) else {
        panic!("the head is free");
    };
    let ForkStep::WriteManifest { forked, .. } = fork_record_written(&mut host, VOLUME, job, true)
    else {
        panic!("the record is written");
    };
    let ForkStep::WriteHead { named, .. } =
        fork_manifest_written(&mut host, VOLUME, forked, Some(POINTER))
    else {
        panic!("the manifest is written");
    };
    assert!(rejected(fork_head_written(&mut host, VOLUME, named, Err(CONFLICT))));
    assert!(host.volumes.is_empty());
}

#[test]
fn a_new_head_is_claimed_by_one_host() {
    let mut host = pinned_host();
    let incarnation = host.volumes[&VOLUME].incarnation;
    assert_eq!(claim_written(&mut host.counters, Ok(5)), ClaimStep::Claimed(5));
    assert_eq!(
        claim_written(&mut host.counters, Err(CONFLICT)),
        ClaimStep::ReadBack { lost: false }
    );
    assert_eq!(
        claim_written(&mut host.counters, Err(UNAVAILABLE)),
        ClaimStep::ReadBack { lost: true }
    );
    assert_eq!(
        claim_written(&mut host.counters, Err(StoreError::TooLarge)),
        ClaimStep::Refused
    );
    let stash = Some(keeper(1));
    let read = |incarnation, lost, found| {
        claim_read(&host, VOLUME, incarnation, stash, lost, found)
    };
    let found = |holder, stash| {
        Ok(Some(FoundHead { version: 6, record: Some(new_head(VOLUME, HostId(holder), stash)) }))
    };
    assert_eq!(read(incarnation, false, found(0, stash)), ClaimStep::Claimed(6));
    assert_eq!(read(incarnation, true, found(0, stash)), ClaimStep::Claimed(6));
    assert_eq!(read(incarnation + 1, true, found(0, stash)), ClaimStep::Refused);
    assert_eq!(read(incarnation, false, found(3, stash)), ClaimStep::Refused);
    assert_eq!(read(incarnation, false, found(0, None)), ClaimStep::Refused);
    assert_eq!(read(incarnation, false, Ok(None)), ClaimStep::Refused);
    assert_eq!(read(incarnation, true, Ok(None)), ClaimStep::Retry);
    assert_eq!(read(incarnation, true, Err(UNAVAILABLE)), ClaimStep::Retry);
    assert_eq!(read(incarnation, false, Err(UNAVAILABLE)), ClaimStep::Refused);
}

#[test]
fn heads_move_forward_only() {
    let mut host = pinned_host();
    let incarnation = host.volumes[&VOLUME].incarnation;
    assert!(plan_head(&host, VOLUME, incarnation, POINTER).is_none(), "it has no head yet");
    host.volumes.get_mut(&VOLUME).expect("volume").head_version = Some(2);
    let write = plan_head(&host, VOLUME, incarnation, POINTER).expect("a head");
    assert_eq!((write.expected, write.head.manifest), (2, Some(POINTER)));
    assert!(plan_head(&host, VOLUME, incarnation + 1, POINTER).is_none());

    assert_eq!(head_written(&mut host.counters, Ok(3)), PublishStep::Published(3));
    assert_eq!(head_written(&mut host.counters, Err(CONFLICT)), PublishStep::ReadBack);
    assert_eq!(head_written(&mut host.counters, Err(UNAVAILABLE)), PublishStep::ReadBack);
    assert_eq!(
        head_written(&mut host.counters, Err(StoreError::TooLarge)),
        PublishStep::Fatal
    );
    let wanted = write.head;
    let mut read = |found| head_read(&mut host, VOLUME, &wanted, POINTER, found);
    let head = |manifest| HeadRecord {
        volume: VOLUME,
        holder: HostId(0),
        fence: wanted.fence,
        manifest,
        stash: None,
        retired_stashes: Vec::new(),
    };
    let found = |head| Ok(Some(FoundHead { version: 8, record: head }));
    assert_eq!(read(found(None)), PublishStep::Fatal);
    assert_eq!(read(Ok(None)), PublishStep::Fenced);
    assert_eq!(read(Err(UNAVAILABLE)), PublishStep::Retry);
    assert_eq!(read(Err(StoreError::TooLarge)), PublishStep::Fatal);
    let later = ManifestPtr { capture_seq: 7, ..POINTER };
    assert_eq!(read(found(Some(head(Some(later))))), PublishStep::Published(8));
    let taken = HeadRecord { fence: wanted.fence + 1, ..head(None) };
    assert_eq!(read(found(Some(taken))), PublishStep::Fenced);
    let earlier = ManifestPtr { capture_seq: 5, seq: 9, ..POINTER };
    assert_eq!(read(found(Some(head(Some(earlier))))), PublishStep::Again);
    assert_eq!(host.volumes[&VOLUME].head_version, Some(8));
}

#[test]
fn an_exact_write_accepts_its_own_head_only() {
    let mut host = pinned_host();
    assert_eq!(exact_written(&mut host.counters, Ok(3)), ClaimStep::Claimed(3));
    assert_eq!(exact_written(&mut host.counters, Err(CONFLICT)), ClaimStep::Refused);
    assert_eq!(
        exact_written(&mut host.counters, Err(UNAVAILABLE)),
        ClaimStep::ReadBack { lost: true }
    );
    let wanted = new_head(VOLUME, HostId(0), Some(keeper(1)));
    let found = |membership| {
        let record = Some(new_head(VOLUME, HostId(0), Some(keeper(membership))));
        Ok(Some(FoundHead { version: 6, record }))
    };
    assert_eq!(exact_read(&wanted, found(1)), ClaimStep::Claimed(6));
    assert_eq!(exact_read(&wanted, found(2)), ClaimStep::Refused);
    assert_eq!(exact_read(&wanted, Ok(None)), ClaimStep::Refused);
    assert_eq!(exact_read(&wanted, Err(UNAVAILABLE)), ClaimStep::Retry);
}

/// A host that has found one volume on its device and not opened it yet.
fn recovering_host() -> HostState {
    let mut host = HostState::new(HostId(0), None, 0);
    host.insert_fresh_volume(VOLUME, VolumeConfig::data(16));
    let state = host.volumes.get_mut(&VOLUME).expect("inserted");
    state.fence = 1;
    state.mutation_seq = 6;
    state.best_record = Some(record(VolumeRecordKind::Commit, Vec::new()));
    state.operations.recovery = Some(Verdict::ColdBoot);
    host
}

fn stored_head(holder: u16, stash: Option<StashAssignment>) -> HeadRecord {
    HeadRecord {
        volume: VOLUME,
        holder: HostId(holder),
        fence: 1,
        manifest: Some(ManifestPtr { fence: 1, seq: 2, journal_seq: 3, capture_seq: 6, checksum: 9 }),
        stash,
        retired_stashes: Vec::new(),
    }
}

fn no_archive() -> Option<blockd_core::engine::recovery::ArchiveClosure> {
    Some(archive_closure(None, Vec::new(), &Vec::new()))
}

#[test]
fn recovery_opens_under_the_head_it_wrote_or_found() {
    let mut host = recovering_host();
    assert!(matches!(
        head_found(&mut host, VOLUME, Err(UNAVAILABLE), Some(keeper(1))),
        ReconcileStep::Read { wait: true }
    ));
    let ReconcileStep::Create { head, stash } =
        head_found(&mut host, VOLUME, Ok(None), Some(keeper(1)))
    else {
        panic!("there is no head");
    };
    assert_eq!((head.holder, head.fence), (HostId(0), 0));
    assert!(matches!(
        first_head_written(&mut host, VOLUME, stash, Err(CONFLICT)),
        ReconcileStep::Read { wait: false }
    ));
    let found = FoundHead { version: 4, record: Some(stored_head(0, Some(keeper(1)))) };
    let ReconcileStep::Load { version: 4, head } =
        head_found(&mut host, VOLUME, Ok(Some(found)), Some(keeper(1)))
    else {
        panic!("there is a head");
    };
    let ReconcileStep::Manifest { pointer, pending, wait: false } =
        archive_loaded(&mut host, VOLUME, 4, head, no_archive(), None, Some(1))
    else {
        panic!("the head names an archived state");
    };
    let ReconcileStep::Manifest { pointer, pending, wait: true } =
        manifest_found(&mut host, VOLUME, pointer, pending, Err(UNAVAILABLE), 33)
    else {
        panic!("the store is unavailable");
    };
    let summary = ManifestSummary {
        writer_fence: 1,
        journal_seq: 3,
        archive_seq: 2,
        capture_seq: 6,
        metadata_checksum: 33,
    };
    let manifest = FoundManifest { checksum: 9, summary: Some(summary) };
    let step = manifest_found(&mut host, VOLUME, pointer, pending, Ok(Some(manifest)), 33);
    assert!(matches!(
        step,
        ReconcileStep::End(RecoveryEnd::Open(Some(Verdict::ColdBoot)))
    ));
    let state = &host.volumes[&VOLUME];
    assert!(state.ready);
    assert_eq!(state.head_version, Some(4));
    assert_eq!(
        state.peer_published,
        Some(ReplicaCommitInfo { writer_fence: 1, seq: 3, sync_covered_through: 5 })
    );
}

#[test]
fn recovery_fences_what_is_not_this_hosts() {
    let fenced = |host: &HostState, step: ReconcileStep| {
        assert!(matches!(step, ReconcileStep::End(RecoveryEnd::Fenced(Some(_)))));
        assert!(host.volumes.is_empty());
        assert_eq!(host.counters.fenced, 1);
    };
    let mut host = recovering_host();
    let step = head_found(&mut host, VOLUME, Ok(None), None);
    fenced(&host, step);
    let mut host = recovering_host();
    let corrupt = FoundHead { version: 4, record: None };
    let step = head_found(&mut host, VOLUME, Ok(Some(corrupt)), Some(keeper(1)));
    fenced(&host, step);
    let mut host = recovering_host();
    let step = first_head_written(&mut host, VOLUME, keeper(1), Err(StoreError::TooLarge));
    fenced(&host, step);
    let mut host = recovering_host();
    let head = stored_head(0, Some(keeper(1)));
    let step = archive_loaded(&mut host, VOLUME, 4, head, None, None, Some(1));
    fenced(&host, step);
    let mut host = recovering_host();
    let head = stored_head(0, Some(keeper(1)));
    let step = archive_loaded(&mut host, VOLUME, 4, head, no_archive(), None, Some(2));
    fenced(&host, step);
    let mut host = recovering_host();
    let head = stored_head(3, Some(keeper(1)));
    let step = archive_loaded(&mut host, VOLUME, 4, head, no_archive(), None, Some(1));
    fenced(&host, step);
    let mut host = recovering_host();
    let head = stored_head(3, None);
    let step = archive_loaded(&mut host, VOLUME, 4, head, no_archive(), Some(keeper(1)), Some(1));
    fenced(&host, step);

    let mut host = recovering_host();
    let head = stored_head(0, None);
    let ReconcileStep::Upgrade { upgrade, closure, .. } =
        archive_loaded(&mut host, VOLUME, 4, head, no_archive(), Some(keeper(1)), Some(1))
    else {
        panic!("the head gets a second keeper");
    };
    let step =
        upgrade_written(&mut host, VOLUME, upgrade, closure, Err(StoreError::TooLarge));
    fenced(&host, step);
}

#[test]
fn administrative_calls_need_authority() {
    let create = AdminCall::CreateVolume {
        volume: 3,
        config: VolumeConfig::data(4),
        from_base: None,
    };
    let keep = AdminCall::KeepBase { volume: 4, base: 1 };
    let delete = AdminCall::DeleteBase { base: 1 };
    assert_eq!((create.volume(), keep.volume(), delete.volume()), (Some(3), Some(4), None));
    for call in [create, keep, delete] {
        assert_eq!(call.admitted(true, true), Ok(()));
        assert!(call.admitted(false, true).is_err());
    }
    assert!(keep.admitted(true, false).is_err());
    assert_eq!(delete.admitted(true, false), Ok(()));
}
