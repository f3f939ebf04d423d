use blockd_core::engine::capture::{
    finish_creation, initial_record, Checkpoint, Finished, PreparedRescue, RescueEntry, WrittenFile,
};
use blockd_core::engine::capturing::{
    begin_capture, capture_released, captures_all, file_written, files_built, give_up_capture,
    guest_resumed, page_read, pages_protected, pages_summed, record_written, reset_archive,
    take_rescues, CaptureBatch, CaptureStep, ResetStep,
};
use blockd_core::engine::checkpoint::{
    data_captured, memory_captured, start_checkpoint, start_migration, CheckpointStep,
    MigrationStep, PausedGuest, ResumeStep,
};
use blockd_core::engine::fault::admit_fault;
use blockd_core::engine::heads::{
    claim_written, head_written, new_head, plan_head, ClaimStep, FoundHead, PublishStep,
};
use blockd_core::engine::publication::{
    files_checked, list_written, manifest_bounded, manifest_written, next_publication,
    pending_written, previous_loaded, publication_head_read, publication_head_written,
    PublicationStep,
};
use blockd_core::engine::publish::{
    already_published, end_publication, finish_publication, publish_snapshot,
    source_object_is_covered, start_publication, ArchivePlan,
};
use blockd_core::engine::reconcile::{
    archive_loaded, first_head_written, head_found, manifest_found, upgrade_written, FoundManifest,
    ReconcileStep, RecoveryEnd,
};
use blockd_core::engine::records::{
    available_inbound_fence, record_blob, reserve_record_copies, settle_record_copies,
    superseded_records, SupersededRecord,
};
use blockd_core::engine::recovery::{
    admit_store_restore, archive_closure, assignment_written, AssignmentWritten, ManifestSummary,
};
use blockd_core::engine::schedule::{work_ready, ScheduledWork};
use blockd_core::engine::serving::{
    begin_page, end_page, page_saved, slot_prepared, take_fault, Fault, FaultStep,
};
use blockd_core::engine::sources::{admit_sync, SyncDecision};
use blockd_core::engine::stash::{
    initial_stash, keeper_authorized, published_release, rank_stash_candidates, PeerCandidate,
};
use blockd_core::engine::state::{HostState, ReplicaRelease, VolumeBlob, VolumeBlobKind};
use blockd_core::engine::stats::{host_stats, VolumeRole};
use blockd_core::engine::volume::{
    CaptureKind, PageEntry, PageFileLoc, PendingSync, Verdict, VolumeConfig, VolumeKind,
    VolumeRecord, VolumeRecordKind,
};
use blockd_core::head::{
    HeadRecord, ManifestPtr, ReplicaCommitInfo, RetiredStash, StashAssignment,
};
use blockd_core::manifest::Manifest;
use blockd_core::objects::{ObjectIdentity, ObjectRef};
use blockd_core::protocol::{AdminError, AdminSuccess};
use blockd_core::store::{StoreError, StoreFault};
use blockd_core::types::HostId;
use std::collections::BTreeMap;

const VOLUME: u64 = 7;
const PAGE: usize = 4096;

/// A candidate whose draw follows its weight, then its number.
fn candidate(host: u16, weight: u64, failure_domain: u16, drained: bool) -> PeerCandidate {
    let draw = u64::from(host).wrapping_mul(0x9E37_79B9_7F4A_7C15) >> 32;
    PeerCandidate { host: HostId(host), failure_domain, drained, score: weight * draw }
}

/// The roster of a cluster of two hosts.
fn test_roster() -> Vec<PeerCandidate> {
    vec![candidate(0, 1, 1, false), candidate(1, 1, 2, false)]
}

fn test_stash(membership_epoch: u64) -> Option<StashAssignment> {
    let ranked = rank_stash_candidates(&test_roster(), HostId(0), 1);
    initial_stash(&ranked, membership_epoch)
}

/// A host that has created one volume of four pages.
fn created_host(kind: VolumeKind) -> HostState {
    let mut host = HostState::new(HostId(0), None, 0);
    let config = VolumeConfig { kind, pages: 4 };
    let incarnation = host.insert_fresh_volume(VOLUME, config);
    let stash = test_stash(1);
    let head = new_head(VOLUME, HostId(0), stash);
    assert_eq!(head.fence, 0);
    let ClaimStep::Claimed(version) = claim_written(&mut host.counters, Ok(1)) else {
        panic!("the head is free");
    };
    {
        let state = host.volumes.get_mut(&VOLUME).expect("inserted");
        state.fence = version;
        state.head_version = Some(version);
        state.stash_assignment = stash;
    }
    let record = initial_record(config, version);
    write_record(&mut host, &record);
    assert!(finish_creation(&mut host, VOLUME, incarnation, record));
    host
}

/// Writes both copies of a record to a device that always succeeds.
fn write_record(host: &mut HostState, record: &VolumeRecord) {
    let reservation =
        reserve_record_copies(host, VOLUME, record.fence, record.seq, 512).expect("room");
    assert!(settle_record_copies(
        host,
        VOLUME,
        record.fence,
        record.seq,
        512,
        reservation,
        true,
        true
    ));
}

fn fault(page: u32, write: bool) -> Fault {
    Fault { volume: VOLUME, page, write, write_protected: false, minor: false }
}

/// A guest touches a page that was never written.
fn touch(host: &mut HostState, page: u32, write: bool) {
    let (Some(open), FaultStep::Begin) = take_fault(host, fault(page, write)) else {
        panic!("the page is not resident");
    };
    let FaultStep::Prepare(plan) = begin_page(host, open, true) else {
        panic!("a slot is free");
    };
    assert!(host.volumes[&VOLUME].filling.contains(&u64::from(page)));
    assert!(matches!(slot_prepared(host, open, plan), FaultStep::FillZero));
    end_page(host, open);
    assert!(!host.volumes[&VOLUME].filling.contains(&u64::from(page)));
}

/// Puts what was captured into one file.
fn build_files(batch: &CaptureBatch, config: VolumeConfig) -> Vec<WrittenFile> {
    let plan = &batch.job.plan;
    let entries: Vec<_> = batch
        .job
        .pages
        .iter()
        .enumerate()
        .map(|(slot, captured)| {
            let loc = PageFileLoc {
                base: 0,
                fence: plan.fence,
                object: plan.first_object,
                offset: (slot * PAGE) as u32,
                len: PAGE as u32,
            };
            (captured.page, PageEntry { generation: captured.generation, loc })
        })
        .collect();
    if entries.is_empty() {
        return Vec::new();
    }
    let reference = ObjectRef {
        identity: ObjectIdentity::volume(VOLUME, plan.fence, plan.first_object),
        first_key: config.key(entries[0].0 as u32),
        last_key: config.key(entries[entries.len() - 1].0 as u32),
        max_seq: plan.seq,
        batch_id: plan.first_object,
        object_checksum: 0,
        footer_offset: 0,
        footer_length: 0,
    };
    let bytes = (entries.len() * PAGE) as u64;
    vec![WrittenFile { object: plan.first_object, bytes, entries, reference, has_tombstone: false }]
}

/// Captures the volume on a device that always succeeds.
fn capture(
    host: &mut HostState,
    kind: CaptureKind,
    reservation: Option<u64>,
    checkpoint: Option<Checkpoint>,
    prepared: Vec<PreparedRescue>,
) -> Option<Finished> {
    assert!(matches!(reset_archive(host, VOLUME), ResetStep::Ready));
    let complete = captures_all(host, VOLUME, checkpoint);
    let mut step =
        begin_capture(host, VOLUME, kind, reservation, checkpoint, complete, &prepared);
    loop {
        step = match step {
            CaptureStep::Refused => return None,
            CaptureStep::Finished { finished, .. } => return Some(finished),
            CaptureStep::GiveUp | CaptureStep::Failed => panic!("the device succeeds"),
            step => advance(host, step),
        }
    }
}

/// Does what a capture asks for, on a device that always succeeds.
fn advance(host: &mut HostState, step: CaptureStep) -> CaptureStep {
    match step {
        CaptureStep::Protect(job) => pages_protected(job, true),
        CaptureStep::Read(job) => page_read(host, job, vec![0; PAGE]),
        CaptureStep::Resume { paused, valid } => guest_resumed(paused, valid, true),
        CaptureStep::Rescue(job) => take_rescues(host, job),
        CaptureStep::Sum(job) => {
            let sums: Vec<u64> = job.pages.iter().map(|page| page.generation * 3 + 1).collect();
            pages_summed(host, job, &sums, &vec![11; 2])
        }
        CaptureStep::Build(batch) => {
            let files = build_files(&batch, host.volumes[&VOLUME].config);
            files_built(host, batch, files)
        }
        CaptureStep::WriteFile(job) => file_written(host, job, true),
        CaptureStep::WriteRecord(job) => {
            write_record(host, &job.record);
            record_written(host, job, true)
        }
        over => over,
    }
}

/// The pages of a file that is given up.
fn rescue_of(host: &HostState, page: u64) -> PreparedRescue {
    let entry = host.volumes[&VOLUME].page_locs[&page];
    PreparedRescue {
        victim_fence: entry.loc.fence,
        victim_object: entry.loc.object,
        entries: vec![RescueEntry { page, entry, bytes: vec![0; PAGE] }],
    }
}

/// Checkpoints the volume; the guest is paused and resumed.
fn checkpoint(host: &mut HostState, req: u64, vmstate: u64) -> u64 {
    let CheckpointStep::Pause { incarnation, epoch } = start_checkpoint(host, VOLUME, req, 0, false)
    else {
        panic!("the volume is free");
    };
    let mut paused = PausedGuest::hold(host, VOLUME, incarnation).expect("the guest runs");
    let taken = Checkpoint { req: Some(req), epoch, vmstate, vmstate_length: 8 };
    capture(host, CaptureKind::Checkpoint, Some(incarnation), Some(taken), Vec::new())
        .expect("reserved");
    assert!(paused.must_resume(host));
    assert_eq!(paused.release(host), Vec::<u64>::new());
    assert!(!paused.must_resume(host));
    assert_eq!(
        memory_captured(VOLUME, epoch, true, true),
        CheckpointStep::Reply(Ok(AdminSuccess::CheckpointDone { volume: VOLUME, epoch }))
    );
    epoch
}

fn commit_record(seq: u64, fence: u64, capture_seq: u64, covered: u64) -> VolumeRecord {
    VolumeRecord {
        config: VolumeConfig::data(4),
        seq,
        fence,
        kind: VolumeRecordKind::Commit,
        capture_seq,
        sync_covered_through: covered,
        post_state_checksum: 0,
        files: Vec::new(),
        page_index: BTreeMap::new(),
        migrated_from: None,
    }
}

fn assignment(membership_epoch: u64) -> StashAssignment {
    StashAssignment {
        assignment_epoch: 1,
        active_peer: HostId(1),
        active_assignment_epoch: 1,
        transition_peer: None,
        membership_epoch,
    }
}

#[test]
fn operational_snapshot_tracks_dirty_and_parked_state() {
    let mut host = created_host(VolumeKind::Data);
    touch(&mut host, 0, true);
    assert!(host.volumes[&VOLUME].pages[&0].dirty);

    let stats = host_stats(&host, 8);
    assert_eq!(stats.cache_capacity_pages, 8);
    assert_eq!((stats.resident_pages, stats.dirty_pages), (1, 1));
    assert_eq!(stats.volumes.len(), 1);
    let volume = &stats.volumes[0].1;
    assert_eq!(volume.role, VolumeRole::Serving);
    assert_eq!((volume.dirty_pages, volume.unstable_pages), (1, 1));
    assert_eq!(volume.archive_lag_bytes, Some(0));
    assert_eq!(host.counters.guest_pages_dirtied, 1);
}

#[test]
fn checkpoint_retries_replay_their_outcome() {
    let mut host = created_host(VolumeKind::Memory);
    let epoch = checkpoint(&mut host, 1, 42);
    assert_eq!(epoch, 1);
    {
        // The second keeper has the checkpoint too.
        let state = host.volumes.get_mut(&VOLUME).expect("open");
        let record = state.best_record.as_ref().expect("captured").duplicate();
        assert_eq!(
            record.kind,
            VolumeRecordKind::Checkpoint { epoch: 1, vmstate: 42, vmstate_length: 8 }
        );
        state.peer_committed = Some(record.commit_info());
        state.peer_committed_record = Some(record);
    }
    // The creation record is superseded.
    assert_eq!(
        superseded_records(&host.volumes[&VOLUME]),
        vec![SupersededRecord { fence: 1, seq: 0 }]
    );
    assert_eq!(host.counters.checkpoints_done, 1);

    let retried = start_checkpoint(&mut host, VOLUME, 1, 0, false);
    assert_eq!(
        retried,
        CheckpointStep::Reply(Ok(AdminSuccess::CheckpointDone { volume: VOLUME, epoch: 1 }))
    );
    assert_eq!(host.counters.checkpoints_done, 1, "no second capture");
}

#[test]
fn earlier_answers_outlast_later_checkpoints() {
    let mut host = created_host(VolumeKind::Memory);
    assert_eq!(checkpoint(&mut host, 1, 42), 1);
    assert_eq!(checkpoint(&mut host, 2, 43), 2);
    for (req, epoch) in [(1, 1), (2, 2), (1, 1)] {
        assert_eq!(
            start_checkpoint(&mut host, VOLUME, req, 0, false),
            CheckpointStep::Reply(Ok(AdminSuccess::CheckpointDone { volume: VOLUME, epoch }))
        );
    }
    assert_eq!(host.volumes[&VOLUME].epoch, 2);
    assert_eq!(checkpoint(&mut host, 3, 44), 3);
}

#[test]
fn overlapping_recapture_preserves_running_checkpoint_recovery_kind() {
    let mut host = created_host(VolumeKind::Memory);
    touch(&mut host, 0, true);
    let CheckpointStep::Pause { incarnation, epoch } =
        start_checkpoint(&mut host, VOLUME, 2, 0, false)
    else {
        panic!("the volume is free");
    };
    let mut paused = PausedGuest::hold(&mut host, VOLUME, incarnation).expect("the guest runs");
    let taken = Checkpoint { req: Some(2), epoch, vmstate: 17, vmstate_length: 8 };
    let complete = captures_all(&host, VOLUME, Some(taken));
    let mut step = begin_capture(
        &mut host,
        VOLUME,
        CaptureKind::Checkpoint,
        Some(incarnation),
        Some(taken),
        complete,
        &Vec::new(),
    );
    while !matches!(step, CaptureStep::WriteFile(_)) {
        step = advance(&mut host, step);
    }

    // A recapture cannot overtake the checkpoint's own writes: it waits for them,
    // and with no write in between it takes the same state.
    assert!(capture(&mut host, CaptureKind::Writeback, None, None, Vec::new()).is_none());
    while !matches!(step, CaptureStep::Finished { .. }) {
        step = advance(&mut host, step);
    }
    assert_eq!(paused.release(&mut host), Vec::<u64>::new());
    let rescue = rescue_of(&host, 0);
    capture(&mut host, CaptureKind::Writeback, None, None, vec![rescue]).expect("recaptured");
    assert!(matches!(
        host.volumes[&VOLUME].best_record.as_ref().map(|r| r.kind),
        Some(VolumeRecordKind::Checkpoint { epoch: 1, vmstate: 17, .. })
    ));
}

#[test]
fn same_state_recapture_preserves_checkpoint_recovery_kind() {
    let mut host = created_host(VolumeKind::Memory);
    touch(&mut host, 0, true);
    let _ = checkpoint(&mut host, 3, 23);
    assert!(matches!(
        host.volumes[&VOLUME].best_record.as_ref().map(|r| r.kind),
        Some(VolumeRecordKind::Checkpoint { .. })
    ));

    // Giving up a sparse file captures the same state under a newer number.
    let rescue = rescue_of(&host, 0);
    let seq_before = host.volumes[&VOLUME].best_record.as_ref().expect("captured").seq;
    capture(&mut host, CaptureKind::Writeback, None, None, vec![rescue]).expect("recaptured");
    let best = host.volumes[&VOLUME].best_record.as_ref().expect("captured");
    assert!(best.seq > seq_before);
    assert!(matches!(best.kind, VolumeRecordKind::Checkpoint { .. }));
}

#[test]
fn adversarial_guests_are_rejected_without_collateral() {
    let mut host = created_host(VolumeKind::Data);
    let memory = 70;
    host.insert_fresh_volume(memory, VolumeConfig::memory(4));
    host.volumes.get_mut(&memory).expect("inserted").ready = true;

    assert_eq!(admit_fault(&mut host, 999, 0), None);
    assert_eq!(admit_fault(&mut host, VOLUME, 4), None);
    assert_eq!(admit_sync(&mut host, memory, 5, true), SyncDecision::Rejected);
    assert_eq!(host.counters.guest_rejected, 3);

    // The volume itself is unharmed: a legitimate zero-fill still works.
    touch(&mut host, 0, false);
    assert!(!host.volumes[&VOLUME].pages[&0].dirty);
    assert_eq!(host.counters.zero_fills, 1);
}

#[test]
fn peer_stashed_sync_never_acks_from_local_record_durability() {
    let mut host = created_host(VolumeKind::Data);
    touch(&mut host, 0, true);

    assert_eq!(admit_sync(&mut host, VOLUME, 9, true), SyncDecision::Pending);
    let finished =
        capture(&mut host, CaptureKind::Writeback, None, None, Vec::new()).expect("dirty");
    assert!(!finished.syncs.iter().any(|sync| sync.id == 9));
    let state = &host.volumes[&VOLUME];
    assert!(state.local_covered_through > 0);
    assert_eq!(state.sync_ack_through, 0);
    assert_eq!(
        state.pending_syncs,
        vec![PendingSync { id: 9, barrier: state.local_covered_through }]
    );
}

#[test]
fn completing_older_head_cas_preserves_newer_upload_notice() {
    let mut host = created_host(VolumeKind::Data);
    let older = commit_record(1, 1, 1, 1);
    let newer = commit_record(2, 1, 2, 2);
    let older_info = older.commit_info();
    let newer_info = newer.commit_info();
    {
        let state = host.volumes.get_mut(&VOLUME).expect("created volume");
        state.stash_assignment = Some(assignment(6));
        state.head_version = Some(1);
        state.peer_committed = Some(older_info);
        state.peer_committed_record = Some(older);
    }

    let incarnation = start_publication(&mut host, VOLUME).expect("nothing is published");
    let pointer = |info: ReplicaCommitInfo, seq| ManifestPtr {
        fence: info.writer_fence,
        seq,
        journal_seq: info.seq,
        capture_seq: info.sync_covered_through,
        checksum: 0,
    };
    let upload = |host: &mut HostState, seq| {
        let PublicationStep::Load { snapshot, forced: false } =
            next_publication(host, VOLUME, incarnation)
        else {
            panic!("a commit is not published");
        };
        let older = pointer(snapshot.commit, seq);
        let PublicationStep::Check(job) =
            previous_loaded(host, VOLUME, incarnation, snapshot, false, Some(None))
        else {
            panic!("there is nothing to upload");
        };
        let PublicationStep::Bound(job) =
            files_checked(host, VOLUME, incarnation, job, true, 8, None, 0)
        else {
            panic!("the files add up");
        };
        let short = ArchivePlan {
            manifest: Manifest {
                added: job.plan.manifest.added.clone(),
                removed: job.plan.manifest.removed.clone(),
                ..job.plan.manifest
            },
            list: None,
        };
        let PublicationStep::WriteList(job) =
            manifest_bounded(host, VOLUME, incarnation, job, Some(short))
        else {
            panic!("the first state has a list");
        };
        let PublicationStep::WritePending(job) = list_written(host, VOLUME, incarnation, job, true)
        else {
            panic!("the list is written");
        };
        let PublicationStep::WriteManifest(job) =
            pending_written(host, VOLUME, incarnation, job, Some(older))
        else {
            panic!("the manifest is kept");
        };
        manifest_written(host, VOLUME, incarnation, job, true)
    };
    let PublicationStep::WriteHead { job, write } = upload(&mut host, 0) else {
        panic!("older upload starts a head CAS");
    };
    assert_eq!(write.expected, 1);

    {
        let state = host.volumes.get_mut(&VOLUME).expect("created volume");
        state.peer_committed = Some(newer_info);
        state.peer_committed_record = Some(newer);
    }
    assert!(
        start_publication(&mut host, VOLUME).is_none(),
        "the newer notice waits behind the in-flight CAS"
    );

    assert!(matches!(
        publication_head_written(&mut host, VOLUME, incarnation, job, write, Ok(2)),
        PublicationStep::Published
    ));
    let PublicationStep::WriteHead { write, .. } = upload(&mut host, 1) else {
        panic!("next head");
    };
    assert_eq!(write.expected, 2);
    assert!(
        write.head.manifest.is_some_and(|ptr| ptr.journal_seq == newer_info.seq),
        "completing the older CAS must immediately publish the queued newer notice"
    );
}

#[test]
fn store_only_restore_refuses_a_head_with_peer_residue() {
    let head = HeadRecord {
        volume: VOLUME,
        holder: HostId(0),
        fence: 4,
        manifest: Some(ManifestPtr {
            fence: 4,
            seq: 8,
            journal_seq: 8,
            capture_seq: 11,
            checksum: 0,
        }),
        stash: Some(assignment(6)),
        retired_stashes: Vec::new(),
    };
    assert_eq!(
        admit_store_restore(&head),
        Err(AdminError::Rejected),
        "store-only restore must not claim an older point while peer residue may be newer"
    );
    let covered = HeadRecord { stash: None, ..head };
    assert_eq!(admit_store_restore(&covered), Ok(()));
}

#[test]
fn peer_stashed_creation_publishes_exactly_one_deterministic_stash() {
    let roster = vec![candidate(1, 1, 2, false), candidate(2, 3, 3, false)];
    let ranked = rank_stash_candidates(&roster, HostId(0), 1);
    let head = new_head(VOLUME, HostId(0), initial_stash(&ranked, 6));
    let stash = head.stash.expect("one stash assignment");
    assert!(matches!(stash.active_peer, HostId(1 | 2)));
    assert_eq!(stash.transition_peer, None);
    assert_eq!(stash.membership_epoch, 6);
    assert_eq!(stash.assignment_epoch, 1);
}

#[test]
fn assignment_epochs_cycle_deterministically_without_authorizing_fanout() {
    let roster: Vec<_> = (0..5).map(|host| candidate(host, 1, host + 1, false)).collect();
    let ranked = rank_stash_candidates(&roster, HostId(0), 1);
    assert_eq!(ranked.len(), 4);
    for assignment_epoch in 1..=20u64 {
        let index = usize::try_from(assignment_epoch - 1).expect("test epoch fits");
        let expected = ranked[index % ranked.len()].host;
        for candidate in &ranked {
            assert_eq!(
                keeper_authorized(&ranked, assignment_epoch, candidate.host),
                candidate.host == expected,
                "epoch {assignment_epoch} must authorize exactly one cyclic candidate"
            );
        }
    }
}

#[test]
fn assignment_cas_conflict_rereads_authority_without_seeding_a_peer() {
    let mut host = created_host(VolumeKind::Data);
    let before = host.volumes[&VOLUME].stash_assignment;
    let step = assignment_written(
        &mut host.counters,
        Err(StoreError::Fault(StoreFault::CasConflict { actual: Some(9) })),
    );
    assert_eq!(host.volumes[&VOLUME].stash_assignment, before);
    assert!(matches!(step, AssignmentWritten::Again));
}

#[test]
fn claimed_recovery_head_releases_the_store_covered_active_residue() {
    let mut host = created_host(VolumeKind::Data);
    {
        let state = host.volumes.get_mut(&VOLUME).expect("volume");
        state.fence = 2;
        state.best_record = Some(commit_record(3, 2, 4, 5));
        state.operations.recovery = Some(Verdict::ColdBoot);
    }
    let pointer =
        ManifestPtr { fence: 2, seq: 3, journal_seq: 3, capture_seq: 4, checksum: 77 };
    let head = HeadRecord {
        volume: VOLUME,
        holder: HostId(0),
        fence: 2,
        manifest: Some(pointer),
        stash: Some(assignment(6)),
        retired_stashes: Vec::new(),
    };
    let found = FoundHead { version: 3, record: Some(head) };
    let ReconcileStep::Load { version, head } =
        head_found(&mut host, VOLUME, Ok(Some(found)), None)
    else {
        panic!("the archive is loaded");
    };
    let closure = archive_closure(None, Vec::new(), &Vec::new());
    let ReconcileStep::Manifest { pointer, pending, wait: false } =
        archive_loaded(&mut host, VOLUME, version, head, Some(closure), None, Some(6))
    else {
        panic!("the manifest is read");
    };
    let manifest = ManifestSummary {
        writer_fence: 2,
        journal_seq: 3,
        archive_seq: 3,
        capture_seq: 4,
        metadata_checksum: 99,
    };
    let found = FoundManifest { checksum: 77, summary: Some(manifest) };
    assert!(matches!(
        manifest_found(&mut host, VOLUME, pointer, pending, Ok(Some(found)), 99),
        ReconcileStep::End(RecoveryEnd::Open(Some(Verdict::ColdBoot)))
    ));
    assert_eq!(
        published_release(&host.volumes[&VOLUME], VOLUME),
        Some(ReplicaRelease {
            peer: HostId(1),
            volume: VOLUME,
            assignment_epoch: 1,
            through: ReplicaCommitInfo { writer_fence: 2, seq: 3, sync_covered_through: 5 },
        })
    );
}

#[test]
fn recovered_peer_stash_fences_on_membership_epoch_mismatch() {
    let mut host = created_host(VolumeKind::Data);
    let head = HeadRecord {
        volume: VOLUME,
        holder: HostId(0),
        fence: 2,
        manifest: None,
        stash: Some(assignment(7)),
        retired_stashes: Vec::new(),
    };
    let closure = archive_closure(None, Vec::new(), &Vec::new());
    let step = archive_loaded(&mut host, VOLUME, 2, head, Some(closure), None, Some(1));
    assert!(matches!(
        step,
        ReconcileStep::End(RecoveryEnd::Fenced(Some(pages))) if pages.is_empty()
    ));
    assert!(!host.volumes.contains_key(&VOLUME));
    assert_eq!(host.counters.fenced, 1);
}

#[test]
fn legacy_backup_head_is_upgraded_to_a_passive_assignment_before_recovery_opens() {
    let mut host = created_host(VolumeKind::Data);
    {
        let state = host.volumes.get_mut(&VOLUME).expect("volume");
        state.ready = false;
        state.operations.recovery = Some(Verdict::ColdBoot);
        state.stash_assignment = None;
        state.peer_committed = None;
        state.peer_committed_record = None;
    }
    let legacy_head = HeadRecord {
        volume: VOLUME,
        holder: HostId(0),
        fence: 1,
        manifest: None,
        stash: None,
        retired_stashes: Vec::new(),
    };
    let closure = archive_closure(None, Vec::new(), &Vec::new());
    let ReconcileStep::Upgrade { version: 3, upgrade, closure } =
        archive_loaded(&mut host, VOLUME, 3, legacy_head, Some(closure), test_stash(1), Some(1))
    else {
        panic!("legacy head gets one fenced passive assignment");
    };
    assert!(host.volumes[&VOLUME].operations.recovery.is_some());
    let assignment = upgrade.head.stash.expect("passive assignment");
    assert_eq!(assignment.assignment_epoch, 1);
    assert_eq!(assignment.transition_peer, None);
    assert!(matches!(
        upgrade_written(&mut host, VOLUME, upgrade, closure, Ok(4)),
        ReconcileStep::End(RecoveryEnd::Open(Some(Verdict::ColdBoot)))
    ));
    // The new keeper is brought up to date next.
    assert_eq!(
        host.volumes[&VOLUME].stash_assignment.map(|stash| stash.active_peer),
        Some(assignment.active_peer)
    );
    assert!(work_ready(&host, VOLUME).contains(&ScheduledWork::Replicate));
    assert!(host.volumes[&VOLUME].ready);
}

#[test]
fn legacy_local_recovery_creates_its_first_head_before_opening() {
    let mut host = created_host(VolumeKind::Data);
    {
        let state = host.volumes.get_mut(&VOLUME).expect("volume");
        state.ready = false;
        state.operations.recovery = Some(Verdict::ColdBoot);
        state.head_version = None;
        state.stash_assignment = None;
    }
    let ReconcileStep::Create { head, stash } =
        head_found(&mut host, VOLUME, Ok(None), test_stash(1))
    else {
        panic!("legacy local recovery creates a fenced head");
    };
    assert_eq!(head.fence, 0);
    assert!(matches!(
        first_head_written(&mut host, VOLUME, stash, Ok(1)),
        ReconcileStep::End(RecoveryEnd::Open(Some(Verdict::ColdBoot)))
    ));
    assert!(host.volumes[&VOLUME].ready);
    assert!(host.volumes[&VOLUME].stash_assignment.is_some());
}

#[test]
fn archive_source_frontier_is_scoped_to_one_writer_fence() {
    let frontier = Some((9, 40));
    assert!(source_object_is_covered(frontier, 9, 40));
    assert!(source_object_is_covered(frontier, 9, 12));
    assert!(!source_object_is_covered(frontier, 9, 41));
    assert!(!source_object_is_covered(frontier, 10, 1));
}

#[test]
fn scheduled_volume_batches_rotate_past_continuously_rescheduled_low_ids() {
    let mut host = HostState::new(HostId(1), None, 0);
    for volume in 1..=128 {
        host.insert_fresh_volume(volume, VolumeConfig::data(1));
        host.schedule_volume(volume);
    }
    let first = host.take_scheduled_volumes(64);
    assert_eq!(first, (1..=64).collect::<Vec<_>>());
    for volume in first {
        host.schedule_volume(volume);
    }
    assert_eq!(host.take_scheduled_volumes(64), (65..=128).collect::<Vec<_>>());
}

#[test]
fn published_record_is_not_replicated_again_until_local_state_advances() {
    let volume = 129;
    let config = VolumeConfig::data(8);
    let mut host = HostState::new(HostId(1), None, 0);
    host.insert_fresh_volume(volume, config);
    let record = VolumeRecord { config, ..commit_record(1, 4, 1, 1) };
    let state = host.volumes.get_mut(&volume).expect("inserted volume");
    state.ready = true;
    state.stash_assignment = Some(assignment(1));
    state.best_record = Some(record.duplicate());
    state.peer_published = Some(ReplicaCommitInfo {
        writer_fence: record.fence,
        seq: record.seq,
        sync_covered_through: record.sync_covered_through,
    });
    assert!(
        work_ready(&host, volume).iter().all(|work| !matches!(work, ScheduledWork::Replicate))
    );

    let mut newer = record;
    newer.seq = 2;
    newer.capture_seq = 2;
    newer.sync_covered_through = 2;
    host.volumes.get_mut(&volume).expect("inserted volume").best_record = Some(newer);
    assert!(
        work_ready(&host, volume).iter().any(|work| matches!(work, ScheduledWork::Replicate))
    );
}

#[test]
fn inbound_fence_is_above_every_surviving_local_artifact_namespace() {
    let volume = 156;
    let mut host = HostState::new(HostId(8), None, 0);
    record_blob(
        &mut host,
        VolumeBlob { volume, fence: 4, kind: VolumeBlobKind::File, number: 9 },
        1,
    );
    record_blob(
        &mut host,
        VolumeBlob { volume, fence: 6, kind: VolumeBlobKind::Record, number: 11 },
        1,
    );

    assert_eq!(available_inbound_fence(&host, volume, 3), Some(7));
    assert_eq!(available_inbound_fence(&host, volume, 20), Some(20));
    assert_eq!(available_inbound_fence(&host, 157, 3), Some(3));
    record_blob(
        &mut host,
        VolumeBlob { volume, fence: u64::MAX, kind: VolumeBlobKind::Record, number: 0 },
        1,
    );
    assert_eq!(available_inbound_fence(&host, volume, 3), None);
}

#[test]
fn a_published_state_is_not_published_again() {
    let mut host = created_host(VolumeKind::Data);
    {
        let state = host.volumes.get_mut(&VOLUME).expect("volume");
        state.peer_committed_record = Some(commit_record(1, 1, 1, 1));
    }
    let incarnation = start_publication(&mut host, VOLUME).expect("free");
    let snapshot = publish_snapshot(&host, VOLUME, incarnation).expect("commit");
    let pointer = ManifestPtr { fence: 1, seq: 0, journal_seq: 1, capture_seq: 1, checksum: 0 };
    assert!(finish_publication(&mut host, VOLUME, incarnation, 2, pointer, &snapshot));
    let again = publish_snapshot(&host, VOLUME, incarnation).expect("commit");
    assert!(already_published(&again));
    host.volumes.get_mut(&VOLUME).expect("volume").publication_waiters.push(5);
    assert_eq!(end_publication(&mut host, VOLUME, incarnation), vec![5]);
    assert!(start_publication(&mut host, VOLUME).is_some());
}

#[test]
fn a_checkpoint_of_data_needs_no_pause() {
    let mut host = created_host(VolumeKind::Data);
    touch(&mut host, 1, true);
    let CheckpointStep::Capture { incarnation, epoch: 1 } =
        start_checkpoint(&mut host, VOLUME, 8, 0, false)
    else {
        panic!("the volume is free");
    };
    assert_eq!(start_checkpoint(&mut host, VOLUME, 9, 77, false), CheckpointStep::Wait);
    let finished =
        capture(&mut host, CaptureKind::Checkpoint, Some(incarnation), None, Vec::new())
            .expect("reserved");
    assert_eq!(finished.waiters, vec![77]);
    let record = host.volumes[&VOLUME].best_record.as_ref().expect("captured").duplicate();
    assert_eq!(
        data_captured(&mut host, VOLUME, 8, incarnation, 1, Some(record)),
        CheckpointStep::Reply(Ok(AdminSuccess::CheckpointDone { volume: VOLUME, epoch: 1 }))
    );
    assert_eq!(host.volumes[&VOLUME].checkpoint_results[&8], 1);
    assert!(host.volumes[&VOLUME].pinned.is_some());
    assert_eq!(data_captured(&mut host, VOLUME, 8, incarnation, 1, None), CheckpointStep::Silent);
    assert_eq!(start_checkpoint(&mut host, 999, 8, 0, false), CheckpointStep::Silent);
    assert_eq!(
        start_checkpoint(&mut host, 999, 8, 0, true),
        CheckpointStep::Reply(Err(AdminError::Rejected))
    );
    host.volumes.get_mut(&VOLUME).expect("open").ready = false;
    assert_eq!(
        start_checkpoint(&mut host, VOLUME, 10, 0, false),
        CheckpointStep::Reply(Err(AdminError::Rejected))
    );
    assert_eq!(memory_captured(VOLUME, 1, true, false), CheckpointStep::Silent);
}

#[test]
fn a_checkpoint_keeps_the_files_of_its_device_state() {
    let mut host = created_host(VolumeKind::Memory);
    touch(&mut host, 0, true);
    let _ = checkpoint(&mut host, 1, 42);
    let state = &host.volumes[&VOLUME];
    let record = state.best_record.as_ref().expect("captured");
    assert_eq!(state.vmm_files, vec![record.files[0].identity]);
    assert_eq!(state.pinned.as_ref().map(|pinned| pinned.seq), Some(record.seq));
    assert_eq!(state.epoch, 1);
    // Pages and two blocks of device state are known by their sums.
    assert_eq!(state.blocks.len(), 3);
}

#[test]
fn a_guest_write_during_a_capture_is_not_in_it() {
    let mut host = created_host(VolumeKind::Data);
    touch(&mut host, 0, true);
    let step =
        begin_capture(&mut host, VOLUME, CaptureKind::Writeback, None, None, false, &Vec::new());
    let CaptureStep::Protect(job) = step else {
        panic!("a dirty page is protected");
    };
    assert_eq!(job.plan.protect, vec![0]);
    let CaptureStep::Read(job) = pages_protected(job, true) else {
        panic!("the page is read");
    };
    let (Some(open), FaultStep::Save) = take_fault(&mut host, fault(0, true)) else {
        panic!("the page is saved before the write");
    };
    assert!(matches!(page_saved(&mut host, open, vec![1; PAGE]), FaultStep::Unprotect));
    assert_eq!(host.counters.cow_captures, 1);
    let CaptureStep::Rescue(job) = page_read(&mut host, job, vec![2; PAGE]) else {
        panic!("all pages are read");
    };
    assert_eq!(job.pages[0].bytes, vec![1; PAGE]);
    let incarnation = job.plan.incarnation;
    assert_eq!(give_up_capture(&mut host, VOLUME, incarnation), vec![0]);
    assert!(host.volumes[&VOLUME].operations.mutation_blocked());
    let waiters = capture_released(&mut host, VOLUME, incarnation, CaptureKind::Writeback);
    assert_eq!(waiters, Vec::<u64>::new());
    assert!(host.volumes[&VOLUME].operations.mutation.is_none());
    assert_eq!(host.volumes[&VOLUME].best_record.as_ref().map(|record| record.seq), Some(0));
}

#[test]
fn a_capture_that_fails_changes_no_record() {
    let mut host = created_host(VolumeKind::Data);
    let none = Vec::new();
    assert!(matches!(
        begin_capture(&mut host, VOLUME, CaptureKind::Writeback, None, None, false, &none),
        CaptureStep::Refused
    ));
    touch(&mut host, 0, true);
    let CaptureStep::Protect(job) =
        begin_capture(&mut host, VOLUME, CaptureKind::Writeback, None, None, false, &none)
    else {
        panic!("a dirty page is protected");
    };
    let incarnation = job.plan.incarnation;
    assert!(matches!(pages_protected(job, false), CaptureStep::Failed));
    let _ = give_up_capture(&mut host, VOLUME, incarnation);
    let _ = capture_released(&mut host, VOLUME, incarnation, CaptureKind::Writeback);
    host.ledger.capacity = Some(100);
    touch(&mut host, 1, true);
    let CaptureStep::Protect(job) =
        begin_capture(&mut host, VOLUME, CaptureKind::Writeback, None, None, false, &none)
    else {
        panic!("a dirty page is protected");
    };
    assert_eq!(job.plan.seq, 2, "numbers that were taken stay taken");
    assert_eq!((&job.plan.protect, &job.plan.pages), (&vec![1], &vec![0, 1]));
    let CaptureStep::Read(job) = pages_protected(job, true) else {
        panic!("the first page is read");
    };
    let CaptureStep::Read(job) = page_read(&mut host, job, vec![3; PAGE]) else {
        panic!("the second page is read");
    };
    let CaptureStep::Rescue(job) = page_read(&mut host, job, vec![4; PAGE]) else {
        panic!("all pages are read");
    };
    let CaptureStep::Sum(job) = take_rescues(&mut host, job) else {
        panic!("nothing is taken over");
    };
    let CaptureStep::Build(batch) = pages_summed(&host, job, &vec![5, 6], &Vec::new()) else {
        panic!("the volume is there");
    };
    assert_eq!((batch.pre_checksum, batch.post_checksum), (0, 5 ^ 6));
    let files = build_files(&batch, VolumeConfig::data(4));
    assert!(matches!(files_built(&mut host, batch, files), CaptureStep::GiveUp));
    assert_eq!(host.volumes[&VOLUME].best_record.as_ref().map(|record| record.seq), Some(0));
}

#[test]
fn failed_writeback_keeps_the_mutation_slot_until_pages_are_unprotected() {
    let volume = 154;
    let mut host = HostState::new(HostId(8), Some(0), 0);
    let incarnation = host.insert_fresh_volume(volume, VolumeConfig::memory(1));
    host.volumes.get_mut(&volume).expect("inserted").ready = true;
    let dirty = Fault { volume, page: 0, write: true, write_protected: false, minor: false };
    let (Some(open), FaultStep::Begin) = take_fault(&mut host, dirty) else {
        panic!("the page is not resident");
    };
    let FaultStep::Prepare(plan) = begin_page(&mut host, open, true) else {
        panic!("a slot is free");
    };
    assert!(matches!(slot_prepared(&mut host, open, plan), FaultStep::FillZero));
    end_page(&mut host, open);
    assert_eq!(host.volumes[&volume].mutation_seq, 1);
    assert_eq!(host.take_scheduled_volumes(9).len(), 1);

    let none = Vec::new();
    let kind = CaptureKind::Writeback;
    let CaptureStep::Protect(job) =
        begin_capture(&mut host, volume, kind, None, None, false, &none)
    else {
        panic!("a dirty page is protected");
    };
    let CaptureStep::Read(job) = pages_protected(job, true) else {
        panic!("the page is read");
    };
    let CaptureStep::Rescue(job) = page_read(&mut host, job, vec![1; PAGE]) else {
        panic!("all pages are read");
    };
    let CaptureStep::Sum(job) = take_rescues(&mut host, job) else {
        panic!("nothing is taken over");
    };
    let CaptureStep::Build(batch) = pages_summed(&host, job, &vec![5], &Vec::new()) else {
        panic!("the volume is there");
    };
    let files = build_files(&batch, VolumeConfig::memory(1));
    assert!(matches!(files_built(&mut host, batch, files), CaptureStep::GiveUp), "no room");

    // A checkpoint comes in while the page is still protected.
    assert_eq!(give_up_capture(&mut host, volume, incarnation), vec![0]);
    assert!(host.volumes[&volume].operations.mutation_blocked());
    assert_eq!(host.scheduled_volume_count(), 0);
    assert_eq!(start_checkpoint(&mut host, volume, 1, 77, false), CheckpointStep::Wait);
    assert!(matches!(
        begin_capture(&mut host, volume, kind, None, None, false, &none),
        CaptureStep::Refused
    ));
    assert_eq!(start_migration(&mut host, volume, 78), MigrationStep::Wait);

    // Now it no longer is.
    assert_eq!(capture_released(&mut host, volume, incarnation, kind), vec![77, 78]);
    assert!(!host.volumes[&volume].operations.mutation_blocked());
    assert_eq!(host.take_scheduled_volumes(9), vec![volume]);
    assert!(matches!(
        start_checkpoint(&mut host, volume, 1, 79, true),
        CheckpointStep::Pause { .. }
    ));
}

#[test]
fn a_guest_runs_only_after_its_pages_are_unprotected() {
    let mut host = created_host(VolumeKind::Memory);
    let incarnation = host.volumes[&VOLUME].incarnation;
    let mut paused = PausedGuest::hold(&mut host, VOLUME, incarnation).expect("the guest runs");
    let ResumeStep::Unprotect(pages) = paused.end(&host, vec![3, 4]) else {
        panic!("pages are protected");
    };
    assert_eq!(pages, vec![3, 4]);
    assert!(matches!(paused.unprotected(&host, false), ResumeStep::Failed));
    assert!(matches!(paused.unprotected(&host, true), ResumeStep::Resume));
    let _ = paused.release(&mut host);
    assert!(matches!(paused.end(&host, Vec::new()), ResumeStep::Done));
}

#[test]
fn checkpoints_are_numbered_until_the_numbers_run_out() {
    let mut host = created_host(VolumeKind::Memory);
    let epoch = checkpoint(&mut host, 1, 42);
    assert_eq!(epoch, 1);
    assert_eq!(checkpoint(&mut host, 2, 43), 2, "a new request gets a greater epoch");
    host.volumes.get_mut(&VOLUME).expect("open").epoch = u64::MAX;
    assert_eq!(
        start_checkpoint(&mut host, VOLUME, 1, 0, false),
        CheckpointStep::Reply(Ok(AdminSuccess::CheckpointDone { volume: VOLUME, epoch: 1 }))
    );
}

#[test]
fn head_mutations_are_serialized_per_vset() {
    let mut host = created_host(VolumeKind::Data);
    let current = assignment(6);
    let transition =
        StashAssignment { assignment_epoch: 2, transition_peer: Some(HostId(2)), ..current };
    let record = commit_record(2, 1, 2, 2);
    let info = record.commit_info();
    {
        let state = host.volumes.get_mut(&VOLUME).expect("created volume");
        state.head_version = Some(1);
        state.stash_assignment = Some(current);
        state.peer_committed = Some(info);
        state.peer_committed_record = Some(record);
    }
    let incarnation = start_publication(&mut host, VOLUME).expect("nothing is published");
    assert!(start_publication(&mut host, VOLUME).is_none(), "one write of the head at a time");
    let pointer = ManifestPtr {
        fence: info.writer_fence,
        seq: info.seq,
        journal_seq: info.seq,
        capture_seq: info.sync_covered_through,
        checksum: 0,
    };
    let write = plan_head(&host, VOLUME, incarnation, pointer).expect("publication first");
    assert_eq!(write.expected, 1);
    assert_eq!(write.head.manifest.map(|manifest| manifest.seq), Some(info.seq));

    // Another host has given its copies up: that waits behind the write.
    let retired = RetiredStash { peer: HostId(3), assignment_epoch: 1, through: info };
    let state = host.volumes.get_mut(&VOLUME).expect("created volume");
    state.retired_stashes.push(retired);
    assert!(start_publication(&mut host, VOLUME).is_none(), "the write is still under way");

    assert_eq!(head_written(&mut host.counters, Ok(2)), PublishStep::Published(2));
    let state = host.volumes.get_mut(&VOLUME).expect("created volume");
    state.head_version = Some(2);
    state.stash_assignment = Some(transition);
    let write = plan_head(&host, VOLUME, incarnation, pointer).expect("then the transition");
    assert_eq!(write.expected, 2);
    assert_eq!(write.head.stash, Some(transition));
}

#[test]
fn only_memory_is_captured_to_move() {
    let mut host = created_host(VolumeKind::Data);
    assert_eq!(start_migration(&mut host, VOLUME, 0), MigrationStep::Refused);
    assert_eq!(start_migration(&mut host, 999, 0), MigrationStep::Refused);
    let mut host = created_host(VolumeKind::Memory);
    let MigrationStep::Pause { incarnation, epoch: 1 } = start_migration(&mut host, VOLUME, 0)
    else {
        panic!("the volume is free");
    };
    assert_eq!(start_migration(&mut host, VOLUME, 6), MigrationStep::Wait);
    let mut paused = PausedGuest::hold(&mut host, VOLUME, incarnation).expect("the guest runs");
    assert_eq!(PausedGuest::hold(&mut host, VOLUME, incarnation), None);
    assert_eq!(paused.release(&mut host), vec![6]);
    assert_eq!(paused.release(&mut host), Vec::<u64>::new());
}

#[test]
fn a_lost_head_write_is_settled_by_reading_back() {
    let mut host = created_host(VolumeKind::Data);
    host.volumes.get_mut(&VOLUME).expect("volume").peer_committed_record =
        Some(commit_record(1, 1, 1, 1));
    let incarnation = start_publication(&mut host, VOLUME).expect("free");
    let pointer = ManifestPtr { fence: 1, seq: 0, journal_seq: 1, capture_seq: 1, checksum: 0 };
    let prepare = |host: &mut HostState| {
        let PublicationStep::Load { snapshot, .. } = next_publication(host, VOLUME, incarnation)
        else {
            panic!("a commit is not published");
        };
        let job = blockd_core::engine::publication::HeadJob { snapshot, pointer };
        manifest_written(host, VOLUME, incarnation, job, true)
    };
    let unavailable = StoreError::Fault(StoreFault::Unavailable);
    let PublicationStep::WriteHead { job, write } = prepare(&mut host) else {
        panic!("the head is written");
    };
    let PublicationStep::ReadHead { job, write } =
        publication_head_written(&mut host, VOLUME, incarnation, job, write, Err(unavailable))
    else {
        panic!("the answer is lost");
    };
    assert_eq!(host.counters.store_retries, 1);
    let PublicationStep::HeadLater(job) =
        publication_head_read(&mut host, VOLUME, incarnation, job, &write, Err(unavailable))
    else {
        panic!("the store is unavailable");
    };
    let stale = FoundHead { version: 9, record: Some(new_head(VOLUME, HostId(0), None)) };
    let stale = FoundHead {
        record: stale.record.map(|head| HeadRecord { fence: 1, ..head }),
        ..stale
    };
    let PublicationStep::WriteHead { job, write } =
        publication_head_read(&mut host, VOLUME, incarnation, job, &write, Ok(Some(stale)))
    else {
        panic!("an older head is replaced");
    };
    assert_eq!(write.expected, 9);
    let ours = FoundHead { version: 10, record: Some(write.head) };
    let wanted = blockd_core::engine::heads::HeadWrite {
        expected: 9,
        head: HeadRecord {
            volume: VOLUME,
            holder: HostId(0),
            fence: 1,
            manifest: Some(pointer),
            stash: None,
            retired_stashes: Vec::new(),
        },
    };
    assert!(matches!(
        publication_head_read(&mut host, VOLUME, incarnation, job, &wanted, Ok(Some(ours))),
        PublicationStep::Published
    ));
    assert_eq!(host.volumes[&VOLUME].head_version, Some(10));
    assert_eq!(host.counters.manifests_published, 1);
}

#[test]
fn a_foreign_head_ends_the_publication() {
    let mut host = created_host(VolumeKind::Data);
    host.volumes.get_mut(&VOLUME).expect("volume").peer_committed_record =
        Some(commit_record(1, 1, 1, 1));
    let incarnation = start_publication(&mut host, VOLUME).expect("free");
    let PublicationStep::Load { snapshot, .. } = next_publication(&mut host, VOLUME, incarnation)
    else {
        panic!("a commit is not published");
    };
    let pointer = ManifestPtr { fence: 1, seq: 0, journal_seq: 1, capture_seq: 1, checksum: 0 };
    let job = blockd_core::engine::publication::HeadJob { snapshot, pointer };
    let PublicationStep::WriteHead { job, write } =
        manifest_written(&mut host, VOLUME, incarnation, job, true)
    else {
        panic!("the head is written");
    };
    let foreign = FoundHead { version: 5, record: Some(new_head(VOLUME, HostId(3), None)) };
    let step =
        publication_head_read(&mut host, VOLUME, incarnation, job, &write, Ok(Some(foreign)));
    assert!(matches!(step, PublicationStep::Fenced(Some(_))));
    assert!(!host.volumes.contains_key(&VOLUME));
    assert!(matches!(next_publication(&mut host, VOLUME, incarnation), PublicationStep::Stop));
}

#[test]
fn a_departing_volume_is_not_published() {
    let mut host = created_host(VolumeKind::Data);
    host.volumes.get_mut(&VOLUME).expect("volume").peer_committed_record =
        Some(commit_record(1, 1, 1, 1));
    let incarnation = start_publication(&mut host, VOLUME).expect("free");
    let PublicationStep::Load { snapshot, .. } = next_publication(&mut host, VOLUME, incarnation)
    else {
        panic!("a commit is not published");
    };
    host.volumes.get_mut(&VOLUME).expect("volume").outbound = true;
    let pointer = ManifestPtr { fence: 1, seq: 0, journal_seq: 1, capture_seq: 1, checksum: 0 };
    let job = blockd_core::engine::publication::HeadJob { snapshot, pointer };
    assert!(matches!(
        manifest_written(&mut host, VOLUME, incarnation, job, true),
        PublicationStep::Discard
    ));
}
