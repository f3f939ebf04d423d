use blockd_core::database::AttachmentId;
use blockd_core::engine::fault::{
    fetch_sources, verify_entry, ArchiveName, OpenedEntry, ReplicaSource,
};
use blockd_core::engine::fetch::{
    copy_read, find_sources, start_fetch, CopyPlace, FetchStep,
};
use blockd_core::engine::hydration::{
    begin_hydration, copy_deleted, copy_written, leaf_loaded, local_read, store_read,
    HydrateAction, HydrationEnd, LeafEntry, LeafStep, LoadedLeaf, LocalRead, StoredLeaf,
};
use blockd_core::engine::records::{
    blob_step, growth_of, record_blob, reserve_record_copies, settle_record_copies, BlobStep,
};
use blockd_core::engine::schedule::{
    initial_work, interrupted, pick_work, recovery_pending, round_step, work_ready, RoundStep,
    ScheduledWork, StartedWork, WorkRounds, SCHEDULED_WORK_CONCURRENCY,
};
use blockd_core::engine::serving::{
    begin_page, end_page, footer_loaded, page_fetched, slot_prepared, take_fault, Fault,
    FaultStep,
};
use blockd_core::engine::sources::{
    admit_sync, cancel_pending_sync, DatabaseIngress, DatabaseSource, DatabaseWork,
    DetachedDatabaseDrain, SyncDecision, SyncSource, DATABASE_CONCURRENCY, DATABASE_INGRESS_BATCH,
    DATABASE_QUEUE_CAPACITY, SYNC_INGRESS_BATCH, SYNC_QUEUE_CAPACITY,
};
use blockd_core::engine::stash::{
    keeper, rank_stash_candidates, PeerCandidate, ReplicaPlacement, ReplicaPlacements, RosterMember,
};
use blockd_core::engine::state::{
    BaseKey, HostState, ReplicaRelease, VolumeBlob, VolumeBlobKind,
};
use blockd_core::engine::volume::{
    PageEntry, PageFileLoc, PageState, Verdict, VolumeConfig, VolumeRecord, VolumeRecordKind,
};
use blockd_core::head::{ReplicaCommitInfo, StashAssignment};
use blockd_core::journal::{page_key, span_of, LeafPointer, PageLoc, VsetConfig};
use blockd_core::objects::{
    BlockKey, BlockSpace, BlxFooter, EntryKind, FooterEntry, NamespaceKind, ObjectIdentity,
    ObjectRef,
};
use blockd_core::protocol::AdminSuccess;
use blockd_core::store::{BlobError, StoreError, StoreFault};
use blockd_core::types::{HostId, PageId, PageNo, VmId, VolumeId, VolumeIdx, VsetId};
use std::collections::{BTreeMap, BTreeSet};

const VOLUME: u64 = 7;
const UNAVAILABLE: StoreError = StoreError::Fault(StoreFault::Unavailable);

/// A host with one open volume of data.
fn open_host() -> HostState {
    let mut host = HostState::new(HostId(0), None, 0);
    host.insert_fresh_volume(VOLUME, VolumeConfig::data(16));
    let state = host.volumes.get_mut(&VOLUME).expect("inserted");
    state.ready = true;
    state.fence = 3;
    host
}

fn commit(seq: u64, covered: u64) -> ReplicaCommitInfo {
    ReplicaCommitInfo { writer_fence: 3, seq, sync_covered_through: covered }
}

fn assignment() -> StashAssignment {
    StashAssignment {
        assignment_epoch: 4,
        active_peer: HostId(1),
        active_assignment_epoch: 4,
        transition_peer: None,
        membership_epoch: 1,
    }
}

#[test]
fn due_work_comes_in_its_order() {
    let mut host = open_host();
    assert!(work_ready(&host, VOLUME).is_empty());
    assert!(work_ready(&host, 99).is_empty());
    {
        let state = host.volumes.get_mut(&VOLUME).expect("volume");
        state.pages.insert(0, PageState { dirty: true, flushing: false });
        state.peer_source = Some(HostId(2));
        state.stash_assignment = Some(assignment());
        state.peer_committed = Some(commit(1, 0));
        state.best_record = Some(VolumeRecord {
            config: VolumeConfig::data(16),
            seq: 2,
            fence: 3,
            kind: VolumeRecordKind::Commit,
            capture_seq: 0,
            sync_covered_through: 0,
            post_state_checksum: 0,
            files: Vec::new(),
            page_index: BTreeMap::new(),
            migrated_from: None,
        });
    }
    host.releases.push(ReplicaRelease {
        peer: HostId(1),
        volume: VOLUME,
        assignment_epoch: 1,
        through: commit(0, 0),
    });
    let all = vec![
        ScheduledWork::Capture,
        ScheduledWork::Hydrate,
        ScheduledWork::Replicate,
        ScheduledWork::Release,
        ScheduledWork::Archive,
    ];
    assert_eq!(work_ready(&host, VOLUME), all);
    let state = host.volumes.get_mut(&VOLUME).expect("volume");
    state.operations.publication = true;
    state.operations.replication = true;
    assert_eq!(
        work_ready(&host, VOLUME),
        vec![ScheduledWork::Capture, ScheduledWork::Hydrate, ScheduledWork::Release]
    );
    host.releases.clear();
    let state = host.volumes.get_mut(&VOLUME).expect("volume");
    state.ready = false;
    state.outbound = true;
    state.peer_source = None;
    assert_eq!(work_ready(&host, VOLUME), vec![ScheduledWork::Reoffer]);
    let incarnation = host.volumes[&VOLUME].incarnation;
    assert!(interrupted(&host, VOLUME, incarnation));
    assert!(interrupted(&host, VOLUME, incarnation + 1));
}

/// A host with volumes that all wait for a capture.
fn busy_host(volumes: u64) -> HostState {
    let mut host = HostState::new(HostId(0), None, 0);
    for volume in 0..volumes {
        host.insert_fresh_volume(volume, VolumeConfig::data(16));
        let state = host.volumes.get_mut(&volume).expect("inserted");
        state.ready = true;
        state.pages.insert(0, PageState { dirty: true, flushing: false });
        host.schedule_volume(volume);
    }
    host
}

#[test]
fn work_is_started_as_far_as_tasks_are_free() {
    let mut host = busy_host(3);
    let picked = pick_work(&mut host, 0, &BTreeSet::new());
    assert_eq!(picked.examined, 3);
    let first = StartedWork { volume: 0, work: ScheduledWork::Capture };
    assert_eq!((picked.started.len(), picked.started[0]), (3, first));

    let mut host = busy_host(3);
    let picked = pick_work(&mut host, SCHEDULED_WORK_CONCURRENCY - 1, &BTreeSet::new());
    assert_eq!(picked.started, vec![first]);
    assert!(host.scheduled_volume_count() >= 2, "the others keep their turn");

    let mut host = busy_host(2);
    let skipped: BTreeSet<u64> = [0].into_iter().collect();
    let picked = pick_work(&mut host, 0, &skipped);
    assert_eq!(picked.started, vec![StartedWork { volume: 1, work: ScheduledWork::Capture }]);
}

#[test]
fn volumes_that_were_worked_on_wait_for_the_next_round() {
    let mut host = busy_host(2);
    host.take_scheduled_volumes(2);
    let mut rounds = WorkRounds::new();
    rounds.started(100, 1);
    rounds.started(101, 0);
    rounds.ended(100);
    assert!(rounds.worked.contains(&1) && !rounds.worked.contains(&0));
    rounds.begin_round(&mut host, &Vec::new());
    assert_eq!(host.take_scheduled_volumes(9), vec![1]);
    assert!(rounds.worked.is_empty() && rounds.running.len() == 1);
    assert_eq!(round_step(0, 0, 1), RoundStep::Done);
    assert_eq!(round_step(2, 0, 1), RoundStep::Wait);
    assert_eq!(round_step(2, 1, SCHEDULED_WORK_CONCURRENCY), RoundStep::Wait);
    assert_eq!(round_step(2, 1, 1), RoundStep::More);
}

#[test]
fn rounds_begin_with_the_smallest_volume() {
    let mut host = HostState::new(HostId(0), None, 0);
    let mut rounds = WorkRounds::new();
    for (task, volume) in [(1, 9), (2, 3), (3, 5)] {
        rounds.started(task, volume);
        rounds.ended(task);
    }
    rounds.begin_round(&mut host, &vec![4, 3]);
    assert_eq!(host.take_scheduled_volumes(9), vec![3, 5, 9, 4]);
}

#[test]
fn a_starting_host_knows_what_to_reconcile() {
    let mut host = busy_host(4);
    host.volumes.get_mut(&1).expect("volume").operations.recovery = Some(Verdict::ColdBoot);
    host.volumes.get_mut(&1).expect("volume").ready = false;
    host.volumes.get_mut(&2).expect("volume").ready = false;
    host.volumes.get_mut(&3).expect("volume").ready = false;
    host.volumes.get_mut(&3).expect("volume").outbound = true;
    assert_eq!(recovery_pending(&host), vec![1]);
    assert_eq!(initial_work(&host), vec![0, 3]);
}

#[test]
fn synchronisations_are_answered_when_writes_are_durable() {
    let mut host = open_host();
    assert_eq!(admit_sync(&mut host, VOLUME, 1, true), SyncDecision::Acknowledged);
    assert_eq!(admit_sync(&mut host, VOLUME, 2, false), SyncDecision::Rejected);
    assert_eq!(admit_sync(&mut host, 99, 3, true), SyncDecision::Rejected);
    assert_eq!((host.counters.syncs_acked, host.counters.guest_rejected), (1, 2));
    host.volumes.get_mut(&VOLUME).expect("volume").mutation_seq = 5;
    assert_eq!(admit_sync(&mut host, VOLUME, 4, true), SyncDecision::Pending);
    assert_eq!(host.volumes[&VOLUME].pending_syncs[0].barrier, 5);
    assert!(!cancel_pending_sync(&mut host, VOLUME, 9));
    assert!(cancel_pending_sync(&mut host, VOLUME, 4));
    assert!(host.volumes[&VOLUME].pending_syncs.is_empty());
}

#[test]
fn synchronisations_of_one_volume_run_one_by_one() {
    let mut source = SyncSource::new();
    for slot in 0..SYNC_INGRESS_BATCH as u64 {
        let (id, rest) = source.take_in(VOLUME);
        assert_eq!(id, slot);
        assert_eq!(rest, slot + 1 == SYNC_INGRESS_BATCH as u64);
    }
    let (other, _) = source.take_in(8);
    assert_eq!(source.start_next(), Some((VOLUME, 0)));
    assert_eq!(source.start_next(), Some((8, other)));
    assert_eq!(source.start_next(), None);
    source.resolved();
    source.completed(VOLUME);
    assert!(source.cancelled(VOLUME, 1));
    source.resolved();
    assert!(!source.cancelled(VOLUME, 1));
    assert_eq!(source.start_next(), Some((VOLUME, 2)));
    assert!(source.accepts());
    source.close();
    assert!(!source.accepts() && !source.finished());

    let mut full = SyncSource::new();
    for _ in 0..SYNC_QUEUE_CAPACITY {
        assert!(full.accepts());
        let _ = full.take_in(VOLUME);
    }
    assert!(!full.accepts());
    let mut idle = SyncSource::new();
    assert!(!idle.finished());
    idle.close();
    assert!(idle.finished());
}

#[test]
fn databases_refuse_what_they_cannot_queue() {
    let mut source = DatabaseSource::new();
    for id in 0..DATABASE_QUEUE_CAPACITY as u64 {
        let (ingress, rest) = source.request(VsetId(VOLUME), id);
        assert_eq!(ingress, DatabaseIngress::Queued);
        assert_eq!(rest, id + 1 == DATABASE_INGRESS_BATCH as u64);
    }
    assert_eq!(source.request(VsetId(8), 99).0, DatabaseIngress::Busy);
    let drain = DetachedDatabaseDrain {
        vset: VsetId(8),
        attachment: AttachmentId { vm: VmId(1), generation: 1 },
    };
    source.drain(drain);
    assert_eq!(source.start_next(), Some((VOLUME, DatabaseWork::Request(0))));
    assert_eq!(source.start_next(), Some((8, DatabaseWork::Drain(drain))));
    assert_eq!(source.start_next(), None, "one at a time for each");
    assert_eq!(source.request(VsetId(9), 100).0, DatabaseIngress::Queued);
    source.completed(VOLUME);
    source.completed(8);
    source.close_requests();
    assert!(!source.finished());
    source.close_drains();
    assert!(!source.finished(), "requests still wait");
}

#[test]
fn one_keeper_is_chosen_for_each_assignment() {
    let peer = |host, failure_domain, drained, score| PeerCandidate {
        host: HostId(host),
        failure_domain,
        drained,
        score,
    };
    let roster = vec![
        peer(0, 1, false, 900),
        peer(1, 2, false, 10),
        peer(2, 2, true, 800),
        peer(3, 1, false, 700),
        peer(4, 3, false, 20),
    ];
    let ranked = rank_stash_candidates(&roster, HostId(0), 1);
    let hosts: Vec<u16> = ranked.iter().map(|candidate| candidate.host.0).collect();
    assert_eq!(hosts, vec![4, 1], "not itself, not its own domain, not one that is drained");
    assert_eq!(keeper(&ranked, 1), Some(HostId(4)));
    assert_eq!(keeper(&ranked, 2), Some(HostId(1)));
    assert_eq!(keeper(&ranked, 3), Some(HostId(4)));
    assert_eq!(keeper(&Vec::new(), 1), None);
}

const VSET: VsetId = VsetId(5);

fn page(number: u32) -> PageId {
    PageId { volume: VolumeId { vset: VSET, idx: VolumeIdx(0) }, page: PageNo(number) }
}

/// A host with one database of which one leaf is not loaded.
fn hydrating_host() -> (HostState, LeafPointer) {
    let mut host = HostState::new(HostId(0), Some(1000), 0);
    host.insert_fresh(VSET, VsetConfig::database(64));
    let state = host.vsets.get_mut(&VSET.0).expect("inserted");
    state.ready = true;
    let pointer = LeafPointer { base: 0, fence: 1, id: 9 };
    state.leaf_table.insert(span_of(page(0)), pointer);
    (host, pointer)
}

fn leaf() -> LoadedLeaf {
    let loc = PageLoc { base: 0, generation: 4, fence: 1, segment: 6, slot: 0 };
    let entry = |number| LeafEntry { idx: VolumeIdx(0), page: PageNo(number), loc };
    LoadedLeaf { entries: vec![entry(2), entry(63), entry(64)], bytes: 100 }
}

#[test]
fn a_leaf_is_loaded_once_for_all_who_wait() {
    let (mut host, pointer) = hydrating_host();
    let incarnation = host.vsets[&VSET.0].incarnation;
    assert_eq!(
        begin_hydration(&mut host, page(2), incarnation, 1),
        HydrateAction::Load(pointer)
    );
    assert_eq!(begin_hydration(&mut host, page(3), incarnation, 2), HydrateAction::Wait);
    assert_eq!(begin_hydration(&mut host, page(2), incarnation + 1, 3), HydrateAction::Stale);
    let (ended, waiters) = leaf_loaded(&mut host, page(2), incarnation, pointer, Some(leaf()));
    assert_eq!((ended, waiters), (HydrationEnd::Ready, vec![2]));
    let state = &host.vsets[&VSET.0];
    assert!(state.page_locs.contains_key(&page_key(page(2))));
    assert!(!state.page_locs.contains_key(&page_key(page(64))), "the database has no such page");
    assert_eq!(state.next_gen, 5);
    assert_eq!(state.backed_segments, vec![(1, 6)]);
    assert_eq!(begin_hydration(&mut host, page(5), incarnation, 4), HydrateAction::Ready);
}

#[test]
fn a_leaf_that_cannot_be_loaded_is_remembered() {
    let (mut host, pointer) = hydrating_host();
    let incarnation = host.vsets[&VSET.0].incarnation;
    let _ = begin_hydration(&mut host, page(2), incarnation, 1);
    let (ended, waiters) = leaf_loaded(&mut host, page(2), incarnation, pointer, None);
    assert_eq!((ended, waiters), (HydrationEnd::Failed, Vec::new()));
    assert_eq!(begin_hydration(&mut host, page(2), incarnation, 1), HydrateAction::Failed);

    let (mut host, pointer) = hydrating_host();
    let incarnation = host.vsets[&VSET.0].incarnation;
    let _ = begin_hydration(&mut host, page(2), incarnation, 1);
    let newer = LeafPointer { id: 10, ..pointer };
    host.vsets.get_mut(&VSET.0).expect("vset").leaf_table.insert(span_of(page(0)), newer);
    let (ended, _) = leaf_loaded(&mut host, page(2), incarnation, pointer, Some(leaf()));
    assert_eq!(ended, HydrationEnd::Again);
    assert!(host.vsets[&VSET.0].page_locs.is_empty());
}

#[test]
fn a_damaged_leaf_is_replaced_from_the_store() {
    let (mut host, _) = hydrating_host();
    host.ledger.used = 950;
    assert!(matches!(local_read(LocalRead::Intact(leaf()), false), LeafStep::Loaded(_)));
    assert!(matches!(local_read(LocalRead::Missing, false), LeafStep::Failed));
    assert!(matches!(
        local_read(LocalRead::Missing, true),
        LeafStep::ReadStore { replace: false, wait: false }
    ));
    assert!(matches!(
        local_read(LocalRead::Damaged, true),
        LeafStep::ReadStore { replace: true, wait: false }
    ));
    assert!(matches!(
        store_read(&mut host, true, Err(UNAVAILABLE)),
        LeafStep::ReadStore { replace: true, wait: true }
    ));
    assert_eq!(host.counters.store_retries, 1);
    let stored = || Ok(Some(StoredLeaf { leaf: Some(leaf()) }));
    assert!(matches!(store_read(&mut host, false, stored()), LeafStep::Failed), "no room");
    assert!(matches!(
        store_read(&mut host, true, Ok(Some(StoredLeaf { leaf: None }))),
        LeafStep::Failed
    ));
    assert!(matches!(store_read(&mut host, true, Ok(None)), LeafStep::Failed));
    let LeafStep::Delete(damaged) = store_read(&mut host, true, stored()) else {
        panic!("the damaged copy goes first");
    };
    let LeafStep::Write(kept) = copy_deleted(&mut host, damaged, 150, true) else {
        panic!("there is room now");
    };
    assert_eq!((host.ledger.used, host.ledger.reserved), (800, 100));
    assert!(matches!(copy_written(&mut host, kept, true), LeafStep::Loaded(_)));
    assert_eq!((host.ledger.used, host.ledger.reserved), (900, 0));
    assert!(matches!(copy_deleted(&mut host, leaf(), 0, false), LeafStep::Failed));
    assert!(matches!(copy_written(&mut host, leaf(), false), LeafStep::Failed));
}

fn fault(page: u32, write: bool) -> Fault {
    Fault { volume: VOLUME, page, write, write_protected: false, minor: false }
}

fn archived(number: u64) -> ObjectRef {
    let key = BlockKey { space: BlockSpace::Data, block: 2 };
    ObjectRef {
        identity: ObjectIdentity::volume(VOLUME, 3, number),
        first_key: key,
        last_key: key,
        max_seq: 0,
        batch_id: 0,
        object_checksum: 0,
        footer_offset: 500,
        footer_length: 0,
    }
}

fn footer(kind: EntryKind) -> BlxFooter {
    let key = BlockKey { space: BlockSpace::Data, block: 2 };
    let entry =
        FooterEntry { key, generation: 6, kind, offset: 10, length: 20, contribution: 0b1100 };
    BlxFooter { entries: vec![entry] }
}

#[test]
fn an_archived_page_is_found_fetched_and_filled() {
    let mut host = open_host();
    host.volumes.get_mut(&VOLUME).expect("volume").archive_objects = vec![archived(8)];
    let (Some(open), FaultStep::Footer(object)) = take_fault(&mut host, fault(2, false)) else {
        panic!("the footer is not loaded");
    };
    assert_eq!(object, archived(8));
    assert!(matches!(
        footer_loaded(&mut host, open, &object, Some(footer(EntryKind::Data))),
        FaultStep::Begin
    ));
    assert!(matches!(begin_page(&mut host, open, false), FaultStep::WaitForSlot));
    assert_eq!(host.counters.pressure_waits, 1);
    let FaultStep::Prepare(plan) = begin_page(&mut host, open, true) else {
        panic!("a slot is free");
    };
    assert!(matches!(begin_page(&mut host, open, true), FaultStep::WaitForPage));
    let FaultStep::Fetch { entry, source } = slot_prepared(&mut host, open, plan) else {
        panic!("the page is archived");
    };
    assert_eq!((entry.generation, source), (6, None));
    let sources = find_sources(&host, VOLUME, entry, source);
    assert!(sources.local);
    assert_eq!(sources.archive, ArchiveName::Object(archived(8).identity));
    assert!(matches!(page_fetched(&mut host, open, entry, Some(0b1100)), FaultStep::Fill));
    end_page(&mut host, open);
    let state = &host.volumes[&VOLUME];
    assert!(state.filling.is_empty());
    assert_eq!(state.pages[&2], PageState { dirty: false, flushing: false });
    assert_eq!((host.counters.fills, host.counters.guest_pages_dirtied), (1, 0));

    let minor = Fault { minor: true, ..fault(2, false) };
    let (_, step) = take_fault(&mut host, minor);
    assert!(matches!(step, FaultStep::Remap { writable: false }));
    let (_, step) = take_fault(&mut host, fault(2, true));
    assert!(matches!(step, FaultStep::Unprotect));
    assert!(host.volumes[&VOLUME].pages[&2].dirty);
    assert_eq!(host.volumes[&VOLUME].mutation_seq, 1);
}

#[test]
fn faults_that_cannot_be_served_are_counted() {
    let mut host = open_host();
    host.volumes.get_mut(&VOLUME).expect("volume").archive_objects = vec![archived(8)];
    let (taken, step) = take_fault(&mut host, fault(16, false));
    assert!(taken.is_none() && matches!(step, FaultStep::Reject));
    assert_eq!(host.counters.guest_rejected, 1);
    let (Some(open), FaultStep::Footer(object)) = take_fault(&mut host, fault(2, false)) else {
        panic!("the footer is not loaded");
    };
    assert!(matches!(footer_loaded(&mut host, open, &object, None), FaultStep::Reject));
    let other = BlxFooter { entries: Vec::new() };
    assert!(matches!(footer_loaded(&mut host, open, &object, Some(other)), FaultStep::Reject));
    assert_eq!(host.counters.faults_unservable, 2);
    let protected = Fault { write_protected: true, ..fault(3, true) };
    let (Some(open), FaultStep::Begin) = take_fault(&mut host, protected) else {
        panic!("the page is nowhere");
    };
    assert!(matches!(begin_page(&mut host, open, true), FaultStep::Reject));
}

#[test]
fn a_page_that_moved_is_looked_at_again() {
    let mut host = open_host();
    let loc = PageFileLoc { base: 0, fence: 3, object: 1, offset: 0, len: 10 };
    let old = PageEntry { generation: 1, loc };
    host.volumes.get_mut(&VOLUME).expect("volume").page_locs.insert(2, old);
    let (Some(open), FaultStep::Begin) = take_fault(&mut host, fault(2, false)) else {
        panic!("the location is known");
    };
    let FaultStep::Prepare(plan) = begin_page(&mut host, open, true) else {
        panic!("a slot is free");
    };
    let FaultStep::Fetch { entry, .. } = slot_prepared(&mut host, open, plan) else {
        panic!("the page is stored");
    };
    let new = PageEntry { loc: PageFileLoc { object: 2, ..loc }, ..old };
    host.volumes.get_mut(&VOLUME).expect("volume").page_locs.insert(2, new);
    assert!(matches!(page_fetched(&mut host, open, entry, Some(0)), FaultStep::Begin));
    assert!(host.volumes[&VOLUME].filling.is_empty());
    assert!(matches!(page_fetched(&mut host, open, entry, None), FaultStep::Begin));
    assert!(matches!(page_fetched(&mut host, open, new, None), FaultStep::Reject));
    assert_eq!(host.counters.faults_unservable, 1);
}

#[test]
fn pages_of_a_base_are_shared() {
    let mut host = open_host();
    let loc = PageFileLoc { base: 40, fence: 1, object: 1, offset: 30, len: 10 };
    let entry = PageEntry { generation: 1, loc };
    {
        let state = host.volumes.get_mut(&VOLUME).expect("volume");
        state.page_locs.insert(2, entry);
        state.page_locs.insert(3, entry);
    }
    let share = BaseKey { base: 40, fence: 1, object: 1, offset: 30 };
    let (Some(open), FaultStep::Begin) = take_fault(&mut host, fault(2, false)) else {
        panic!("the location is known");
    };
    let FaultStep::Prepare(plan) = begin_page(&mut host, open, true) else {
        panic!("a slot is free");
    };
    let FaultStep::Fetch { entry, source } = slot_prepared(&mut host, open, plan) else {
        panic!("the page is not shared yet");
    };
    let sources = find_sources(&host, VOLUME, entry, source);
    assert!(sources.peer.is_none() && sources.replica.is_none());
    let FaultStep::FillShared { share: filled, fetched: true } =
        page_fetched(&mut host, open, entry, Some(1))
    else {
        panic!("the page is a base's");
    };
    assert_eq!(filled, share);
    end_page(&mut host, open);
    assert_eq!(host.bases, vec![share]);
    let (Some(open), FaultStep::Begin) = take_fault(&mut host, fault(3, false)) else {
        panic!("the location is known");
    };
    let FaultStep::Prepare(plan) = begin_page(&mut host, open, true) else {
        panic!("the page is shared");
    };
    assert!(matches!(
        slot_prepared(&mut host, open, plan),
        FaultStep::FillShared { fetched: false, .. }
    ));
    assert_eq!((host.counters.fills, host.counters.shared_fills), (1, 2));
}

#[test]
fn pages_are_looked_for_where_they_may_lie() {
    let mut host = open_host();
    let state = host.volumes.get_mut(&VOLUME).expect("volume");
    state.stash_assignment = Some(assignment());
    let loc = PageFileLoc { base: 0, fence: 2, object: 1, offset: 0, len: 10 };
    let entry = PageEntry { generation: 1, loc };
    let moved = fetch_sources(state, VOLUME, entry, Some(HostId(6)));
    assert!(!moved.local, "it was written on the host the volume came from");
    assert_eq!(moved.peer, Some(HostId(6)));
    assert_eq!(moved.replica, Some(ReplicaSource { peer: HostId(1), assignment_epoch: 4 }));
    assert_eq!(moved.archive, ArchiveName::File { origin: VOLUME, fence: 2, object: 1 });
    let here = fetch_sources(state, VOLUME, entry, None);
    assert!(here.local && here.peer.is_none());
    let inherited = PageEntry { loc: PageFileLoc { base: 40, ..loc }, ..entry };
    let mut named = archived(1);
    named.identity = ObjectIdentity {
        namespace_kind: NamespaceKind::ImportedBase,
        namespace_id: 40,
        writer_fence: 2,
        object_id: 1,
    };
    state.archive_objects = vec![named];
    let of_base = fetch_sources(state, VOLUME, inherited, Some(HostId(6)));
    assert!(of_base.local && of_base.peer.is_none() && of_base.replica.is_none());
    assert_eq!(of_base.archive, ArchiveName::Object(named.identity));
}

#[test]
fn a_fetched_frame_is_the_page_asked_for() {
    let frame = |volume, page, generation| {
        Some(OpenedEntry { volume, page, generation, bytes: vec![5] })
    };
    assert_eq!(verify_entry(VOLUME, 2, 6, frame(VOLUME, 2, 6)), Some(vec![5]));
    assert_eq!(verify_entry(VOLUME, 2, 6, frame(8, 2, 6)), None);
    assert_eq!(verify_entry(VOLUME, 2, 6, frame(VOLUME, 3, 6)), None);
    assert_eq!(verify_entry(VOLUME, 2, 6, frame(VOLUME, 2, 5)), None);
    assert_eq!(verify_entry(VOLUME, 2, 6, None), None);
}

#[test]
fn a_damaged_copy_leads_to_the_next_place() {
    let mut host = open_host();
    host.volumes.get_mut(&VOLUME).expect("volume").stash_assignment = Some(assignment());
    let fence = host.volumes[&VOLUME].fence;
    let keeper = ReplicaSource { peer: HostId(1), assignment_epoch: 4 };
    let archive = ArchiveName::File { origin: VOLUME, fence, object: 1 };
    let loc = PageFileLoc { base: 0, fence, object: 1, offset: 0, len: 10 };
    let entry = PageEntry { generation: 6, loc };
    let source = Some(HostId(6));
    let frame = |page, generation| {
        Some(OpenedEntry { volume: VOLUME, page, generation, bytes: vec![5] })
    };
    let mut looked = Vec::new();
    let mut step = start_fetch(&host, VOLUME, 2, entry, source);
    while let FetchStep::Read(job) = step {
        looked.push(job.place);
        let damaged = if looked.len() % 2 == 0 { frame(2, 5) } else { None };
        step = copy_read(&host, job, damaged);
    }
    assert!(matches!(step, FetchStep::Failed));
    assert_eq!(
        looked,
        vec![
            CopyPlace::Local,
            CopyPlace::Peer(HostId(6)),
            CopyPlace::Replica(keeper),
            CopyPlace::Archive(archive)
        ]
    );
    let FetchStep::Read(job) = start_fetch(&host, VOLUME, 2, entry, source) else {
        panic!("the local copy comes first");
    };
    let FetchStep::Read(job) = copy_read(&host, job, frame(3, 6)) else {
        panic!("it is another page");
    };
    let FetchStep::Found { bytes, place } = copy_read(&host, job, frame(2, 6)) else {
        panic!("the peer has it");
    };
    assert_eq!((bytes, place), (vec![5], CopyPlace::Peer(HostId(6))));
}

#[test]
fn a_fetch_goes_by_the_keepers_and_files_of_the_moment() {
    let mut host = open_host();
    let fence = host.volumes[&VOLUME].fence;
    let loc = PageFileLoc { base: 0, fence, object: 1, offset: 0, len: 10 };
    let entry = PageEntry { generation: 6, loc };
    let FetchStep::Read(job) = start_fetch(&host, VOLUME, 2, entry, None) else {
        panic!("the local copy comes first");
    };
    assert_eq!(job.place, CopyPlace::Local);
    // A keeper is assigned while the device is read.
    host.volumes.get_mut(&VOLUME).expect("volume").stash_assignment = Some(assignment());
    let FetchStep::Read(job) = copy_read(&host, job, None) else {
        panic!("the keeper may have it");
    };
    let keeper = ReplicaSource { peer: HostId(1), assignment_epoch: 4 };
    assert_eq!(job.place, CopyPlace::Replica(keeper));
    // The volume goes while the keeper is asked.
    host.volumes.remove(&VOLUME);
    let FetchStep::Read(job) = copy_read(&host, job, None) else {
        panic!("the archive is always looked at");
    };
    let archive = ArchiveName::File { origin: VOLUME, fence, object: 1 };
    assert_eq!(job.place, CopyPlace::Archive(archive));
    assert!(matches!(copy_read(&host, job, None), FetchStep::Failed));
}

#[test]
fn live_membership_update_becomes_current_and_retains_prior_authorization() {
    let member = |host| RosterMember {
        host: HostId(host),
        weight: 1,
        failure_domain: host,
        drained: false,
    };
    let initial = ReplicaPlacement { membership_epoch: 1, roster: vec![member(1), member(2)] };
    let mut placements = ReplicaPlacements::new(Some(initial));
    let roster = vec![member(1), member(2), member(7)];
    assert!(placements.is_newer(2) && !placements.is_newer(1));
    let updated = ReplicaPlacement { membership_epoch: 2, roster: roster.clone() };
    assert_eq!(placements.update(updated), Ok(AdminSuccess::ReplicaPlacementUpdated));
    let current = placements.current.as_ref().expect("updated");
    assert_eq!((current.membership_epoch, &current.roster), (2, &roster));
    assert_eq!(placements.history.len(), 1);
    assert_eq!(placements.history[0].membership_epoch, 1);
    let earlier = placements.of_membership(1).expect("kept");
    assert_eq!(earlier.roster, vec![member(1), member(2)]);
    assert_eq!(placements.of_membership(2).map(|found| found.roster.len()), Some(3));
    assert!(placements.of_membership(3).is_none());
}

#[test]
fn only_so_much_database_work_runs() {
    let mut source = DatabaseSource::new();
    let attachment = AttachmentId { vm: VmId(1), generation: 1 };
    for vset in 0..=DATABASE_CONCURRENCY as u64 {
        source.drain(DetachedDatabaseDrain { vset: VsetId(vset), attachment });
    }
    assert_eq!(source.request(VsetId(0), 70).0, DatabaseIngress::Queued);
    for vset in 0..DATABASE_CONCURRENCY as u64 {
        assert!(matches!(source.start_next(), Some((v, DatabaseWork::Drain(_))) if v == vset));
    }
    assert!(source.start_next().is_none(), "so many run already");
    source.completed(0);
    let last = DATABASE_CONCURRENCY as u64;
    assert!(matches!(source.start_next(), Some((v, DatabaseWork::Drain(_))) if v == last));
    source.completed(5);
    assert_eq!(source.start_next(), Some((0, DatabaseWork::Request(70))));
}

#[test]
fn both_copies_of_a_record_need_room() {
    let mut host = HostState::new(HostId(0), Some(100), 30);
    assert!(reserve_record_copies(&mut host, VOLUME, 1, 0, 51).is_none());
    let reservation = reserve_record_copies(&mut host, VOLUME, 1, 0, 50).expect("room");
    assert_eq!((reservation.primary, reservation.mirror), (50, 50));
    assert_eq!(host.ledger.reserved, 100);
    assert!(!settle_record_copies(&mut host, VOLUME, 1, 0, 50, reservation, true, false));
    assert_eq!((host.ledger.reserved, host.ledger.used), (0, 50));
    let again = reserve_record_copies(&mut host, VOLUME, 1, 0, 50).expect("one is there");
    assert_eq!((again.primary, again.mirror), (0, 50));
    assert!(settle_record_copies(&mut host, VOLUME, 1, 0, 50, again, true, true));
    assert_eq!(host.ledger.used, 100);

    let name = VolumeBlob { volume: VOLUME, fence: 1, kind: VolumeBlobKind::File, number: 4 };
    assert_eq!(growth_of(&host.blobs, name, 12), 12);
    record_blob(&mut host, name, 12);
    assert_eq!(growth_of(&host.blobs, name, 20), 8);
    assert_eq!(growth_of(&host.blobs, name, 2), 0);
    record_blob(&mut host, name, 20);
    assert_eq!(host.ledger.used, 120);
}

#[test]
fn a_full_device_is_waited_for() {
    assert_eq!(blob_step(Ok(()), 5), BlobStep::Done);
    assert_eq!(blob_step(Err(BlobError::Full), 5), BlobStep::Wait(5));
    assert_eq!(blob_step(Err(BlobError::Full), 0), BlobStep::Wait(1));
    assert_eq!(blob_step(Err(BlobError::Io), 5), BlobStep::Failed);
}
