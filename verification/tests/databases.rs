use blockd_core::database::{
    reply_to, AttachmentId, DatabaseError, DatabaseFile, DatabaseOp, DatabaseReply,
    DatabaseResult, DatabaseSuccess, MAX_DATABASE_IO,
};
use blockd_core::engine::committing::{
    begin_commit, blob_written, commit_record_written, map_rolled, page_updates, reclaimed,
    segments_built, CommitJob, CommitStep, CommitWrite,
};
use blockd_core::engine::database::{
    admit_request, attach_database, begin_detach_database, drain_detached_database,
    finish_detach_database, sync_step, SyncStep,
};
use blockd_core::engine::hydration::{begin_hydration, HydrateAction};
use blockd_core::engine::persist::{
    abandon_persist, prune_spans, BuiltSegment, DatabasePersistError, Rolled,
};
use blockd_core::engine::state::{AttachmentPhase, HostState, MutationOwner};
use blockd_core::engine::task::{
    answer_request, commit_ended, note_request, pages_loaded, replication_ended, spans_loaded,
    start_request, DatabaseCommit, DatabaseStep, DatabaseTask, PageLoad,
};
use blockd_core::journal::{
    page_key, span_of, DatabaseFileMeta, DatabaseMeta, LeafPointer, PageLoc, VsetConfig, PAGE_SIZE,
};
use blockd_core::protocol::{AdminError, AdminResult, AdminSuccess, DetachMode};
use blockd_core::types::{HostId, PageId, PageNo, ReqId, VmId, VolumeId, VolumeIdx, VsetId};
use std::collections::BTreeMap;

const VSET: VsetId = VsetId(7);

/// A host with one database, whose device and second keeper always succeed.
struct Database {
    host: HostState,
    pages: BTreeMap<u64, Vec<u8>>,
    blobs: usize,
}

/// A commit of the first pages of the main file.
fn commit_of(
    pages: Vec<Vec<u8>>,
    prune: Option<u64>,
    database: DatabaseMeta,
    mutation: bool,
    barrier: Option<u64>,
) -> DatabaseCommit {
    DatabaseCommit { file: DatabaseFile::Main, first: 0, pages, prune, database, mutation, barrier }
}

/// Puts the pages of a commit into one segment.
fn build_segments(job: &CommitJob) -> Vec<BuiltSegment> {
    if job.commit.pages.is_empty() {
        return Vec::new();
    }
    let plan = &job.plan;
    let entries = page_updates(job)
        .into_iter()
        .enumerate()
        .map(|(slot, (page, generation))| {
            let loc = PageLoc {
                base: 0,
                generation,
                fence: plan.fence,
                segment: plan.first_segment,
                slot: slot as u32,
            };
            (page_key(page), loc)
        })
        .collect();
    let bytes = job.commit.pages.iter().map(|bytes| bytes.len() as u64).sum();
    vec![BuiltSegment { id: plan.first_segment, bytes, entries }]
}

impl Database {
    fn new(capacity: Option<u64>, pages: u32) -> Database {
        let mut host = HostState::new(HostId(0), capacity, 0);
        host.insert_fresh(VSET, VsetConfig::database(pages));
        host.vsets.get_mut(&VSET.0).expect("vset").ready = true;
        Database { host, pages: BTreeMap::new(), blobs: 0 }
    }

    fn attached() -> (Database, AttachmentId) {
        let mut database = Database::new(None, 8);
        let Ok(AdminSuccess::DatabaseAttached { attachment, .. }) = database.attach(VmId(9)) else {
            panic!("expected attachment");
        };
        (database, attachment)
    }

    fn attach(&mut self, vm: VmId) -> AdminResult {
        attach_database(&mut self.host, VSET, vm)
    }

    /// Runs a commit up to the write of its record.
    fn begin_persist(&mut self, commit: DatabaseCommit) -> Result<CommitWrite, DatabasePersistError> {
        let mut step = begin_commit(&self.host, VSET, commit);
        loop {
            step = match step {
                CommitStep::Build(job) => {
                    let segments = build_segments(&job);
                    segments_built(&self.host, job, Some(segments))
                }
                CommitStep::Roll(staged) => {
                    let rolled = Rolled {
                        overlay: staged.staged.map.overlay.clone(),
                        leaves: staged.staged.map.leaf_table.clone(),
                        writes: Vec::new(),
                        next_leaf: self.host.vsets[&VSET.0].next_leaf,
                    };
                    map_rolled(&mut self.host, staged, rolled)
                }
                CommitStep::WriteBlob(write) => {
                    self.blobs += 1;
                    blob_written(&mut self.host, write, true)
                }
                CommitStep::WriteRecord(write) => return Ok(write),
                CommitStep::Done(Err(error)) => return Err(error),
                _ => panic!("the record is not written yet"),
            }
        }
    }

    fn end_persist(&mut self, write: CommitWrite) -> Result<u64, DatabasePersistError> {
        self.blobs += 2;
        let file = write.job.commit.file;
        let first = write.job.commit.first;
        let pages = write.job.commit.pages.clone();
        let sequence = match commit_record_written(&mut self.host, write, true) {
            CommitStep::Reclaim { sequence, .. } => sequence,
            CommitStep::Done(Err(error)) => return Err(error),
            _ => panic!("the record is written"),
        };
        for (slot, bytes) in pages.into_iter().enumerate() {
            let number = (first + slot as u64) as u32;
            self.pages.insert(page_key(file.page(VSET, number)), bytes);
        }
        let live = &self.host.vsets[&VSET.0].page_locs;
        self.pages.retain(|key, _| live.contains_key(key));
        match reclaimed(sequence, true) {
            CommitStep::Done(result) => result,
            _ => panic!("reclaimed"),
        }
    }

    fn persist(&mut self, commit: DatabaseCommit) -> Result<u64, DatabasePersistError> {
        let work = self.begin_persist(commit)?;
        self.end_persist(work)
    }

    fn load(&self, pages: PageLoad) -> Vec<Vec<u8>> {
        (pages.first..pages.first + pages.count)
            .map(|number| {
                let number = u32::try_from(number).expect("page number");
                let key = page_key(pages.file.page(VSET, number));
                self.pages.get(&key).cloned().unwrap_or_else(|| vec![0; PAGE_SIZE])
            })
            .collect()
    }

    fn meta(&self) -> DatabaseMeta {
        self.host.vsets[&VSET.0].database
    }

    /// The second keeper confirms what is on the device.
    fn replicate(&mut self) {
        let state = self.host.vsets.get_mut(&VSET.0).expect("vset");
        state.sync_ack_through = state.local_covered_through;
    }

    /// Makes everything up to `barrier` durable here and with the second keeper.
    fn make_durable(&mut self, barrier: u64) {
        if sync_step(&self.host.vsets[&VSET.0], barrier) == SyncStep::Commit {
            let meta = self.meta();
            self.persist(commit_of(Vec::new(), None, meta, false, Some(barrier))).expect("commit");
        }
        if sync_step(&self.host.vsets[&VSET.0], barrier) == SyncStep::Replicate {
            self.replicate();
        }
    }

    fn perform(&mut self, attachment: AttachmentId, op: DatabaseOp) -> DatabaseResult {
        let mut step = start_request(&mut self.host, VSET, attachment, op);
        loop {
            step = match step {
                DatabaseStep::Reply(result) => return result,
                DatabaseStep::Load { pages, task } => {
                    let loaded = self.load(pages);
                    pages_loaded(&self.host.vsets[&VSET.0], task, Some(loaded))
                }
                DatabaseStep::Hydrate { task, .. } => spans_loaded(task, true),
                DatabaseStep::Commit { commit, task } => {
                    let outcome = self.persist(commit);
                    commit_ended(&mut self.host, VSET, attachment, task, outcome)
                }
                DatabaseStep::Replicate { barrier } => {
                    self.replicate();
                    replication_ended(&self.host, VSET, attachment, barrier)
                }
            }
        }
    }

    fn request(&mut self, attachment: AttachmentId, req: u64, op: DatabaseOp) -> DatabaseReply {
        let noted = note_request(&mut self.host, VSET, attachment);
        let result = self.perform(attachment, op);
        let told = answer_request(&mut self.host, VSET, attachment, noted, result);
        reply_to(ReqId(req), told)
    }

    /// Performs a request and tells which resident pages went with it.
    fn request_evicting(
        &mut self,
        attachment: AttachmentId,
        req: u64,
        op: DatabaseOp,
    ) -> (Vec<u64>, DatabaseReply) {
        let before: Vec<u64> = self.pages.keys().copied().collect();
        let reply = self.request(attachment, req, op);
        let gone = before.into_iter().filter(|key| !self.pages.contains_key(key)).collect();
        (gone, reply)
    }

    fn begin_detach(&mut self, attachment: AttachmentId, mode: DetachMode) -> AdminResult {
        let (result, drain) = begin_detach_database(&mut self.host, VSET, attachment, mode);
        if drain {
            if let Some(barrier) = drain_detached_database(&mut self.host, VSET, attachment) {
                let free = self.host.vsets[&VSET.0].operations.mutation_owner().is_none();
                if free {
                    self.make_durable(barrier);
                }
            }
        }
        result
    }

    fn finish_detach(&mut self, attachment: AttachmentId) -> AdminResult {
        finish_detach_database(&mut self.host, VSET, attachment)
    }
}

#[test]
fn rejected_database_truncate_does_not_mutate_file() {
    let (mut database, attachment) = Database::attached();
    assert_eq!(
        database.request(
            attachment,
            200,
            DatabaseOp::Open { handle: 1, file: DatabaseFile::Main, create: true },
        ),
        DatabaseReply::Opened { req: ReqId(200) }
    );
    let original = vec![0xa5; 512];
    let write = DatabaseOp::Write { handle: 1, offset: 0, bytes: original.clone() };
    assert!(matches!(database.request(attachment, 201, write), DatabaseReply::Written { .. }));

    // A leaf of another file is being loaded: a truncate is not possible for a
    // while, and must not write a part of the last page.
    let unrelated = span_of(DatabaseFile::Wal.page(VSET, 0));
    let state = database.host.vsets.get_mut(&VSET.0).expect("database vset");
    state.leaf_table.insert(unrelated, LeafPointer { base: 0, fence: 1, id: 99 });
    let page = DatabaseFile::Wal.page(VSET, 0);
    let incarnation = state.incarnation;
    assert!(matches!(
        begin_hydration(&mut database.host, page, incarnation, 1),
        HydrateAction::Load(_)
    ));
    let sequence_before = database.host.vsets[&VSET.0].mutation_seq;
    let main = page_key(DatabaseFile::Main.page(VSET, 0));
    let page_before = database.pages[&main].clone();

    assert_eq!(
        database.request(attachment, 202, DatabaseOp::Truncate { handle: 1, size: 100 }),
        DatabaseReply::Failed { req: ReqId(202), error: DatabaseError::Busy }
    );
    assert_eq!(database.host.vsets[&VSET.0].mutation_seq, sequence_before);
    assert_eq!(database.pages[&main], page_before);
    let read =
        DatabaseOp::Read { handle: 1, offset: 0, len: original.len() as u32 };
    assert_eq!(
        database.request(attachment, 203, read),
        DatabaseReply::Read { req: ReqId(203), bytes: original, eof: false }
    );
}

#[test]
fn attachments_are_not_handed_out_twice() {
    let (mut database, first) = Database::attached();
    let forced = database.begin_detach(first, DetachMode::Forced);
    assert!(forced.is_ok() && database.finish_detach(first).is_ok());
    let Ok(AdminSuccess::DatabaseAttached { attachment: second, .. }) = database.attach(VmId(9))
    else {
        panic!("expected attachment");
    };
    assert_eq!(first.vm, second.vm);
    assert!(second.generation > first.generation);
}

#[test]
fn database_byte_io_sync_truncate_and_recreate_are_exact() {
    let (mut database, attachment) = Database::attached();
    assert_eq!(
        database.request(
            attachment,
            102,
            DatabaseOp::Open { handle: 1, file: DatabaseFile::Main, create: true },
        ),
        DatabaseReply::Opened { req: ReqId(102) }
    );

    let io_len = PAGE_SIZE + 904;
    let bytes: Vec<u8> =
        (0..io_len).map(|i| u8::try_from(i % 251).expect("below 251")).collect();
    assert_eq!(
        database.request(
            attachment,
            103,
            DatabaseOp::Write { handle: 1, offset: 100, bytes: bytes.clone() },
        ),
        DatabaseReply::Written { req: ReqId(103), sequence: 2 }
    );
    assert_eq!(
        database.request(
            attachment,
            104,
            DatabaseOp::Read {
                handle: 1,
                offset: 100,
                len: u32::try_from(io_len).expect("test I/O fits u32"),
            },
        ),
        DatabaseReply::Read { req: ReqId(104), bytes: bytes.clone(), eof: false }
    );

    let sync = database.request(attachment, 105, DatabaseOp::Sync { handle: 1 });
    assert!(
        matches!(sync, DatabaseReply::Synced { req: ReqId(105), sequence: 2 }),
        "sync reply: {sync:?}"
    );

    assert_eq!(
        database.request_evicting(
            attachment,
            106,
            DatabaseOp::Truncate { handle: 1, size: 200 },
        ),
        (
            vec![page_key(DatabaseFile::Main.page(VSET, 1))],
            DatabaseReply::Truncated { req: ReqId(106), sequence: 3 }
        )
    );
    assert_eq!(
        database.request_evicting(
            attachment,
            107,
            DatabaseOp::Truncate { handle: 1, size: 1000 },
        ),
        (Vec::new(), DatabaseReply::Truncated { req: ReqId(107), sequence: 4 })
    );
    let expected: Vec<u8> =
        bytes[..100].iter().copied().chain(std::iter::repeat(0).take(800)).collect();
    assert_eq!(
        database.request(
            attachment,
            108,
            DatabaseOp::Read { handle: 1, offset: 100, len: 900 },
        ),
        DatabaseReply::Read { req: ReqId(108), bytes: expected, eof: false }
    );

    assert_eq!(
        database.request_evicting(
            attachment,
            109,
            DatabaseOp::Delete { file: DatabaseFile::Main },
        ),
        (
            vec![page_key(DatabaseFile::Main.page(VSET, 0))],
            DatabaseReply::Deleted { req: ReqId(109), sequence: 5 }
        )
    );
    let _ = database.request(attachment, 110, DatabaseOp::Close { handle: 1 });
    let _ = database.request(
        attachment,
        111,
        DatabaseOp::Open { handle: 2, file: DatabaseFile::Main, create: true },
    );
    assert_eq!(
        database.request(
            attachment,
            112,
            DatabaseOp::Read { handle: 2, offset: 0, len: 16 },
        ),
        DatabaseReply::Read { req: ReqId(112), bytes: Vec::new(), eof: true }
    );
}

#[test]
fn database_attachment_generation_fences_old_requests() {
    let (mut database, attachment) = Database::attached();
    let _ = database.request(
        attachment,
        120,
        DatabaseOp::Open { handle: 1, file: DatabaseFile::Main, create: true },
    );
    let started = database.begin_detach(attachment, DetachMode::Forced);
    assert!(matches!(
        started,
        Ok(AdminSuccess::DatabaseDetachStarted { forced: true, .. })
    ));
    assert_eq!(
        database.request(
            attachment,
            122,
            DatabaseOp::Access { file: DatabaseFile::Main },
        ),
        DatabaseReply::Failed { req: ReqId(122), error: DatabaseError::StaleAttachment }
    );

    assert!(matches!(
        database.finish_detach(attachment),
        Ok(AdminSuccess::DatabaseDetached { .. })
    ));

    let Ok(AdminSuccess::DatabaseAttached { attachment: replacement, .. }) =
        database.attach(VmId(10))
    else {
        panic!("expected replacement attachment");
    };
    assert!(replacement.generation > attachment.generation);
    assert_ne!(replacement.vm, attachment.vm);
    assert_eq!(
        database.request(
            replacement,
            125,
            DatabaseOp::Access { file: DatabaseFile::Main },
        ),
        DatabaseReply::Access { req: ReqId(125), exists: true }
    );
}

#[test]
fn forced_database_detach_finishes_after_an_interleaved_record_finalize() {
    let (mut database, attachment) = Database::attached();
    let _ = database.request(
        attachment,
        126,
        DatabaseOp::Open { handle: 1, file: DatabaseFile::Main, create: true },
    );
    let _ = database.request(
        attachment,
        127,
        DatabaseOp::Write {
            handle: 1,
            offset: 0,
            bytes: b"dirty before forced detach".to_vec(),
        },
    );
    assert!(matches!(
        database.begin_detach(attachment, DetachMode::Forced),
        Ok(AdminSuccess::DatabaseDetachStarted { forced: true, .. })
    ));

    let meta = database.meta();
    let barrier = database.host.vsets[&VSET.0].mutation_seq;
    let _ = database.persist(commit_of(Vec::new(), None, meta, false, Some(barrier)));

    assert!(matches!(
        database.finish_detach(attachment),
        Ok(AdminSuccess::DatabaseDetached { .. })
    ));
}

#[test]
fn graceful_database_detach_makes_the_final_mutation_durable() {
    let (mut database, attachment) = Database::attached();
    let _ = database.request(
        attachment,
        130,
        DatabaseOp::Open { handle: 1, file: DatabaseFile::Main, create: true },
    );
    let _ = database.request(
        attachment,
        131,
        DatabaseOp::Write { handle: 1, offset: 0, bytes: b"durable on detach".to_vec() },
    );
    let _ = database.request(attachment, 132, DatabaseOp::Close { handle: 1 });
    let started = database.begin_detach(attachment, DetachMode::Graceful);
    assert!(matches!(
        started,
        Ok(AdminSuccess::DatabaseDetachStarted { forced: false, .. })
    ));
    assert_eq!(
        database.finish_detach(attachment),
        Ok(AdminSuccess::DatabaseDetached { vset: VSET, attachment })
    );
}

#[test]
fn graceful_database_detach_begin_is_idempotent_while_draining() {
    let (mut database, attachment) = Database::attached();
    for _req in [135, 136] {
        let started = database.begin_detach(attachment, DetachMode::Graceful);
        assert!(matches!(
            started,
            Ok(AdminSuccess::DatabaseDetachStarted { forced: false, .. })
        ));
    }
}

#[test]
fn graceful_database_detach_chains_after_an_inflight_record() {
    let (mut database, attachment) = Database::attached();
    let _ = database.request(
        attachment,
        140,
        DatabaseOp::Open { handle: 1, file: DatabaseFile::Main, create: true },
    );
    let _ = database.request(
        attachment,
        141,
        DatabaseOp::Write { handle: 1, offset: 0, bytes: b"detach races a record".to_vec() },
    );
    let _ = database.request(attachment, 142, DatabaseOp::Close { handle: 1 });

    let meta = database.meta();
    let barrier = database.host.vsets[&VSET.0].mutation_seq;
    let blobs_before = database.blobs;
    let inflight = database
        .begin_persist(commit_of(Vec::new(), None, meta, false, Some(barrier)))
        .expect("a record is being written");

    let started = database.begin_detach(attachment, DetachMode::Graceful);
    assert!(matches!(started, Ok(AdminSuccess::DatabaseDetachStarted { .. })));
    assert_eq!(database.finish_detach(attachment), Err(AdminError::Stale));

    database.end_persist(inflight).expect("record");
    assert_eq!(database.blobs - blobs_before, 2, "primary and mirrored record writes");
    let barrier = drain_detached_database(&mut database.host, VSET, attachment)
        .expect("the database is drained");
    database.make_durable(barrier);
    assert_eq!(
        database.finish_detach(attachment),
        Ok(AdminSuccess::DatabaseDetached { vset: VSET, attachment })
    );
}

#[test]
fn five_hundred_idle_database_vsets_share_one_vm_without_page_residency() {
    let mut host = HostState::new(HostId(0), None, 0);
    for id in 1..=500 {
        let vset = VsetId(10_000 + id);
        host.insert_fresh(vset, VsetConfig::database(8));
        host.vsets.get_mut(&vset.0).expect("created").ready = true;
        assert!(host.vsets.contains_key(&vset.0));
        assert!(matches!(
            attach_database(&mut host, vset, VmId(42)),
            Ok(AdminSuccess::DatabaseAttached { vset: attached, .. }) if attached == vset
        ));
    }
    assert!(host.vsets.values().all(|state| state.page_locs.is_empty()));
}

#[test]
fn failed_capacity_reservation_releases_database_commit_state_for_retry() {
    let mut database = Database::new(Some(1), 4);
    let incarnation = database.host.vsets[&VSET.0].incarnation;
    let failed = database.persist(commit_of(
        vec![vec![1; PAGE_SIZE]],
        None,
        DatabaseMeta::default(),
        true,
        None,
    ));
    assert_eq!(failed, Err(DatabasePersistError::Capacity));
    {
        let state = &database.host.vsets[&VSET.0];
        assert_eq!(state.incarnation, incarnation);
        assert!(state.operations.mutation_owner().is_none());
        assert_eq!(state.mutation_seq, 0);
        assert_eq!(state.next_seq, 0);
        assert!(state.page_locs.is_empty());
    }
    database.host.ledger.capacity = None;
    let retried = database.persist(commit_of(
        vec![vec![1; PAGE_SIZE]],
        None,
        DatabaseMeta::default(),
        true,
        None,
    ));
    assert_eq!(retried, Ok(1));
    assert!(database.host.vsets[&VSET.0].operations.mutation_owner().is_none());
}

#[test]
fn counter_overflow_does_not_claim_database_mutation_ownership() {
    let mut database = Database::new(None, 4);
    database.host.vsets.get_mut(&VSET.0).expect("vset").mutation_seq = u64::MAX;

    let mutation_overflow =
        database.persist(commit_of(Vec::new(), None, DatabaseMeta::default(), true, None));
    assert_eq!(mutation_overflow, Err(DatabasePersistError::Overflow));
    assert!(database.host.vsets[&VSET.0].operations.mutation_owner().is_none());

    {
        let state = database.host.vsets.get_mut(&VSET.0).expect("vset");
        state.mutation_seq = 0;
        state.next_seq = u64::MAX;
    }
    let sequence_overflow =
        database.persist(commit_of(Vec::new(), None, DatabaseMeta::default(), true, None));
    assert_eq!(sequence_overflow, Err(DatabasePersistError::Overflow));
    assert_eq!(database.blobs, 0);
    assert!(database.host.vsets[&VSET.0].operations.mutation_owner().is_none());

    {
        let state = database.host.vsets.get_mut(&VSET.0).expect("vset");
        state.next_seq = 0;
        state.next_gen = u64::MAX;
    }
    let generation_overflow = database.persist(commit_of(
        vec![vec![1; PAGE_SIZE]; 2],
        None,
        DatabaseMeta::default(),
        true,
        None,
    ));
    assert_eq!(generation_overflow, Err(DatabasePersistError::Overflow));
    assert!(database.host.vsets[&VSET.0].operations.mutation_owner().is_none());

    {
        let state = database.host.vsets.get_mut(&VSET.0).expect("vset");
        state.next_gen = 0;
        state.next_seg = u64::MAX;
    }
    let segment_overflow = database.persist(commit_of(
        vec![vec![1; PAGE_SIZE]],
        None,
        DatabaseMeta::default(),
        true,
        None,
    ));
    assert_eq!(segment_overflow, Err(DatabasePersistError::Overflow));
    assert_eq!(database.blobs, 0);
    assert!(database.host.vsets[&VSET.0].operations.mutation_owner().is_none());

    database.host.vsets.get_mut(&VSET.0).expect("vset").next_seg = 0;
    let retried = database.persist(commit_of(
        vec![vec![1; PAGE_SIZE]],
        None,
        DatabaseMeta::default(),
        true,
        None,
    ));
    assert_eq!(retried, Ok(1));
}

#[test]
fn refusals_name_their_reason() {
    let (mut database, attachment) = Database::attached();
    let op = DatabaseOp::Access { file: DatabaseFile::Main };
    assert_eq!(admit_request(None, attachment, &op), Err(DatabaseError::NotAttached));
    let stranger = AttachmentId { vm: VmId(9), generation: attachment.generation + 1 };
    let state = database.host.vsets.get(&VSET.0);
    assert_eq!(admit_request(state, stranger, &op), Err(DatabaseError::StaleAttachment));
    let outside = DatabaseOp::Truncate { handle: 1, size: 8 * PAGE_SIZE as u64 + 1 };
    assert_eq!(admit_request(state, attachment, &outside), Err(DatabaseError::TooLarge));
    let inside = DatabaseOp::Truncate { handle: 1, size: 8 * PAGE_SIZE as u64 };
    assert_eq!(admit_request(state, attachment, &inside), Ok(()));
    let huge = DatabaseOp::Write { handle: 1, offset: 0, bytes: vec![0; MAX_DATABASE_IO + 1] };
    assert_eq!(admit_request(state, attachment, &huge), Err(DatabaseError::TooLarge));

    let _ = database.begin_detach(attachment, DetachMode::Graceful);
    assert_eq!(
        database.host.vsets[&VSET.0].database_runtime.phase,
        AttachmentPhase::Draining(attachment)
    );
    let state = database.host.vsets.get(&VSET.0);
    assert_eq!(admit_request(state, attachment, &op), Err(DatabaseError::Draining));
    let closing = DatabaseOp::Close { handle: 1 };
    assert_eq!(admit_request(state, attachment, &closing), Ok(()));
}

#[test]
fn handles_and_files_are_looked_up() {
    let (mut database, attachment) = Database::attached();
    let open = |create| DatabaseOp::Open { handle: 4, file: DatabaseFile::Wal, create };
    assert_eq!(
        database.request(attachment, 1, open(false)),
        DatabaseReply::Failed { req: ReqId(1), error: DatabaseError::NotFound }
    );
    assert_eq!(
        database.request(attachment, 2, open(true)),
        DatabaseReply::Opened { req: ReqId(2) }
    );
    assert_eq!(
        database.request(attachment, 3, open(true)),
        DatabaseReply::Failed { req: ReqId(3), error: DatabaseError::AlreadyOpen }
    );
    assert_eq!(
        database.request(attachment, 4, DatabaseOp::FileSize { handle: 5 }),
        DatabaseReply::Failed { req: ReqId(4), error: DatabaseError::InvalidHandle }
    );
    let write = DatabaseOp::Write { handle: 4, offset: 10, bytes: vec![1; 20] };
    assert_eq!(
        database.request(attachment, 5, write),
        DatabaseReply::Written { req: ReqId(5), sequence: 2 }
    );
    assert_eq!(
        database.request(attachment, 6, DatabaseOp::FileSize { handle: 4 }),
        DatabaseReply::FileSize { req: ReqId(6), size: 30 }
    );
    assert_eq!(
        database.request(attachment, 7, DatabaseOp::Stat { file: DatabaseFile::Wal }),
        DatabaseReply::Stat { req: ReqId(7), exists: true, size: 30 }
    );
    let nothing = DatabaseOp::Write { handle: 4, offset: 10, bytes: Vec::new() };
    assert_eq!(
        database.request(attachment, 8, nothing),
        DatabaseReply::Written { req: ReqId(8), sequence: 2 }
    );
    assert_eq!(
        database.request(attachment, 9, DatabaseOp::Close { handle: 4 }),
        DatabaseReply::Closed { req: ReqId(9) }
    );
    assert_eq!(
        database.request(attachment, 10, DatabaseOp::Close { handle: 4 }),
        DatabaseReply::Failed { req: ReqId(10), error: DatabaseError::InvalidHandle }
    );
}

#[test]
fn a_database_attaches_once() {
    let (mut database, attachment) = Database::attached();
    assert_eq!(database.attach(VmId(10)), Err(AdminError::Rejected));
    assert_eq!(database.finish_detach(attachment), Err(AdminError::Stale));
    let other = AttachmentId { vm: VmId(9), generation: attachment.generation + 1 };
    assert_eq!(database.begin_detach(other, DetachMode::Forced), Err(AdminError::Stale));
    let mut host = HostState::new(HostId(0), None, 0);
    host.insert_fresh(VSET, VsetConfig::data(8));
    host.vsets.get_mut(&VSET.0).expect("vset").ready = true;
    assert_eq!(attach_database(&mut host, VSET, VmId(1)), Err(AdminError::Rejected));
}

#[test]
fn database_transient_file_can_be_deleted_before_its_first_capture() {
    let (mut database, attachment) = Database::attached();
    let _ = database.request(
        attachment,
        113,
        DatabaseOp::Open { handle: 3, file: DatabaseFile::Journal, create: true },
    );
    let _ = database.request(
        attachment,
        114,
        DatabaseOp::Write { handle: 3, offset: 0, bytes: vec![0x5a; 512] },
    );
    assert_eq!(
        database.request(attachment, 115, DatabaseOp::Delete { file: DatabaseFile::Journal }),
        DatabaseReply::Deleted { req: ReqId(115), sequence: 3 }
    );

    let meta = database.meta();
    assert!(!meta.journal.exists);
    assert!(database.host.vsets[&VSET.0].page_locs.is_empty());
    assert_eq!(database.persist(commit_of(Vec::new(), None, meta, false, Some(3))), Ok(3));
}

#[test]
fn database_prune_is_rejected_while_an_incremental_capture_is_armed() {
    let mut database = Database::new(None, 80);
    let Ok(AdminSuccess::DatabaseAttached { attachment, .. }) = database.attach(VmId(9)) else {
        panic!("expected attachment");
    };
    let _ = database.request(
        attachment,
        720,
        DatabaseOp::Open { handle: 1, file: DatabaseFile::Main, create: true },
    );
    let pages_per_write = MAX_DATABASE_IO / PAGE_SIZE;
    let mut written_pages = 0usize;
    let mut req = 721;
    while written_pages < 65 {
        let pages = (65 - written_pages).min(pages_per_write);
        let written = database.request(
            attachment,
            req,
            DatabaseOp::Write {
                handle: 1,
                offset: u64::try_from(written_pages * PAGE_SIZE).expect("bounded"),
                bytes: vec![0x33; PAGE_SIZE * pages],
            },
        );
        assert!(matches!(
            written,
            DatabaseReply::Written { req: written_req, .. } if written_req == ReqId(req)
        ));
        written_pages += pages;
        req += 1;
    }

    let operations = &mut database.host.vsets.get_mut(&VSET.0).expect("vset").operations;
    assert!(operations.try_start_mutation(MutationOwner::Capture));

    assert_eq!(
        database.request(attachment, req, DatabaseOp::Delete { file: DatabaseFile::Main }),
        DatabaseReply::Failed { req: ReqId(req), error: DatabaseError::Busy }
    );
    assert_eq!(
        database.host.vsets[&VSET.0].operations.mutation_owner(),
        Some(MutationOwner::Capture)
    );
    assert_eq!(
        database.request(attachment, req + 1, DatabaseOp::Truncate { handle: 1, size: 100 }),
        DatabaseReply::Failed { req: ReqId(req + 1), error: DatabaseError::Io }
    );
    assert_eq!(
        database.request(
            attachment,
            req + 2,
            DatabaseOp::Write { handle: 1, offset: 0, bytes: vec![0x44; 8] },
        ),
        DatabaseReply::Failed { req: ReqId(req + 2), error: DatabaseError::Io }
    );
    assert_eq!(database.meta().main.size, 65 * PAGE_SIZE as u64);
}

#[test]
fn commits_exclude_each_other() {
    let mut database = Database::new(None, 4);
    let meta = DatabaseMeta::default();
    let work = database.begin_persist(commit_of(Vec::new(), None, meta, true, None)).expect("first");
    assert_eq!(
        database.persist(commit_of(Vec::new(), None, meta, true, None)),
        Err(DatabasePersistError::Busy)
    );
    drop(work);
    abandon_persist(database.host.vsets.get_mut(&VSET.0).expect("vset"));
    assert_eq!(database.persist(commit_of(Vec::new(), None, meta, true, None)), Ok(1));
    database.host.vsets.get_mut(&VSET.0).expect("vset").ready = false;
    assert_eq!(
        database.persist(commit_of(Vec::new(), None, meta, true, None)),
        Err(DatabasePersistError::Stale)
    );
}

#[test]
fn cutting_a_file_needs_its_leaves_only() {
    let mut database = Database::new(None, 2048);
    let state = database.host.vsets.get_mut(&VSET.0).expect("vset");
    let leaf = LeafPointer { base: 0, fence: 1, id: 9 };
    let main = page_key(DatabaseFile::Main.page(VSET, 1500)) / 1024;
    let wal = page_key(DatabaseFile::Wal.page(VSET, 0)) / 1024;
    state.leaf_table.insert(main, leaf);
    state.leaf_table.insert(wal, leaf);
    assert_eq!(prune_spans(state, DatabaseFile::Main, 0), vec![main]);
    assert_eq!(prune_spans(state, DatabaseFile::Wal, 0), vec![wal]);
    assert_eq!(prune_spans(state, DatabaseFile::Journal, 0), Vec::<u64>::new());
}

#[test]
fn pages_outside_a_cut_stay() {
    let mut database = Database::new(None, 8);
    let existing = DatabaseFileMeta { exists: true, size: 3 * PAGE_SIZE as u64 };
    let meta = DatabaseMeta { main: existing, wal: existing, ..DatabaseMeta::default() };
    for file in [DatabaseFile::Main, DatabaseFile::Wal] {
        let pages = vec![vec![1; PAGE_SIZE]; 3];
        database
            .persist(DatabaseCommit { file, ..commit_of(pages, None, meta, true, None) })
            .expect("write");
    }
    database.persist(commit_of(Vec::new(), Some(1), meta, true, None)).expect("cut");
    let left: Vec<u64> = database.pages.keys().copied().collect();
    let page = |idx, page| {
        page_key(PageId {
            volume: VolumeId { vset: VSET, idx: VolumeIdx(idx) },
            page: PageNo(page),
        })
    };
    assert_eq!(left, vec![page(0, 0), page(1, 0), page(1, 1), page(1, 2)]);
}

#[test]
fn reads_stop_at_the_end_of_the_file() {
    let (mut database, attachment) = Database::attached();
    let open = DatabaseOp::Open { handle: 1, file: DatabaseFile::Main, create: true };
    let _ = database.request(attachment, 1, open);
    let write = DatabaseOp::Write { handle: 1, offset: 0, bytes: vec![9; 100] };
    let _ = database.request(attachment, 2, write);
    assert_eq!(
        database.request(attachment, 3, DatabaseOp::Read { handle: 1, offset: 40, len: 100 }),
        DatabaseReply::Read { req: ReqId(3), bytes: vec![9; 60], eof: true }
    );
    assert_eq!(
        database.request(attachment, 4, DatabaseOp::Read { handle: 1, offset: 0, len: 100 }),
        DatabaseReply::Read { req: ReqId(4), bytes: vec![9; 100], eof: false }
    );
}

#[test]
fn a_device_that_fails_fails_the_request() {
    let (mut database, attachment) = Database::attached();
    let open = DatabaseOp::Open { handle: 1, file: DatabaseFile::Main, create: true };
    let _ = database.request(attachment, 1, open);
    let write = DatabaseOp::Write { handle: 1, offset: 0, bytes: vec![9; 100] };

    let DatabaseStep::Load { pages, task } =
        start_request(&mut database.host, VSET, attachment, write)
    else {
        panic!("the page is loaded first");
    };
    assert_eq!(pages, PageLoad { file: DatabaseFile::Main, first: 0, count: 1 });
    let DatabaseStep::Commit { commit, task } =
        pages_loaded(&database.host.vsets[&VSET.0], task, Some(vec![vec![0; PAGE_SIZE]]))
    else {
        panic!("the page is committed next");
    };
    assert_eq!(commit.pages[0][99..101], [9, 0]);
    assert_eq!(commit.database.main.size, 100);
    let failed = Err(DatabasePersistError::Fatal);
    assert!(matches!(
        commit_ended(&mut database.host, VSET, attachment, task, failed),
        DatabaseStep::Reply(Err(DatabaseError::Io))
    ));

    let unread = DatabaseTask::Write {
        file: DatabaseFile::Main,
        offset: 0,
        bytes: vec![1],
        database: DatabaseMeta::default(),
    };
    assert!(matches!(
        pages_loaded(&database.host.vsets[&VSET.0], unread, None),
        DatabaseStep::Reply(Err(DatabaseError::Io))
    ));
    let undeleted = DatabaseTask::Delete {
        file: DatabaseFile::Main,
        database: DatabaseMeta::default(),
    };
    assert!(matches!(
        spans_loaded(undeleted, false),
        DatabaseStep::Reply(Err(DatabaseError::Io))
    ));
}

#[test]
fn changed_pages_get_generations_in_order() {
    let mut database = Database::new(None, 8);
    let pages = vec![vec![1; PAGE_SIZE], vec![2; PAGE_SIZE], vec![3; PAGE_SIZE]];
    let first = commit_of(pages.clone(), None, DatabaseMeta::default(), true, None);
    database.persist(first).expect("committed");
    let next = database.host.vsets[&VSET.0].next_gen;
    let commit = DatabaseCommit {
        file: DatabaseFile::Wal,
        first: 4,
        ..commit_of(pages, None, DatabaseMeta::default(), true, None)
    };
    let CommitStep::Build(job) = begin_commit(&database.host, VSET, commit) else {
        panic!("planned");
    };
    let wal = |number| DatabaseFile::Wal.page(VSET, number);
    assert_eq!(
        page_updates(&job),
        vec![(wal(4), next), (wal(5), next + 1), (wal(6), next + 2)]
    );
    assert_eq!(job.plan.generation_after, next + 3);
    let none = commit_of(Vec::new(), None, DatabaseMeta::default(), true, None);
    let CommitStep::Build(job) = begin_commit(&database.host, VSET, none) else {
        panic!("planned");
    };
    assert!(page_updates(&job).is_empty());
}

#[test]
fn a_failed_write_gives_the_database_back() {
    let mut database = Database::new(None, 4);
    let pages = vec![vec![1; PAGE_SIZE]];
    let commit = commit_of(pages, None, DatabaseMeta::default(), true, None);
    let CommitStep::Build(job) = begin_commit(&database.host, VSET, commit) else {
        panic!("planned");
    };
    assert_eq!((job.plan.seq, job.plan.capture_seq), (0, 1));
    let segments = build_segments(&job);
    let CommitStep::Roll(staged) = segments_built(&database.host, job, Some(segments)) else {
        panic!("staged");
    };
    let rolled = Rolled {
        overlay: staged.staged.map.overlay.clone(),
        leaves: BTreeMap::new(),
        writes: Vec::new(),
        next_leaf: 0,
    };
    let CommitStep::WriteBlob(write) = map_rolled(&mut database.host, staged, rolled) else {
        panic!("claimed");
    };
    assert!(database.host.vsets[&VSET.0].operations.mutation_owner().is_some());
    assert_eq!(database.host.ledger.reserved, PAGE_SIZE as u64);
    assert!(matches!(blob_written(&mut database.host, write, false), CommitStep::Fatal));
    let state = &database.host.vsets[&VSET.0];
    assert!(state.operations.mutation_owner().is_none());
    assert_eq!((state.mutation_seq, state.next_seq), (0, 0));
    assert!(state.page_locs.is_empty());
    assert!(matches!(reclaimed(3, false), CommitStep::Fatal));

    let commit = commit_of(Vec::new(), None, DatabaseMeta::default(), true, None);
    let CommitStep::Build(job) = begin_commit(&database.host, VSET, commit) else {
        panic!("planned");
    };
    assert!(matches!(
        segments_built(&database.host, job, None),
        CommitStep::Done(Err(DatabasePersistError::Overflow))
    ));
}

#[test]
fn a_synchronisation_waits_for_the_second_keeper() {
    let (mut database, attachment) = Database::attached();
    let open = DatabaseOp::Open { handle: 1, file: DatabaseFile::Main, create: true };
    let _ = database.request(attachment, 1, open);
    let sync = DatabaseOp::Sync { handle: 1 };
    let DatabaseStep::Commit { commit, task } =
        start_request(&mut database.host, VSET, attachment, sync)
    else {
        panic!("nothing is covered yet");
    };
    assert_eq!((commit.mutation, commit.barrier), (false, Some(1)));
    let outcome = database.persist(commit);
    assert_eq!(outcome, Ok(1));
    assert!(matches!(
        commit_ended(&mut database.host, VSET, attachment, task, outcome),
        DatabaseStep::Replicate { barrier: 1 }
    ));
    assert!(matches!(
        replication_ended(&database.host, VSET, attachment, 1),
        DatabaseStep::Replicate { barrier: 1 }
    ));
    database.replicate();
    assert!(matches!(
        replication_ended(&database.host, VSET, attachment, 1),
        DatabaseStep::Reply(Ok(DatabaseSuccess::Synced { sequence: 1 }))
    ));
    database.host.vsets.clear();
    assert!(matches!(
        replication_ended(&database.host, VSET, attachment, 1),
        DatabaseStep::Reply(Err(DatabaseError::Io))
    ));
}

#[test]
fn a_cut_off_caller_is_told_so() {
    let (mut database, attachment) = Database::attached();
    assert!(note_request(&mut database.host, VSET, attachment));
    assert_eq!(database.host.vsets[&VSET.0].database_runtime.active, Some(attachment));
    let _ = database.begin_detach(attachment, DetachMode::Forced);
    let told = answer_request(
        &mut database.host,
        VSET,
        attachment,
        true,
        Ok(DatabaseSuccess::Opened),
    );
    assert_eq!(told, Err(DatabaseError::StaleAttachment));
    assert_eq!(database.host.vsets[&VSET.0].database_runtime.active, None);
    assert!(!note_request(&mut database.host, VSET, attachment));
    let untouched =
        answer_request(&mut database.host, VSET, attachment, false, Err(DatabaseError::NotAttached));
    assert_eq!(untouched, Err(DatabaseError::NotAttached));
}
