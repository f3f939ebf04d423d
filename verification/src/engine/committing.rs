//! The course of a database commit: from new pages to a record in effect.
//!
//! Segments and leaves are written first, then both copies of the record. The
//! vset is changed only once all of them are on the device.

use super::persist::{
    abandon_persist, blob_writes, claim_persist, claim_refusal, commit_persist, commit_record,
    committed, extended, is_record, persist_plan, plan_blobs, plan_persist, pruned, stage_persist,
    total_bytes, BuiltSegment, DatabasePersistError, PageMap, PersistPlan, Rolled, Staged,
};
use super::state::{follows, BlobLedger, Counters, HostState, MutationOwner, Operations, VsetState};
use super::task::DatabaseCommit;
use crate::database::DatabaseFile;
use crate::journal::{BlobName, JournalRecord};
use crate::types::{PageId, VsetId};
use vstd::prelude::*;

verus! {

broadcast use vstd::std_specs::btree::group_btree_axioms;

/// A commit whose pages are being put into segments.
pub struct CommitJob {
    pub vset: VsetId,
    pub commit: DatabaseCommit,
    pub plan: PersistPlan,
}

impl CommitJob {
    /// The plan has a generation for every page, and the pages have numbers.
    pub open spec fn numbered(self) -> bool {
        &&& self.plan.generation_after == self.plan.first_generation + self.commit.pages@.len()
        &&& self.commit.first + self.commit.pages@.len() <= u32::MAX + 1
    }

    /// The `i`th changed page, and the generation it gets.
    pub open spec fn update_at(self, i: int) -> (PageId, u64) {
        (
            self.commit.file.page(self.vset, (self.commit.first + i) as u32),
            (self.plan.first_generation + i) as u64,
        )
    }
}

/// A commit whose page map is being rolled into leaves.
pub struct StagedJob {
    pub job: CommitJob,
    pub segments: Vec<BuiltSegment>,
    pub staged: Staged,
}

/// A commit that is being written.
pub struct CommitWrite {
    pub job: CommitJob,
    pub segments: Vec<BuiltSegment>,
    pub staged: Staged,
    pub rolled: Rolled,
    pub record: JournalRecord,
    pub blobs: Vec<(BlobName, u64)>,
    /// How many blobs have been written.
    pub done: usize,
}

pub enum CommitStep {
    /// Put the pages into segments, numbered as planned.
    Build(CommitJob),
    /// Roll the page map into leaves.
    Roll(StagedJob),
    /// Write the next blob.
    WriteBlob(CommitWrite),
    /// Write both copies of the record.
    WriteRecord(CommitWrite),
    /// The record is in effect: tell who waits, then reclaim what is no longer
    /// needed.
    Reclaim { sequence: u64, waiters: Vec<u64> },
    Done(Result<u64, DatabasePersistError>),
    /// The commit failed; the host cannot go on.
    Fatal,
}

/// Plans a commit.
pub fn begin_commit(host: &HostState, vset: VsetId, commit: DatabaseCommit) -> (step: CommitStep)
    ensures
        step == (if !host.vsets@.contains_key(vset.0) {
            CommitStep::Done(Err(DatabasePersistError::Stale))
        } else {
            match persist_plan(
                host.vsets@[vset.0],
                commit.pages@.len(),
                commit.mutation,
                commit.barrier,
            ) {
                Ok(plan) => CommitStep::Build(CommitJob { vset, commit, plan }),
                Err(error) => CommitStep::Done(Err(error)),
            }
        }),
        match step {
            CommitStep::Build(job) => commit.first + commit.pages@.len() <= u32::MAX + 1
                ==> job.numbered(),
            _ => true,
        },
{
    match plan_persist(
        host.vsets.get(&vset.0),
        commit.pages.len(),
        commit.mutation,
        commit.barrier,
    ) {
        Ok(plan) => CommitStep::Build(CommitJob { vset, commit, plan }),
        Err(error) => CommitStep::Done(Err(error)),
    }
}

/// What segments are built of: each changed page with its generation, in the
/// order of the commit's pages.
pub fn page_updates(job: &CommitJob) -> (list: Vec<(PageId, u64)>)
    requires
        job.numbered(),
    ensures
        list@.len() == job.commit.pages@.len(),
        forall|i: int| 0 <= i < list@.len() ==> #[trigger] list@[i] == job.update_at(i),
{
    let mut list: Vec<(PageId, u64)> = Vec::new();
    let mut i: usize = 0;
    while i < job.commit.pages.len()
        invariant
            job.numbered(),
            i <= job.commit.pages@.len(),
            list@.len() == i,
            forall|a: int| 0 <= a < i ==> #[trigger] list@[a] == job.update_at(a),
        decreases job.commit.pages@.len() - i,
    {
        let number: u32 = (job.commit.first + i as u64) as u32;
        let page: PageId = job.commit.file.page(job.vset, number);
        let generation: u64 = job.plan.first_generation + i as u64;
        list.push((page, generation));
        i = i + 1;
    }
    list
}

/// Every changed page is updated once, under a generation of its own that comes
/// after all that were given out before.
pub proof fn updates_are_new(state: VsetState, job: CommitJob, i: int, j: int)
    requires
        job.numbered(),
        persist_plan(
            state,
            job.commit.pages@.len(),
            job.commit.mutation,
            job.commit.barrier,
        ) == Ok::<PersistPlan, DatabasePersistError>(job.plan),
        0 <= i < j < job.commit.pages@.len(),
    ensures
        job.update_at(i).0 != job.update_at(j).0,
        state.next_gen <= job.update_at(i).1 < job.update_at(j).1 < job.plan.generation_after,
{
}

/// The staged page map is that of the vset with the new pages, and then cut.
pub open spec fn stages(
    state: VsetState,
    plan: PersistPlan,
    commit: DatabaseCommit,
    segments: Seq<BuiltSegment>,
    staged: Staged,
) -> bool {
    &&& staged.segment_after == plan.first_segment + segments.len()
    &&& match commit.prune {
        None => extended(state, staged.map, segments),
        Some(first_removed) => exists|full: PageMap| #[trigger]
            extended(state, full, segments) && pruned(
                full,
                staged.map,
                plan.config,
                commit.file,
                first_removed,
            ),
    }
}

/// What follows once the pages are in segments, or the numbers ran out.
pub fn segments_built(host: &HostState, job: CommitJob, segments: Option<Vec<BuiltSegment>>) -> (step:
    CommitStep)
    ensures
        if segments is None || job.plan.first_segment + segments->0@.len() > u64::MAX {
            step == CommitStep::Done(Err(DatabasePersistError::Overflow))
        } else if !host.vsets@.contains_key(job.vset.0) {
            step == CommitStep::Done(Err(DatabasePersistError::Stale))
        } else {
            match step {
                CommitStep::Roll(next) => {
                    &&& next.job == job
                    &&& next.segments == segments->0
                    &&& stages(
                        host.vsets@[job.vset.0],
                        job.plan,
                        job.commit,
                        segments->0@,
                        next.staged,
                    )
                },
                _ => false,
            }
        },
{
    let segments: Vec<BuiltSegment> = match segments {
        Some(segments) => segments,
        None => {
            return CommitStep::Done(Err(DatabasePersistError::Overflow));
        },
    };
    if job.plan.first_segment.checked_add(segments.len() as u64).is_none() {
        return CommitStep::Done(Err(DatabasePersistError::Overflow));
    }
    let state: &VsetState = match host.vsets.get(&job.vset.0) {
        Some(state) => state,
        None => {
            return CommitStep::Done(Err(DatabasePersistError::Stale));
        },
    };
    let prune: Option<(DatabaseFile, u64)> = match job.commit.prune {
        Some(first_removed) => Some((job.commit.file, first_removed)),
        None => None,
    };
    match stage_persist(state, &job.plan, &segments, prune) {
        Ok(staged) => CommitStep::Roll(StagedJob { job, segments, staged }),
        Err(error) => CommitStep::Done(Err(error)),
    }
}

/// `after` is `before` with the right to change the vset taken and room set
/// aside.
pub open spec fn claimed(
    before: HostState,
    after: HostState,
    vset: VsetId,
    blobs: Seq<(BlobName, u64)>,
) -> bool {
    &&& after == (HostState {
        vsets: after.vsets,
        ledger: BlobLedger {
            reserved: (before.ledger.reserved + total_bytes(blobs)) as u64,
            ..before.ledger
        },
        ..before
    })
    &&& after.vsets@ == before.vsets@.insert(
        vset.0,
        VsetState {
            operations: Operations {
                mutation: Some(MutationOwner::Database),
                ..before.vsets@[vset.0].operations
            },
            ..before.vsets@[vset.0]
        },
    )
}

/// What is written next.
pub open spec fn writing_step(write: CommitWrite) -> CommitStep {
    if write.done < write.blobs@.len() {
        CommitStep::WriteBlob(write)
    } else {
        CommitStep::WriteRecord(write)
    }
}

fn next_write(write: CommitWrite) -> (step: CommitStep)
    ensures
        step == writing_step(write),
{
    if write.done < write.blobs.len() {
        CommitStep::WriteBlob(write)
    } else {
        CommitStep::WriteRecord(write)
    }
}

/// What follows once the page map is rolled into leaves: the right to change the
/// vset is taken, and room is set aside.
pub fn map_rolled(host: &mut HostState, staged: StagedJob, rolled: Rolled) -> (step: CommitStep)
    ensures
        ({
            let job = staged.job;
            let blobs = blob_writes(
                job.vset,
                job.plan.fence,
                staged.segments@,
                rolled.writes@,
            );
            match claim_refusal(*old(host), job.vset, job.plan.incarnation, blobs) {
                Some(error) => step == CommitStep::Done(Err(error)) && *final(host) == *old(host),
                None => {
                    let write = match step {
                        CommitStep::WriteBlob(write) => write,
                        CommitStep::WriteRecord(write) => write,
                        _ => arbitrary(),
                    };
                    &&& claimed(*old(host), *final(host), job.vset, blobs)
                    &&& write.job == job
                    &&& write.segments == staged.segments
                    &&& write.staged == staged.staged
                    &&& write.rolled == rolled
                    &&& is_record(write.record, job.plan, job.commit.database, rolled)
                    &&& write.blobs@ == blobs
                    &&& write.done == 0
                    &&& step == writing_step(write)
                },
            }
        }),
        follows(*old(host), *final(host)),
{
    let job: CommitJob = staged.job;
    let blobs: Vec<(BlobName, u64)> = plan_blobs(
        job.vset,
        job.plan.fence,
        &staged.segments,
        &rolled.writes,
    );
    let record: JournalRecord = commit_record(&job.plan, job.commit.database, &rolled);
    match claim_persist(host, job.vset, job.plan.incarnation, &blobs) {
        Err(error) => CommitStep::Done(Err(error)),
        Ok(_) => next_write(
            CommitWrite {
                job,
                segments: staged.segments,
                staged: staged.staged,
                rolled,
                record,
                blobs,
                done: 0,
            },
        ),
    }
}

/// `after` is `before` with the right to change the vset given back.
pub open spec fn released(before: HostState, after: HostState, vset: VsetId, incarnation: u64) ->
    bool {
    if before.vsets@.contains_key(vset.0) && before.vsets@[vset.0].incarnation == incarnation {
        let was = before.vsets@[vset.0];
        &&& after == (HostState { vsets: after.vsets, ..before })
        &&& after.vsets@ == before.vsets@.insert(
            vset.0,
            VsetState {
                operations: (if was.operations.mutation == Some(MutationOwner::Database) {
                    Operations { mutation: None, ..was.operations }
                } else {
                    was.operations
                }),
                ..was
            },
        )
    } else {
        after == before
    }
}

fn release(host: &mut HostState, vset: VsetId, incarnation: u64)
    ensures
        released(*old(host), *final(host), vset, incarnation),
{
    let here: bool = match host.vsets.get(&vset.0) {
        Some(state) => state.incarnation == incarnation,
        None => false,
    };
    if !here {
        return ;
    }
    let ghost was = host.vsets@;
    if let Some(mut state) = host.vsets.remove(&vset.0) {
        abandon_persist(&mut state);
        host.vsets.insert(vset.0, state);
        proof {
            assert(was.remove(vset.0).insert(vset.0, state) =~= was.insert(vset.0, state));
        }
    }
}

/// What follows once a blob was written, or could not be.
pub fn blob_written(host: &mut HostState, write: CommitWrite, written: bool) -> (step: CommitStep)
    requires
        write.done < write.blobs@.len(),
        old(host).ledger.used + write.blobs@[write.done as int].1 <= u64::MAX,
    ensures
        if !written {
            &&& step is Fatal
            &&& released(*old(host), *final(host), write.job.vset, write.job.plan.incarnation)
        } else {
            let bytes = write.blobs@[write.done as int].1;
            &&& step == writing_step(CommitWrite { done: (write.done + 1) as usize, ..write })
            &&& *final(host) == (HostState {
                ledger: BlobLedger {
                    used: (old(host).ledger.used + bytes) as u64,
                    reserved: (if old(host).ledger.reserved >= bytes {
                        old(host).ledger.reserved - bytes
                    } else {
                        0
                    }) as u64,
                    ..old(host).ledger
                },
                ..*old(host)
            })
        },
        follows(*old(host), *final(host)),
{
    if !written {
        release(host, write.job.vset, write.job.plan.incarnation);
        return CommitStep::Fatal;
    }
    assert(write.done < write.blobs.len());
    host.ledger.record(write.blobs[write.done].1);
    let done: usize = write.done + 1;
    next_write(CommitWrite { done, ..write })
}

/// What follows once both copies of the record were written, or could not be.
/// Then the record is in effect.
pub fn commit_record_written(host: &mut HostState, write: CommitWrite, written: bool) -> (step:
    CommitStep)
    requires
        old(host).counters.pages_flushed + write.job.commit.pages@.len() <= u64::MAX,
        old(host).counters.records_written < u64::MAX,
        old(host).counters.leaf_rolls + write.rolled.writes@.len() <= u64::MAX,
    ensures
        ({
            let job = write.job;
            let here = old(host).vsets@.contains_key(job.vset.0)
                && old(host).vsets@[job.vset.0].incarnation == job.plan.incarnation;
            if !written {
                step is Fatal && released(
                    *old(host),
                    *final(host),
                    job.vset,
                    job.plan.incarnation,
                )
            } else if !here {
                step == CommitStep::Done(Err(DatabasePersistError::Stale)) && *final(host)
                    == *old(host)
            } else {
                &&& match step {
                    CommitStep::Reclaim { sequence, waiters } => sequence == job.plan.capture_seq
                        && waiters@ == old(host).vsets@[job.vset.0].mutation_waiters@,
                    _ => false,
                }
                &&& *final(host) == (HostState {
                    vsets: final(host).vsets,
                    counters: Counters {
                        pages_flushed: (old(host).counters.pages_flushed
                            + job.commit.pages@.len()) as u64,
                        records_written: (old(host).counters.records_written + 1) as u64,
                        leaf_rolls: (old(host).counters.leaf_rolls
                            + write.rolled.writes@.len()) as u64,
                        ..old(host).counters
                    },
                    ..*old(host)
                })
                &&& final(host).vsets@ == old(host).vsets@.insert(
                    job.vset.0,
                    final(host).vsets@[job.vset.0],
                )
                &&& committed(
                    old(host).vsets@[job.vset.0],
                    final(host).vsets@[job.vset.0],
                    job.plan,
                    write.staged,
                    write.rolled,
                    write.record,
                    job.commit.database,
                    write.segments@,
                )
            }
        }),
        follows(*old(host), *final(host)),
{
    let job: CommitJob = write.job;
    if !written {
        release(host, job.vset, job.plan.incarnation);
        return CommitStep::Fatal;
    }
    match commit_persist(
        host,
        job.vset,
        job.plan,
        write.staged,
        write.rolled,
        write.record,
        job.commit.database,
        &write.segments,
        job.commit.pages.len(),
    ) {
        Ok(waiters) => CommitStep::Reclaim { sequence: job.plan.capture_seq, waiters },
        Err(error) => CommitStep::Done(Err(error)),
    }
}

/// What follows once what is no longer needed was reclaimed, or could not be.
pub fn reclaimed(sequence: u64, freed: bool) -> (step: CommitStep)
    ensures
        step == (if freed {
            CommitStep::Done(Ok(sequence))
        } else {
            CommitStep::Fatal
        }),
{
    if freed {
        CommitStep::Done(Ok(sequence))
    } else {
        CommitStep::Fatal
    }
}

/// A commit that fails while it is written gives the vset back as it was.
pub proof fn failed_commits_give_the_vset_back(
    before: HostState,
    after: HostState,
    vset: VsetId,
    incarnation: u64,
    blobs: Seq<(BlobName, u64)>,
    mid: HostState,
)
    requires
        before.vsets@.contains_key(vset.0),
        before.vsets@[vset.0].incarnation == incarnation,
        before.vsets@[vset.0].operations.mutation is None,
        claimed(before, mid, vset, blobs),
        released(mid, after, vset, incarnation),
    ensures
        after.vsets@ == before.vsets@,
{
    assert(after.vsets@ =~= before.vsets@);
}

/// Nothing of a commit is visible before its record is in effect: until then the
/// vset is as it was, but for the right to change it.
pub proof fn unfinished_commits_are_not_visible(
    before: HostState,
    after: HostState,
    vset: VsetId,
    blobs: Seq<(BlobName, u64)>,
)
    requires
        before.vsets@.contains_key(vset.0),
        claimed(before, after, vset, blobs),
    ensures
        after.vsets@[vset.0].page_locs == before.vsets@[vset.0].page_locs,
        after.vsets@[vset.0].database == before.vsets@[vset.0].database,
        after.vsets@[vset.0].mutation_seq == before.vsets@[vset.0].mutation_seq,
        after.vsets@[vset.0].best_record == before.vsets@[vset.0].best_record,
{
}

} // verus!
