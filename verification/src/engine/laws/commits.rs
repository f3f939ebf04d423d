//! What committing is for: a commit takes effect as a whole, its pages are found
//! from then on, and no other page moves.

use super::super::committing::{claimed, released, stages};
use super::super::persist::{
    blob_writes, claim_refusal, committed, cut_spans, extended, is_cut, is_record, persist_plan,
    pruned, total_bytes, with_entries, with_segments, BuiltSegment, DatabasePersistError, PageMap,
    PersistPlan, Rolled, Staged,
};
use super::super::state::{HostState, LeafBlob, MutationOwner, VsetState};
use super::super::task::DatabaseCommit;
use crate::database::DatabaseFile;
use crate::journal::{
    BlobName, DatabaseMeta, JournalRecord, MigrationSource, PageLoc, RecordKind, VsetConfig,
    LEAF_SPAN,
};
use crate::types::VsetId;
use vstd::prelude::*;

verus! {

// ---------------------------------------------------------------------------
// Pages
// ---------------------------------------------------------------------------

/// Of several entries for a page the last counts, whatever was known before, and
/// a page without an entry stays where it was.
pub proof fn the_last_entry_of_a_page_counts(
    map: Map<u64, PageLoc>,
    entries: Seq<(u64, PageLoc)>,
    key: u64,
)
    ensures
        (forall|i: int| 0 <= i < entries.len() ==> (#[trigger] entries[i]).0 != key) ==> {
            &&& with_entries(map, entries).contains_key(key) == map.contains_key(key)
            &&& with_entries(map, entries)[key] == map[key]
        },
        forall|i: int|
            0 <= i < entries.len() && (#[trigger] entries[i]).0 == key && (forall|j: int|
                i < j < entries.len() ==> (#[trigger] entries[j]).0 != key) ==> {
                &&& with_entries(map, entries).contains_key(key)
                &&& with_entries(map, entries)[key] == entries[i].1
            },
    decreases entries.len(),
{
    if entries.len() > 0 {
        let front = entries.drop_last();
        let end = entries.len() - 1;
        the_last_entry_of_a_page_counts(map, front, key);
        assert(entries[end] == entries.last());
        if forall|i: int| 0 <= i < entries.len() ==> (#[trigger] entries[i]).0 != key {
            assert forall|i: int| 0 <= i < front.len() implies (#[trigger] front[i]).0 != key by {
                assert(entries[i].0 != key);
            }
        }
        assert forall|i: int|
            0 <= i < entries.len() && (#[trigger] entries[i]).0 == key && (forall|j: int|
                i < j < entries.len() ==> (#[trigger] entries[j]).0 != key) implies {
            &&& with_entries(map, entries).contains_key(key)
            &&& with_entries(map, entries)[key] == entries[i].1
        } by {
            if i < end {
                assert(entries[end].0 != key);
                assert(front[i] == entries[i]);
                assert forall|j: int| i < j < front.len() implies (#[trigger] front[j]).0
                    != key by {
                    assert(entries[j].0 != key);
                }
            }
        }
    }
}

/// A page that new segments hold is found in the last of them that holds it; a
/// page that none holds stays where it was.
pub proof fn the_last_segment_of_a_page_counts(
    map: Map<u64, PageLoc>,
    segments: Seq<BuiltSegment>,
    key: u64,
    s: int,
    e: int,
)
    ensures
        (forall|i: int, j: int|
            0 <= i < segments.len() && 0 <= j < segments[i].entries@.len() ==> (
            #[trigger] segments[i].entries@[j]).0 != key) ==> {
            &&& with_segments(map, segments).contains_key(key) == map.contains_key(key)
            &&& with_segments(map, segments)[key] == map[key]
        },
        0 <= s < segments.len() && 0 <= e < segments[s].entries@.len() && segments[s].entries@[e].0
            == key && (forall|j: int|
            e < j < segments[s].entries@.len() ==> (#[trigger] segments[s].entries@[j]).0 != key)
            && (forall|i: int, j: int|
            s < i < segments.len() && 0 <= j < segments[i].entries@.len() ==> (
            #[trigger] segments[i].entries@[j]).0 != key) ==> {
            &&& with_segments(map, segments).contains_key(key)
            &&& with_segments(map, segments)[key] == segments[s].entries@[e].1
        },
    decreases segments.len(),
{
    if segments.len() > 0 {
        let front = segments.drop_last();
        let end = segments.len() - 1;
        let last = segments.last().entries@;
        let rest = with_segments(map, front);
        assert(segments[end] == segments.last());
        the_last_segment_of_a_page_counts(map, front, key, s, e);
        the_last_entry_of_a_page_counts(rest, last, key);
        if forall|i: int, j: int|
            0 <= i < segments.len() && 0 <= j < segments[i].entries@.len() ==> (
            #[trigger] segments[i].entries@[j]).0 != key {
            assert forall|i: int, j: int|
                0 <= i < front.len() && 0 <= j < front[i].entries@.len() implies (
            #[trigger] front[i].entries@[j]).0 != key by {
                assert(segments[i].entries@[j].0 != key);
            }
            assert forall|j: int| 0 <= j < last.len() implies (#[trigger] last[j]).0 != key by {
                assert(segments[end].entries@[j].0 != key);
            }
        }
        if 0 <= s < segments.len() && 0 <= e < segments[s].entries@.len()
            && segments[s].entries@[e].0 == key && (forall|j: int|
            e < j < segments[s].entries@.len() ==> (#[trigger] segments[s].entries@[j]).0 != key)
            && (forall|i: int, j: int|
            s < i < segments.len() && 0 <= j < segments[i].entries@.len() ==> (
            #[trigger] segments[i].entries@[j]).0 != key) {
            if s < end {
                assert(front[s] == segments[s]);
                assert forall|j: int| e < j < front[s].entries@.len() implies (
                #[trigger] front[s].entries@[j]).0 != key by {
                    assert(segments[s].entries@[j].0 != key);
                }
                assert forall|i: int, j: int|
                    s < i < front.len() && 0 <= j < front[i].entries@.len() implies (
                #[trigger] front[i].entries@[j]).0 != key by {
                    assert(segments[i].entries@[j].0 != key);
                }
                assert forall|j: int| 0 <= j < last.len() implies (#[trigger] last[j]).0
                    != key by {
                    assert(segments[end].entries@[j].0 != key);
                }
            } else {
                assert(last[e].0 == key);
                assert forall|j: int| e < j < last.len() implies (#[trigger] last[j]).0 != key by {
                    assert(segments[end].entries@[j].0 != key);
                }
            }
        }
    }
}

/// What a commit stages: the pages it writes lie in its segments, pages of its file
/// at or above the cut are gone, and every other page lies where it did.
pub proof fn a_commit_moves_its_pages_only(
    state: VsetState,
    plan: PersistPlan,
    commit: DatabaseCommit,
    segments: Seq<BuiltSegment>,
    staged: Staged,
    key: u64,
    s: int,
    e: int,
)
    requires
        stages(state, plan, commit, segments, staged),
    ensures
        ({
            let volume = if commit.file == DatabaseFile::Main {
                0int
            } else if commit.file == DatabaseFile::Wal {
                1
            } else {
                2
            };
            let cut = match commit.prune {
                Some(first) => key / 0x1_0000_0000 == volume && key % 0x1_0000_0000 >= first,
                None => false,
            };
            let unwritten = forall|i: int, j: int|
                0 <= i < segments.len() && 0 <= j < segments[i].entries@.len() ==> (
                #[trigger] segments[i].entries@[j]).0 != key;
            let written = 0 <= s < segments.len() && 0 <= e < segments[s].entries@.len()
                && segments[s].entries@[e].0 == key && (forall|j: int|
                e < j < segments[s].entries@.len() ==> (#[trigger] segments[s].entries@[j]).0
                    != key) && (forall|i: int, j: int|
                s < i < segments.len() && 0 <= j < segments[i].entries@.len() ==> (
                #[trigger] segments[i].entries@[j]).0 != key);
            let now = staged.map.page_locs@;
            &&& cut ==> !now.contains_key(key)
            &&& !cut && unwritten ==> now.contains_key(key) == state.page_locs@.contains_key(key)
            &&& !cut && unwritten && now.contains_key(key) ==> now[key] == state.page_locs@[key]
            &&& !cut && written ==> now.contains_key(key) && now[key] == segments[s].entries@[e].1
            &&& staged.segment_after == plan.first_segment + segments.len()
        }),
{
    the_last_segment_of_a_page_counts(state.page_locs@, segments, key, s, e);
    if let Some(first) = commit.prune {
        let full = choose|full: PageMap| #[trigger]
            extended(state, full, segments) && pruned(
                full,
                staged.map,
                plan.config,
                commit.file,
                first,
            );
        assert(full.page_locs@ == with_segments(state.page_locs@, segments));
        let there = staged.map.page_locs@.contains_key(key);
        assert(there <==> full.page_locs@.contains_key(key) && !is_cut(commit.file, first, key));
    }
}

/// A cut takes a leaf apart exactly if it holds a page that goes or may hold one;
/// what is left of it is listed by page from then on, and every page that stays
/// keeps its place.
pub proof fn a_cut_keeps_every_page_that_stays(
    before: PageMap,
    after: PageMap,
    config: VsetConfig,
    file: DatabaseFile,
    first_removed: u64,
    key: u64,
)
    requires
        pruned(before, after, config, file, first_removed),
    ensures
        ({
            let volume = if file == DatabaseFile::Main {
                0int
            } else if file == DatabaseFile::Wal {
                1
            } else {
                2
            };
            let span = (key as int / LEAF_SPAN as int) as u64;
            let goes = key / 0x1_0000_0000 == volume && key % 0x1_0000_0000 >= first_removed;
            &&& goes ==> !after.page_locs@.contains_key(key)
            &&& !goes && before.page_locs@.contains_key(key) ==> after.page_locs@.contains_key(key)
                && after.page_locs@[key] == before.page_locs@[key]
            &&& !goes && !before.page_locs@.contains_key(key) ==> !after.page_locs@.contains_key(key)
            &&& before.page_locs@.contains_key(key) && goes ==> !after.leaf_table@.contains_key(
                span,
            ) && after.hydrated_spans@.contains(span) && !after.failed_spans@.contains(span)
            &&& before.leaf_table@.contains_key(span) && !after.leaf_table@.contains_key(span)
                && after.page_locs@.contains_key(key) ==> after.overlay@.contains_key(key)
                && after.overlay@[key] == before.page_locs@[key]
            &&& after.leaf_table@.contains_key(span) ==> before.leaf_table@.contains_key(span)
                && after.leaf_table@[span] == before.leaf_table@[span]
            &&& before.hydrated_spans@.contains(span) ==> after.hydrated_spans@.contains(span)
        }),
{
    let span = (key as int / LEAF_SPAN as int) as u64;
    let there = after.page_locs@.contains_key(key);
    let leaf = after.leaf_table@.contains_key(span);
    let listed = after.overlay@.contains_key(key);
    let hydrated = after.hydrated_spans@.contains(span);
    let failed = after.failed_spans@.contains(span);
    let was = before.page_locs@.contains_key(key);
    assert(crate::journal::key_span_spec(key) == span);
}

/// The leaves a cut of a file can reach: from the one its first page to go is in
/// to the one of the file's last page.
pub proof fn a_cut_reaches_the_rest_of_the_file(
    config: VsetConfig,
    file: DatabaseFile,
    first_removed: u64,
    page: u32,
)
    requires
        first_removed <= page < config.pages_per_volume,
    ensures
        ({
            let volume = if file == DatabaseFile::Main {
                0int
            } else if file == DatabaseFile::Wal {
                1
            } else {
                2
            };
            let span = (volume * 0x1_0000_0000 + page) / LEAF_SPAN as int;
            let (first, last) = cut_spans(config, file, first_removed);
            &&& first <= span <= last
            &&& first == (volume * 0x1_0000_0000 + first_removed) / LEAF_SPAN as int
            &&& last == (volume * 0x1_0000_0000 + config.pages_per_volume - 1) / LEAF_SPAN as int
        }),
{
}

// ---------------------------------------------------------------------------
// The plan and the record
// ---------------------------------------------------------------------------

/// When a commit may be made, and what numbers it gets: its own record, one more
/// write if it is one, and a generation for each page.
pub proof fn a_commit_gets_new_numbers(
    state: VsetState,
    updates: nat,
    mutation: bool,
    barrier: Option<u64>,
)
    ensures
        ({
            let busy = state.operations.mutation is Some || state.operations.migration;
            let full = (mutation && state.mutation_seq == u64::MAX) || state.next_seq == u64::MAX
                || state.next_gen + updates > u64::MAX;
            let plan = persist_plan(state, updates, mutation, barrier);
            &&& plan == Err::<PersistPlan, DatabasePersistError>(DatabasePersistError::Stale)
                <==> !state.ready
            &&& plan == Err::<PersistPlan, DatabasePersistError>(DatabasePersistError::Busy)
                <==> state.ready && busy
            &&& plan == Err::<PersistPlan, DatabasePersistError>(DatabasePersistError::Overflow)
                <==> state.ready && !busy && full
            &&& plan is Ok <==> state.ready && !busy && !full
            &&& plan is Ok ==> {
                let p = plan->Ok_0;
                &&& p.incarnation == state.incarnation
                &&& p.config == state.config
                &&& p.fence == state.fence
                &&& p.seq == state.next_seq
                &&& p.sequence_after == state.next_seq + 1
                &&& p.capture_seq == state.mutation_seq + (if mutation {
                    1int
                } else {
                    0
                })
                &&& p.first_segment == state.next_seg
                &&& p.first_generation == state.next_gen
                &&& p.generation_after == state.next_gen + updates
                &&& p.covered >= state.local_covered_through
                &&& barrier matches Some(b) ==> p.covered >= b
                &&& p.covered == state.local_covered_through || Some(p.covered) == barrier
                &&& match state.peer_source {
                    Some(host) => p.migrated_from == Some(
                        MigrationSource { host, offer_fence: state.peer_source_offer_fence },
                    ),
                    None => p.migrated_from is None,
                }
            }
        }),
{
}

/// A commit takes effect as a whole: its pages, its files' sizes and its record,
/// and the right to change the vset is given back. What was acknowledged stays
/// acknowledged.
pub proof fn a_commit_takes_effect_as_a_whole(
    before: VsetState,
    after: VsetState,
    plan: PersistPlan,
    staged: Staged,
    rolled: Rolled,
    record: JournalRecord,
    database: DatabaseMeta,
    segments: Seq<BuiltSegment>,
    seq: u64,
    i: int,
    l: int,
)
    requires
        committed(before, after, plan, staged, rolled, record, database, segments),
        is_record(record, plan, database, rolled),
    ensures
        after.best_record == Some(record),
        record.kind == RecordKind::Commit,
        record.seq == plan.seq,
        record.fence == plan.fence,
        record.config == plan.config,
        record.capture_seq == plan.capture_seq,
        record.sync_covered_through == plan.covered,
        record.database == database,
        record.overlay@ == rolled.overlay@,
        record.leaves@ == rolled.leaves@,
        record.migrated_from == plan.migrated_from,
        after.database == database,
        after.page_locs@ == staged.map.page_locs@,
        after.overlay@ == rolled.overlay@,
        after.leaf_table@ == rolled.leaves@,
        after.mutation_seq == plan.capture_seq,
        after.next_seq == plan.sequence_after,
        after.next_gen == plan.generation_after,
        after.next_seg == staged.segment_after,
        after.next_leaf == rolled.next_leaf,
        after.local_covered_through == plan.covered,
        after.record_writes@.contains_key(plan.seq),
        after.record_writes@[plan.seq] == (plan.fence, plan.covered),
        seq != plan.seq ==> after.record_writes@.contains_key(seq)
            == before.record_writes@.contains_key(seq) && after.record_writes@[seq]
            == before.record_writes@[seq],
        after.segment_blobs@.len() == before.segment_blobs@.len() + segments.len(),
        0 <= i < segments.len() ==> {
            let blob = after.segment_blobs@[before.segment_blobs@.len() + i];
            blob.fence == plan.fence && blob.id == segments[i].id && blob.bytes == segments[i].bytes
        },
        0 <= i < before.segment_blobs@.len() ==> after.segment_blobs@[i]
            == before.segment_blobs@[i],
        after.leaf_blobs@.len() == before.leaf_blobs@.len() + rolled.writes@.len(),
        0 <= l < rolled.writes@.len() ==> after.leaf_blobs@[before.leaf_blobs@.len() + l]
            == rolled.writes@[l],
        0 <= l < before.leaf_blobs@.len() ==> after.leaf_blobs@[l] == before.leaf_blobs@[l],
        after.mutation_waiters@.len() == 0,
        before.operations.mutation == Some(MutationOwner::Database)
            ==> after.operations.mutation is None,
        before.operations.mutation != Some(MutationOwner::Database) ==> after.operations.mutation
            == before.operations.mutation,
        after.operations.migration == before.operations.migration,
        after.sync_ack_through == before.sync_ack_through,
        after.fence == before.fence,
        after.ready == before.ready,
        after.database_runtime == before.database_runtime,
{
}

// ---------------------------------------------------------------------------
// Room and right
// ---------------------------------------------------------------------------

/// What a list of blobs takes is what each takes.
pub proof fn blobs_take_what_each_takes(blobs: Seq<(BlobName, u64)>, more: (BlobName, u64))
    ensures
        total_bytes(blobs.push(more)) == total_bytes(blobs) + more.1,
        total_bytes(Seq::<(BlobName, u64)>::empty()) == 0,
{
    assert(blobs.push(more).drop_last() =~= blobs);
}

/// A commit writes each of its segments and each of its leaves once, under its own
/// name and with its size.
pub proof fn a_commit_writes_segments_and_leaves(
    vset: VsetId,
    fence: u64,
    segments: Seq<BuiltSegment>,
    leaves: Seq<LeafBlob>,
    s: int,
    l: int,
)
    ensures
        ({
            let blobs = blob_writes(vset, fence, segments, leaves);
            &&& blobs.len() == segments.len() + leaves.len()
            &&& 0 <= s < segments.len() ==> blobs[s] == (
                BlobName::Segment { vset, fence, segment: segments[s].id },
                segments[s].bytes,
            )
            &&& 0 <= l < leaves.len() ==> blobs[segments.len() + l] == (
                BlobName::Leaf {
                    vset,
                    fence: leaves[l].pointer.fence,
                    leaf: leaves[l].pointer.id,
                },
                leaves[l].bytes,
            )
        }),
{
}

/// A commit goes ahead on a vset that nobody else changes, if there is room for all
/// it writes beside what is kept free.
pub proof fn a_commit_needs_right_and_room(
    host: HostState,
    vset: VsetId,
    incarnation: u64,
    blobs: Seq<(BlobName, u64)>,
)
    ensures
        ({
            let there = host.vsets@.contains_key(vset.0) && host.vsets@[vset.0].incarnation
                == incarnation;
            let busy = host.vsets@[vset.0].operations.mutation is Some
                || host.vsets@[vset.0].operations.migration;
            let need = total_bytes(blobs);
            let room = host.ledger.reserved + need <= u64::MAX && match host.ledger.capacity {
                Some(capacity) => host.ledger.used + host.ledger.reserved + need
                    + host.ledger.headroom <= capacity,
                None => true,
            };
            let said = claim_refusal(host, vset, incarnation, blobs);
            &&& said == Some(DatabasePersistError::Stale) <==> !there
            &&& said == Some(DatabasePersistError::Busy) <==> there && busy
            &&& said == Some(DatabasePersistError::Capacity) <==> there && !busy && !room
            &&& said is None <==> there && !busy && room
        }),
{
}

/// A commit that goes ahead has the right to change the vset, and room for what it
/// writes; giving the right back leaves the vset as it was before.
pub proof fn a_claim_is_given_back(
    before: HostState,
    claim: HostState,
    after: HostState,
    vset: VsetId,
    incarnation: u64,
    blobs: Seq<(BlobName, u64)>,
    elsewhere: u64,
)
    requires
        before.vsets@.contains_key(vset.0),
        before.vsets@[vset.0].incarnation == incarnation,
        claim_refusal(before, vset, incarnation, blobs) is None,
        claimed(before, claim, vset, blobs),
        released(claim, after, vset, incarnation),
        elsewhere != vset.0,
    ensures
        claim.vsets@[vset.0].operations.mutation == Some(MutationOwner::Database),
        claim.ledger.reserved == before.ledger.reserved + total_bytes(blobs),
        claim.ledger.used == before.ledger.used,
        claim.vsets@[vset.0].page_locs == before.vsets@[vset.0].page_locs,
        claim.vsets@[vset.0].best_record == before.vsets@[vset.0].best_record,
        after.vsets@[vset.0] == before.vsets@[vset.0],
        after.vsets@.contains_key(elsewhere) == before.vsets@.contains_key(elsewhere),
        after.vsets@[elsewhere] == before.vsets@[elsewhere],
{
}

} // verus!
