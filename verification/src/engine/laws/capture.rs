//! What captures are for: every written page ends up in a file, is found there
//! from then on, and the record tells so.

use super::super::capture::{
    acknowledged, armed_pages, blocks_after, capture_finished, capture_refused, capture_reserved,
    checkpoint_decision, covered_through, describes, drops_vmm, file_recorded, has_page,
    is_initial_record, is_vmm_code, may_give_up, may_move, needed_files, numbered, page_numbers,
    page_taken, prepared_entry, rescue_pairs, rescued_entries, rescued_pages, saved_before_write,
    tombstone_numbers, unacknowledged, victims, with_locs, CapturePlan, Checkpoint,
    CheckpointDecision, PreparedRescue, RescueEntry, WrittenFile,
};
use super::super::volume::{
    BlockSum, CaptureKind, PageEntry, PendingSync, VolumeConfig, VolumeKind, VolumeRecord,
    VolumeRecordKind, VolumeState,
};
use super::seqs::{lemma_filter_lengths, lemma_filter_members};
use crate::objects::{BlockKey, BlockSpace, NamespaceKind, ObjectIdentity, ObjectRef};
use vstd::prelude::*;

verus! {

// ---------------------------------------------------------------------------
// Where pages lie
// ---------------------------------------------------------------------------

proof fn lemma_locs(locs: Map<u64, PageEntry>, entries: Seq<(u64, PageEntry)>)
    ensures
        forall|i: int|
            0 <= i < entries.len() && (forall|j: int|
                i < j < entries.len() ==> (#[trigger] entries[j]).0 != entries[i].0)
                ==> with_locs(locs, entries).contains_key((#[trigger] entries[i]).0) && with_locs(
                locs,
                entries,
            )[entries[i].0] == entries[i].1,
        forall|page: u64|
            (forall|i: int| 0 <= i < entries.len() ==> (#[trigger] entries[i]).0 != page) ==> {
                &&& #[trigger] with_locs(locs, entries).contains_key(page) == locs.contains_key(page)
                &&& with_locs(locs, entries)[page] == locs[page]
            },
    decreases entries.len(),
{
    if entries.len() > 0 {
        let front = entries.drop_last();
        lemma_locs(locs, front);
        let all = with_locs(locs, entries);
        assert forall|i: int|
            0 <= i < entries.len() && (forall|j: int|
                i < j < entries.len() ==> (#[trigger] entries[j]).0 != entries[i].0) implies
            all.contains_key((#[trigger] entries[i]).0) && all[entries[i].0] == entries[i].1 by {
            if i < entries.len() - 1 {
                assert(entries[entries.len() - 1].0 != entries[i].0);
                assert forall|j: int| i < j < front.len() implies (#[trigger] front[j]).0
                    != front[i].0 by {
                    assert(entries[j].0 != entries[i].0);
                }
                assert(front[i] == entries[i]);
            }
        }
        assert forall|page: u64|
            (forall|i: int| 0 <= i < entries.len() ==> (#[trigger] entries[i]).0 != page) implies {
            &&& #[trigger] all.contains_key(page) == locs.contains_key(page)
            &&& all[page] == locs[page]
        } by {
            assert forall|i: int| 0 <= i < front.len() implies (#[trigger] front[i]).0 != page by {
                assert(entries[i].0 != page);
            }
            assert(entries[entries.len() - 1].0 != page);
            assert(with_locs(locs, front).contains_key(page) == locs.contains_key(page));
        }
    }
}

/// Once a file is written, every page in it is read from there, wherever it lay
/// before: the file's last entry for a page is the page's location. Pages that are
/// not in the file stay where they were.
pub proof fn a_written_page_is_found_in_its_file(
    before: VolumeState,
    after: VolumeState,
    volume: u64,
    plan: CapturePlan,
    file: WrittenFile,
    post_checksum: u64,
    blocks: Map<u64, BlockSum>,
)
    requires
        file_recorded(before, after, volume, plan, file, post_checksum, blocks),
    ensures
        forall|i: int|
            0 <= i < file.entries@.len() && (forall|j: int|
                i < j < file.entries@.len() ==> (#[trigger] file.entries@[j]).0
                    != file.entries@[i].0) ==> after.page_locs@.contains_key(
                (#[trigger] file.entries@[i]).0,
            ) && after.page_locs@[file.entries@[i].0] == file.entries@[i].1,
        forall|page: u64|
            (forall|i: int|
                0 <= i < file.entries@.len() ==> (#[trigger] file.entries@[i]).0 != page) ==> {
                &&& #[trigger] after.page_locs@.contains_key(page)
                    == before.page_locs@.contains_key(page)
                &&& after.page_locs@[page] == before.page_locs@[page]
            },
{
    lemma_locs(before.page_locs@, file.entries@);
    assert forall|page: u64|
        (forall|i: int|
            0 <= i < file.entries@.len() ==> (#[trigger] file.entries@[i]).0 != page) implies {
        &&& #[trigger] after.page_locs@.contains_key(page) == before.page_locs@.contains_key(page)
        &&& after.page_locs@[page] == before.page_locs@[page]
    } by {
        let all = with_locs(before.page_locs@, file.entries@);
        assert(after.page_locs@ == all);
        assert(all.contains_key(page) == before.page_locs@.contains_key(page));
    }
}

/// A file that is written is known by its name, size and reference from then on,
/// beside all that were known; its tombstones are remembered; and the state's
/// checksum and blocks are those of the capture.
pub proof fn a_written_file_is_known(
    before: VolumeState,
    after: VolumeState,
    volume: u64,
    plan: CapturePlan,
    file: WrittenFile,
    post_checksum: u64,
    blocks: Map<u64, BlockSum>,
)
    requires
        file_recorded(before, after, volume, plan, file, post_checksum, blocks),
    ensures
        after.files@.len() == before.files@.len() + 1,
        after.files@.last().bytes == file.bytes,
        after.files@.last().identity.namespace_kind == NamespaceKind::Volume,
        after.files@.last().identity.namespace_id == volume,
        after.files@.last().identity.writer_fence == plan.fence,
        after.files@.last().identity.object_id == file.object,
        forall|i: int| 0 <= i < before.files@.len() ==> after.files@[i] == before.files@[i],
        after.file_refs@.contains(file.reference),
        forall|other: ObjectRef| #[trigger]
            before.file_refs@.contains(other) && other.identity != file.reference.identity
                ==> after.file_refs@.contains(other),
        forall|other: ObjectRef| #[trigger]
            after.file_refs@.contains(other) && other != file.reference
                ==> before.file_refs@.contains(other),
        file.has_tombstone ==> after.tombstone_files@.contains(after.files@.last().identity),
        forall|name: ObjectIdentity| #[trigger]
            before.tombstone_files@.contains(name) ==> after.tombstone_files@.contains(name),
        !file.has_tombstone ==> after.tombstone_files@ == before.tombstone_files@,
        after.state_checksum == post_checksum,
        after.blocks@ == blocks,
        after.mutation_seq == before.mutation_seq,
        after.best_record == before.best_record,
        after.operations.mutation == before.operations.mutation,
{
    if file.has_tombstone {
        let name = after.files@.last().identity;
        let was = before.tombstone_files@;
        if !was.contains(name) {
            assert(was.push(name)[was.len() as int] == name);
            assert forall|n: ObjectIdentity| #[trigger] was.contains(n) implies was.push(
                name,
            ).contains(n) by {
                let i = choose|i: int| 0 <= i < was.len() && was[i] == n;
                assert(was.push(name)[i] == n);
            }
        }
    }
}

/// A page that was taken and is in a file now is clean unless the guest wrote to
/// it again, and may be written to without notice of the capture; nothing else
/// changes about resident pages.
pub proof fn a_written_page_is_flushed(
    before: VolumeState,
    after: VolumeState,
    volume: u64,
    plan: CapturePlan,
    file: WrittenFile,
    post_checksum: u64,
    blocks: Map<u64, BlockSum>,
    page: u64,
)
    requires
        file_recorded(before, after, volume, plan, file, post_checksum, blocks),
    ensures
        ({
            let inside = exists|i: int|
                0 <= i < file.entries@.len() && (#[trigger] file.entries@[i]).0 == page;
            &&& after.pages@.contains_key(page) == before.pages@.contains_key(page)
            &&& before.pages@.contains_key(page) ==> {
                &&& after.pages@[page].dirty == before.pages@[page].dirty
                &&& inside && plan.flushed@.contains(page) ==> !after.pages@[page].flushing
                &&& !(inside && plan.flushed@.contains(page)) ==> after.pages@[page].flushing
                    == before.pages@[page].flushing
            }
            &&& (before.operations.drain matches Some(was)) ==> {
                &&& after.operations.drain is Some
                &&& after.operations.drain->0.armed@.contains(page)
                    <==> before.operations.drain->0.armed@.contains(page) && !inside
                &&& after.operations.drain->0.unread == before.operations.drain->0.unread
                &&& after.operations.drain->0.copied == before.operations.drain->0.copied
                &&& after.operations.drain->0.rescues == before.operations.drain->0.rescues
            }
        }),
{
    if let Some(drain) = before.operations.drain {
        lemma_filter_members(drain.armed@, |p: u64| !has_page(file.entries@, p));
    }
}

// ---------------------------------------------------------------------------
// What a capture takes
// ---------------------------------------------------------------------------

proof fn lemma_page_numbers(pages: Seq<u64>, first: int)
    requires
        forall|i: int, j: int| 0 <= i < j < pages.len() ==> pages[i] < pages[j],
        0 <= first,
        first + pages.len() <= u64::MAX,
    ensures
        forall|i: int|
            0 <= i < pages.len() ==> page_numbers(pages, first).contains_key(#[trigger] pages[i])
                && page_numbers(pages, first)[pages[i]] == first + i,
        forall|page: u64| #[trigger]
            page_numbers(pages, first).contains_key(page) ==> pages.contains(page),
    decreases pages.len(),
{
    if pages.len() > 0 {
        let front = pages.drop_last();
        lemma_page_numbers(front, first);
        let all = page_numbers(pages, first);
        assert forall|i: int| 0 <= i < pages.len() implies all.contains_key(#[trigger] pages[i])
            && all[pages[i]] == first + i by {
            if i < pages.len() - 1 {
                assert(front[i] == pages[i]);
                assert(pages[i] < pages[pages.len() - 1]);
            }
        }
        assert forall|page: u64| #[trigger] all.contains_key(page) implies pages.contains(page) by {
            if page != pages.last() {
                assert(page_numbers(front, first).contains_key(page));
                let i = choose|i: int| 0 <= i < front.len() && front[i] == page;
                assert(pages[i] == page);
            } else {
                assert(pages[pages.len() - 1] == page);
            }
        }
    }
}

/// A capture takes every page that is not durable as it is, and no other unless
/// all of memory is wanted; what the guest wrote since is protected first; and
/// afterwards no page counts as written until the guest writes again.
pub proof fn a_capture_takes_every_written_page(
    before: VolumeState,
    after: VolumeState,
    plan: CapturePlan,
    kind: CaptureKind,
    complete: bool,
    prepared: Seq<PreparedRescue>,
    page: u64,
)
    requires
        capture_reserved(before, after, plan, kind, complete, prepared),
    ensures
        before.pages@.contains_key(page) && (before.pages@[page].dirty
            || before.pages@[page].flushing) ==> {
            &&& plan.pages@.contains(page)
            &&& plan.flushed@.contains(page)
            &&& !after.pages@[page].dirty
            &&& after.pages@[page].flushing
        },
        before.pages@.contains_key(page) && before.pages@[page].dirty
            <==> plan.protect@.contains(page),
        plan.pages@.contains(page) && !(before.pages@.contains_key(page) && (
        before.pages@[page].dirty || before.pages@[page].flushing)) ==> complete && page
            < before.config.pages,
        complete && page < before.config.pages ==> plan.pages@.contains(page),
        after.pages@.contains_key(page) == before.pages@.contains_key(page),
        before.pages@.contains_key(page) && !before.pages@[page].dirty
            && !before.pages@[page].flushing ==> after.pages@[page] == before.pages@[page],
        plan.flushed@.contains(page) ==> before.pages@.contains_key(page) && (
        before.pages@[page].dirty || before.pages@[page].flushing),
        after.operations.drain is Some,
        after.operations.drain->0.armed@.contains(page) <==> plan.pages@.contains(page),
{
    assert(plan.flushed@.contains(page) <==> plan.flushed@.contains(page));
    assert(plan.pages@.contains(page) <==> plan.pages@.contains(page));
}

/// A capture stands for the volume's writes up to now, gets numbers that nothing
/// had before, and each page gets a generation of its own that is newer than any
/// given out so far.
pub proof fn a_capture_gets_new_numbers(
    before: VolumeState,
    after: VolumeState,
    plan: CapturePlan,
    kind: CaptureKind,
    complete: bool,
    prepared: Seq<PreparedRescue>,
)
    requires
        capture_reserved(before, after, plan, kind, complete, prepared),
        before.next_seq < u64::MAX,
        before.next_object_id + plan.pages@.len() + rescued_pages(before, prepared).len()
            + plan.tombstones@.len() <= u64::MAX,
        before.next_gen + plan.pages@.len() + rescued_pages(before, prepared).len()
            + plan.tombstones@.len() <= u64::MAX,
    ensures
        plan.capture_seq == before.mutation_seq,
        plan.seq == before.next_seq,
        after.next_seq == before.next_seq + 1,
        plan.fence == before.fence,
        plan.incarnation == before.incarnation,
        plan.first_object == before.next_object_id,
        after.next_object_id >= plan.first_object + plan.pages@.len()
            + after.operations.drain->0.rescues@.len() + plan.tombstones@.len(),
        after.operations.mutation == Some(kind),
        after.mutation_seq == before.mutation_seq,
        after.page_locs == before.page_locs,
        after.pending_tombstones == before.pending_tombstones,
        after.pending_syncs == before.pending_syncs,
        after.best_record == before.best_record,
        forall|i: int|
            0 <= i < plan.pages@.len() ==> {
                &&& after.operations.drain->0.unread@.contains_key(#[trigger] plan.pages@[i])
                &&& after.operations.drain->0.unread@[plan.pages@[i]] == before.next_gen + i
                &&& before.next_gen + i < after.next_gen
            },
        forall|page: u64| #[trigger]
            after.operations.drain->0.unread@.contains_key(page) ==> plan.pages@.contains(page),
        forall|i: int|
            0 <= i < after.operations.drain->0.rescues@.len() ==> {
                let generation = (#[trigger] after.operations.drain->0.rescues@[i]).generation;
                &&& generation == before.next_gen + plan.pages@.len() + i
                &&& generation < after.next_gen
            },
        after.operations.drain->0.copied@.dom() == Set::<u64>::empty(),
{
    lemma_page_numbers(plan.pages@, before.next_gen as int);
    let codes = plan.tombstones@.map_values(|t: (u64, u64)| t.0);
    lemma_numbered(codes);
    let drain = after.operations.drain->0;
    assert(rescue_pairs(drain.rescues@).len() == drain.rescues@.len());
    assert(drain.copied@.dom() =~= Set::<u64>::empty());
}

proof fn lemma_numbered(codes: Seq<u64>)
    ensures
        numbered(codes) <= codes.len(),
    decreases codes.len(),
{
    if codes.len() > 0 {
        lemma_numbered(codes.drop_last());
    }
}

proof fn lemma_tombstone_numbers(codes: Seq<u64>, seq: u64, first: int)
    requires
        0 <= first,
        first + codes.len() <= u64::MAX,
    ensures
        tombstone_numbers(codes, seq, first).len() == codes.len(),
        forall|i: int|
            0 <= i < codes.len() ==> (#[trigger] tombstone_numbers(codes, seq, first)[i]).0
                == codes[i],
        forall|i: int|
            0 <= i < codes.len() && codes[i] >= 0x2_0000_0000
                ==> (#[trigger] tombstone_numbers(codes, seq, first)[i]).1 == seq,
        forall|i: int|
            0 <= i < codes.len() && codes[i] < 0x2_0000_0000 ==> first
                <= (#[trigger] tombstone_numbers(codes, seq, first)[i]).1 < first + numbered(codes),
        forall|i: int, j: int|
            0 <= i < j < codes.len() && codes[i] < 0x2_0000_0000 && codes[j] < 0x2_0000_0000
                ==> (#[trigger] tombstone_numbers(codes, seq, first)[i]).1
                < (#[trigger] tombstone_numbers(codes, seq, first)[j]).1,
    decreases codes.len(),
{
    if codes.len() > 0 {
        let front = codes.drop_last();
        lemma_tombstone_numbers(front, seq, first);
        lemma_numbered(front);
        let all = tombstone_numbers(codes, seq, first);
        let part = tombstone_numbers(front, seq, first);
        assert forall|i: int| 0 <= i < codes.len() implies (#[trigger] all[i]).0 == codes[i] by {
            if i < front.len() {
                assert(all[i] == part[i] && front[i] == codes[i]);
            }
        }
        assert forall|i: int| 0 <= i < codes.len() && codes[i] >= 0x2_0000_0000 implies
            (#[trigger] all[i]).1 == seq by {
            if i < front.len() {
                assert(all[i] == part[i] && front[i] == codes[i]);
            }
        }
        assert forall|i: int| 0 <= i < codes.len() && codes[i] < 0x2_0000_0000 implies first
            <= (#[trigger] all[i]).1 < first + numbered(codes) by {
            if i < front.len() {
                assert(all[i] == part[i] && front[i] == codes[i]);
            }
        }
        assert forall|i: int, j: int|
            0 <= i < j < codes.len() && codes[i] < 0x2_0000_0000 && codes[j] < 0x2_0000_0000 implies
            (#[trigger] all[i]).1 < (#[trigger] all[j]).1 by {
            assert(all[i] == part[i] && front[i] == codes[i]);
            if j < front.len() {
                assert(all[j] == part[j] && front[j] == codes[j]);
            }
        }
    }
}

/// Every block that went is marked once, under a generation of its own that comes
/// after those of the pages; one of the device state under the record's number.
pub proof fn a_capture_marks_every_block_that_went(
    before: VolumeState,
    after: VolumeState,
    plan: CapturePlan,
    kind: CaptureKind,
    complete: bool,
    prepared: Seq<PreparedRescue>,
    i: int,
    j: int,
    code: u64,
)
    requires
        capture_reserved(before, after, plan, kind, complete, prepared),
        before.next_gen + plan.pages@.len() + rescued_pages(before, prepared).len()
            + plan.tombstones@.len() <= u64::MAX,
        0 <= i < j < plan.tombstones@.len(),
    ensures
        before.pending_tombstones@.contains(plan.tombstones@[i].0),
        plan.tombstones@[i].0 < plan.tombstones@[j].0,
        plan.tombstones@[i].0 >= 0x2_0000_0000 ==> plan.tombstones@[i].1 == before.next_seq,
        plan.tombstones@[j].0 >= 0x2_0000_0000 ==> plan.tombstones@[j].1 == before.next_seq,
        plan.tombstones@[j].0 < 0x2_0000_0000 ==> before.next_gen + plan.pages@.len()
            <= plan.tombstones@[i].1 < plan.tombstones@[j].1 < after.next_gen,
        before.pending_tombstones@.contains(code) ==> exists|k: int|
            0 <= k < plan.tombstones@.len() && (#[trigger] plan.tombstones@[k]).0 == code,
{
    let codes = plan.tombstones@.map_values(|t: (u64, u64)| t.0);
    let first = before.next_gen + plan.pages@.len() + rescued_pages(before, prepared).len();
    lemma_tombstone_numbers(codes, plan.seq, first);
    lemma_numbered(codes);
    assert(codes[i] == plan.tombstones@[i].0 && codes[j] == plan.tombstones@[j].0);
    assert(codes.contains(codes[i]));
    if before.pending_tombstones@.contains(code) {
        assert(codes.contains(code));
        let k = choose|k: int| 0 <= k < codes.len() && codes[k] == code;
        assert(plan.tombstones@[k].0 == code);
    }
}

/// When a capture starts: on an open volume that nothing else changes, and that
/// has something to capture; or for what it was reserved for.
pub proof fn captures_start_when_there_is_something_to_capture(
    state: VolumeState,
    kind: CaptureKind,
    reservation: Option<u64>,
    prepared: Seq<PreparedRescue>,
    page: u64,
    sync: int,
    code: u64,
)
    ensures
        !state.ready ==> capture_refused(state, kind, reservation, prepared),
        reservation is None && (state.operations.mutation is Some || state.operations.guest_resume
            || state.operations.migration) ==> capture_refused(state, kind, None, prepared),
        state.ready && state.operations.mutation is None && !state.operations.guest_resume
            && !state.operations.migration && ({
            ||| state.pages@.contains_key(page) && state.pages@[page].dirty
            ||| state.pending_tombstones@.contains(code)
            ||| 0 <= sync < state.pending_syncs@.len() && state.pending_syncs@[sync].barrier
                > state.local_covered_through
            ||| victims(state, prepared).len() > 0
        }) ==> !capture_refused(state, kind, None, prepared),
        victims(state, prepared).len() == 0 && state.pending_tombstones@.is_empty() && (forall|
            p: u64,
        | #[trigger]
            state.pages@.contains_key(p) ==> !state.pages@[p].dirty) && (forall|i: int|
            0 <= i < state.pending_syncs@.len() ==> (#[trigger] state.pending_syncs@[i]).barrier
                <= state.local_covered_through) ==> capture_refused(state, kind, None, prepared),
        state.ready ==> (capture_refused(state, kind, Some(state.incarnation), prepared)
            <==> state.operations.mutation != Some(kind)),
        reservation is Some && reservation != Some(state.incarnation) ==> capture_refused(
            state,
            kind,
            reservation,
            prepared,
        ),
{
}

// ---------------------------------------------------------------------------
// Files that are given up
// ---------------------------------------------------------------------------

proof fn lemma_prepared(entries: Seq<RescueEntry>, page: u64)
    ensures
        prepared_entry(entries, page) is None <==> forall|i: int|
            0 <= i < entries.len() ==> (#[trigger] entries[i]).page != page,
        forall|i: int|
            0 <= i < entries.len() && (#[trigger] entries[i]).page == page && (forall|j: int|
                i < j < entries.len() ==> (#[trigger] entries[j]).page != page)
                ==> prepared_entry(entries, page) == Some(entries[i].entry),
    decreases entries.len(),
{
    if entries.len() > 0 {
        let front = entries.drop_last();
        lemma_prepared(front, page);
        assert(entries[entries.len() - 1] == entries.last());
        if entries.last().page != page {
            assert forall|i: int|
                0 <= i < entries.len() && (#[trigger] entries[i]).page == page && (forall|j: int|
                    i < j < entries.len() ==> (#[trigger] entries[j]).page != page) implies
                prepared_entry(entries, page) == Some(entries[i].entry) by {
                assert(front[i] == entries[i]);
                assert forall|j: int| i < j < front.len() implies (#[trigger] front[j]).page
                    != page by {
                    assert(entries[j].page != page);
                }
            }
            if prepared_entry(front, page) is None {
                assert forall|i: int| 0 <= i < entries.len() implies (#[trigger] entries[i]).page
                    != page by {
                    if i < front.len() {
                        assert(front[i].page != page);
                    }
                }
            } else if forall|i: int| 0 <= i < entries.len() ==> (#[trigger] entries[i]).page != page {
                assert forall|i: int| 0 <= i < front.len() implies (#[trigger] front[i]).page
                    != page by {
                    assert(entries[i].page != page);
                }
            }
        }
    }
}

/// A file is given up exactly if each of its live pages is being captured anyway,
/// or was read from where it still lies.
pub proof fn a_file_is_given_up_if_its_pages_are_saved(
    state: VolumeState,
    prepared: PreparedRescue,
)
    requires
        forall|i: int, j: int|
            0 <= i < j < prepared.entries@.len() ==> (#[trigger] prepared.entries@[i]).page != (
            #[trigger] prepared.entries@[j]).page,
    ensures
        may_give_up(state, prepared) <==> forall|page: u64|
            #![trigger state.page_locs@.contains_key(page)]
            state.page_locs@.contains_key(page) && state.page_locs@[page].loc.base == 0
                && state.page_locs@[page].loc.fence == prepared.victim_fence
                && state.page_locs@[page].loc.object == prepared.victim_object ==> {
                ||| state.pages@.contains_key(page) && (state.pages@[page].dirty
                    || state.pages@[page].flushing)
                ||| exists|i: int|
                    0 <= i < prepared.entries@.len() && (#[trigger] prepared.entries@[i]).page
                        == page && prepared.entries@[i].entry == state.page_locs@[page]
            },
{
    assert forall|page: u64| #[trigger] state.page_locs@.contains_key(page) implies
        (prepared_entry(prepared.entries@, page) == Some(state.page_locs@[page]) <==> exists|i: int|
        0 <= i < prepared.entries@.len() && (#[trigger] prepared.entries@[i]).page == page
            && prepared.entries@[i].entry == state.page_locs@[page]) by {
        lemma_prepared(prepared.entries@, page);
        if prepared_entry(prepared.entries@, page) is Some {
            let i = choose|i: int|
                0 <= i < prepared.entries@.len() && (#[trigger] prepared.entries@[i]).page == page;
            assert(prepared.entries@[i].page == page);
        }
    }
}

proof fn lemma_rescued_entry(state: VolumeState, entries: Seq<RescueEntry>, k: int) -> (i: int)
    requires
        0 <= k < rescued_entries(state, entries).len(),
    ensures
        0 <= i < entries.len(),
        entries[i].page == rescued_entries(state, entries)[k].0,
        entries[i].bytes@ == rescued_entries(state, entries)[k].1,
        state.page_locs@.contains_key(entries[i].page),
        state.page_locs@[entries[i].page] == entries[i].entry,
        !(state.pages@.contains_key(entries[i].page) && (state.pages@[entries[i].page].dirty
            || state.pages@[entries[i].page].flushing)),
    decreases entries.len(),
{
    let front = entries.drop_last();
    if k < rescued_entries(state, front).len() {
        lemma_rescued_entry(state, front, k)
    } else {
        entries.len() - 1
    }
}

proof fn lemma_live_entry(state: VolumeState, entries: Seq<RescueEntry>, i: int)
    requires
        0 <= i < entries.len(),
        state.page_locs@.contains_key(entries[i].page),
        state.page_locs@[entries[i].page] == entries[i].entry,
        !(state.pages@.contains_key(entries[i].page) && (state.pages@[entries[i].page].dirty
            || state.pages@[entries[i].page].flushing)),
    ensures
        rescued_entries(state, entries).contains((entries[i].page, entries[i].bytes@)),
    decreases entries.len(),
{
    let front = entries.drop_last();
    let all = rescued_entries(state, entries);
    let part = rescued_entries(state, front);
    let wanted = (entries[i].page, entries[i].bytes@);
    if i < front.len() {
        lemma_live_entry(state, front, i);
        let k = choose|k: int| 0 <= k < part.len() && part[k] == wanted;
        assert(all[k] == wanted);
    } else {
        assert(all[part.len() as int] == wanted);
    }
}

/// What is rescued from a file: of the pages that were read, those that still lie
/// where they were read and that the guest has not written to, with the bytes that
/// were read; and all of them.
pub proof fn rescues_are_the_live_pages(
    state: VolumeState,
    prepared: Seq<PreparedRescue>,
    k: int,
    m: int,
    i: int,
)
    ensures
        0 <= k < rescued_pages(state, prepared).len() ==> exists|f: int, e: int|
            {
                &&& 0 <= f < prepared.len()
                &&& may_give_up(state, prepared[f])
                &&& 0 <= e < prepared[f].entries@.len()
                &&& (#[trigger] prepared[f].entries@[e]).page == rescued_pages(state, prepared)[k].0
                &&& prepared[f].entries@[e].bytes@ == rescued_pages(state, prepared)[k].1
                &&& state.page_locs@.contains_key(prepared[f].entries@[e].page)
                &&& state.page_locs@[prepared[f].entries@[e].page] == prepared[f].entries@[e].entry
            },
        0 <= m < prepared.len() && may_give_up(state, prepared[m]) && 0 <= i
            < prepared[m].entries@.len() && state.page_locs@.contains_key(
            prepared[m].entries@[i].page,
        ) && state.page_locs@[prepared[m].entries@[i].page] == prepared[m].entries@[i].entry && !(
        state.pages@.contains_key(prepared[m].entries@[i].page) && (
        state.pages@[prepared[m].entries@[i].page].dirty
            || state.pages@[prepared[m].entries@[i].page].flushing)) ==> rescued_pages(
            state,
            prepared,
        ).contains((prepared[m].entries@[i].page, prepared[m].entries@[i].bytes@)),
    decreases prepared.len(),
{
    if prepared.len() > 0 {
        let front = prepared.drop_last();
        let rest = rescued_pages(state, front);
        let last = prepared.last();
        let part = rescued_entries(state, last.entries@);
        let all = rescued_pages(state, prepared);
        let end = prepared.len() - 1;
        assert(prepared[end] == last);
        rescues_are_the_live_pages(state, front, k, m, i);
        if 0 <= k < all.len() {
            if k < rest.len() {
                assert(all[k] == rest[k]);
                let (f, e) = choose|f: int, e: int|
                    {
                        &&& 0 <= f < front.len()
                        &&& may_give_up(state, front[f])
                        &&& 0 <= e < front[f].entries@.len()
                        &&& (#[trigger] front[f].entries@[e]).page == rest[k].0
                        &&& front[f].entries@[e].bytes@ == rest[k].1
                        &&& state.page_locs@.contains_key(front[f].entries@[e].page)
                        &&& state.page_locs@[front[f].entries@[e].page] == front[f].entries@[e].entry
                    };
                assert(prepared[f] == front[f]);
                assert(prepared[f].entries@[e].page == all[k].0);
            } else {
                let at = k - rest.len();
                assert(all[k] == part[at]);
                let e = lemma_rescued_entry(state, last.entries@, at);
                assert(prepared[end].entries@[e].page == all[k].0);
            }
        }
        if 0 <= m < prepared.len() && may_give_up(state, prepared[m]) && 0 <= i
            < prepared[m].entries@.len() && state.page_locs@.contains_key(
            prepared[m].entries@[i].page,
        ) && state.page_locs@[prepared[m].entries@[i].page] == prepared[m].entries@[i].entry && !(
        state.pages@.contains_key(prepared[m].entries@[i].page) && (
        state.pages@[prepared[m].entries@[i].page].dirty
            || state.pages@[prepared[m].entries@[i].page].flushing)) {
            let wanted = (prepared[m].entries@[i].page, prepared[m].entries@[i].bytes@);
            if m < end {
                assert(front[m] == prepared[m]);
                let a = choose|a: int| 0 <= a < rest.len() && rest[a] == wanted;
                assert(all[a] == wanted);
            } else {
                lemma_live_entry(state, last.entries@, i);
                let a = choose|a: int| 0 <= a < part.len() && part[a] == wanted;
                assert(all[rest.len() + a] == wanted);
            }
        }
    }
}

/// The files that a capture gives up are those that may be, and all of them.
pub proof fn every_file_that_may_go_goes(
    state: VolumeState,
    prepared: Seq<PreparedRescue>,
    victim: (u64, u64),
)
    ensures
        victims(state, prepared).contains(victim) <==> exists|k: int|
            {
                &&& 0 <= k < prepared.len()
                &&& may_give_up(state, #[trigger] prepared[k])
                &&& prepared[k].victim_fence == victim.0
                &&& prepared[k].victim_object == victim.1
            },
    decreases prepared.len(),
{
    if prepared.len() > 0 {
        let front = prepared.drop_last();
        let end = prepared.len() - 1;
        every_file_that_may_go_goes(state, front, victim);
        let rest = victims(state, front);
        let all = victims(state, prepared);
        assert(prepared[end] == prepared.last());
        if all.contains(victim) {
            let a = choose|a: int| 0 <= a < all.len() && all[a] == victim;
            if a < rest.len() {
                assert(rest[a] == victim);
                let k = choose|k: int|
                    {
                        &&& 0 <= k < front.len()
                        &&& may_give_up(state, #[trigger] front[k])
                        &&& front[k].victim_fence == victim.0
                        &&& front[k].victim_object == victim.1
                    };
                assert(may_give_up(state, prepared[k]));
            } else {
                assert(may_give_up(state, prepared[end]));
            }
        }
        if exists|k: int|
            {
                &&& 0 <= k < prepared.len()
                &&& may_give_up(state, #[trigger] prepared[k])
                &&& prepared[k].victim_fence == victim.0
                &&& prepared[k].victim_object == victim.1
            } {
            let k = choose|k: int|
                {
                    &&& 0 <= k < prepared.len()
                    &&& may_give_up(state, #[trigger] prepared[k])
                    &&& prepared[k].victim_fence == victim.0
                    &&& prepared[k].victim_object == victim.1
                };
            if k < end {
                assert(may_give_up(state, front[k]));
                let a = choose|a: int| 0 <= a < rest.len() && rest[a] == victim;
                assert(all[a] == victim);
            } else {
                assert(all[rest.len() as int] == victim);
            }
        }
    }
}

// ---------------------------------------------------------------------------
// Reading while the guest writes
// ---------------------------------------------------------------------------

/// A capture holds the content that a page had when it was reserved. A guest that
/// writes to a page first has its content saved, and the capture gets that, not
/// what is read later; a page that nobody wrote to is taken as it is read. Either
/// way it bears the generation that was reserved, and is taken once.
pub proof fn a_capture_holds_the_content_of_its_moment(
    reserved: VolumeState,
    written: VolumeState,
    taken: VolumeState,
    taken_first: VolumeState,
    again: VolumeState,
    page: u64,
    content: Vec<u8>,
    later: Vec<u8>,
    saved: bool,
    captured: Option<(u64, Vec<u8>)>,
    captured_first: Option<(u64, Vec<u8>)>,
    captured_again: Option<(u64, Vec<u8>)>,
)
    requires
        reserved.operations.drain is Some,
        reserved.operations.drain->0.unread@.contains_key(page),
        !reserved.operations.drain->0.copied@.contains_key(page),
        saved_before_write(reserved, written, page, content, saved),
        page_taken(written, taken, page, later, captured),
        page_taken(reserved, taken_first, page, content, captured_first),
        page_taken(taken, again, page, later, captured_again),
    ensures
        saved,
        captured == Some((reserved.operations.drain->0.unread@[page], content)),
        captured_first == captured,
        captured_again is None,
        written.pages == reserved.pages,
        written.page_locs == reserved.page_locs,
        taken.pages == reserved.pages,
        taken.page_locs == reserved.page_locs,
{
}

/// Saving or taking one page leaves every other page of the capture as it was.
pub proof fn pages_are_taken_one_by_one(
    before: VolumeState,
    after: VolumeState,
    page: u64,
    other: u64,
    bytes: Vec<u8>,
    saved: bool,
    captured: Option<(u64, Vec<u8>)>,
)
    requires
        before.operations.drain is Some,
        saved_before_write(before, after, page, bytes, saved) || page_taken(
            before,
            after,
            page,
            bytes,
            captured,
        ),
        other != page,
    ensures
        after.operations.drain is Some,
        ({
            let was = before.operations.drain->0;
            let now = after.operations.drain->0;
            &&& now.unread@.contains_key(other) == was.unread@.contains_key(other)
            &&& was.unread@.contains_key(other) ==> now.unread@[other] == was.unread@[other]
            &&& now.copied@.contains_key(other) == was.copied@.contains_key(other)
            &&& was.copied@.contains_key(other) ==> now.copied@[other] == was.copied@[other]
            &&& now.armed == was.armed
            &&& now.rescues == was.rescues
        }),
        after.mutation_seq == before.mutation_seq,
        after.operations.mutation == before.operations.mutation,
{
}

// ---------------------------------------------------------------------------
// Synchronisations
// ---------------------------------------------------------------------------

/// What a record covers is what was covered before, or a synchronisation that
/// waits: nothing is claimed that nobody asked for.
pub proof fn a_record_covers_what_was_asked_for(
    syncs: Seq<PendingSync>,
    capture_seq: u64,
    before: u64,
)
    ensures
        covered_through(syncs, capture_seq, before) == before || exists|i: int|
            0 <= i < syncs.len() && (#[trigger] syncs[i]).barrier == covered_through(
                syncs,
                capture_seq,
                before,
            ) && syncs[i].barrier <= capture_seq,
    decreases syncs.len(),
{
    if syncs.len() > 0 {
        let front = syncs.drop_last();
        a_record_covers_what_was_asked_for(front, capture_seq, before);
        let rest = covered_through(front, capture_seq, before);
        if covered_through(syncs, capture_seq, before) == rest && rest != before {
            let i = choose|i: int|
                0 <= i < front.len() && (#[trigger] front[i]).barrier == rest && front[i].barrier
                    <= capture_seq;
            assert(syncs[i].barrier == rest);
        } else {
            assert(syncs[syncs.len() - 1] == syncs.last());
        }
    }
}

/// Synchronisations are released exactly once their mutation is acknowledged: of
/// those waiting each is either released or waits on, and none gets lost.
pub proof fn synchronisations_are_released_when_acknowledged(
    syncs: Seq<PendingSync>,
    ack: u64,
    sync: PendingSync,
)
    requires
        syncs.contains(sync),
    ensures
        acknowledged(syncs, ack).contains(sync) <==> sync.barrier <= ack,
        unacknowledged(syncs, ack).contains(sync) <==> sync.barrier > ack,
        acknowledged(syncs, ack).len() + unacknowledged(syncs, ack).len() == syncs.len(),
        forall|other: PendingSync|
            #![trigger acknowledged(syncs, ack).contains(other)]
            #![trigger unacknowledged(syncs, ack).contains(other)]
            acknowledged(syncs, ack).contains(other) || unacknowledged(syncs, ack).contains(other)
                ==> syncs.contains(other),
{
    let done = |s: PendingSync| s.barrier <= ack;
    let waits = |s: PendingSync| s.barrier > ack;
    lemma_filter_members(syncs, done);
    lemma_filter_members(syncs, waits);
    lemma_filter_lengths(syncs, done, waits);
}

// ---------------------------------------------------------------------------
// The record
// ---------------------------------------------------------------------------

/// A record names the file of every page of the volume's own, of every block that
/// went and of the device state; and no file that was written apart from all of
/// these.
pub proof fn a_record_names_the_files_of_its_state(
    record: VolumeRecord,
    state: VolumeState,
    volume: u64,
    plan: CapturePlan,
    kind: CaptureKind,
    checkpoint: Option<Checkpoint>,
    post_checksum: u64,
    file: ObjectRef,
    page: u64,
)
    requires
        describes(record, state, volume, plan, kind, checkpoint, post_checksum),
        state.file_refs@.contains(file),
    ensures
        state.page_locs@.contains_key(page) && state.page_locs@[page].loc.base == 0
            && file.identity.namespace_kind == NamespaceKind::Volume && file.identity.namespace_id
            == volume && file.identity.writer_fence == state.page_locs@[page].loc.fence
            && file.identity.object_id == state.page_locs@[page].loc.object
            ==> record.files@.contains(file),
        state.tombstone_files@.contains(file.identity) ==> record.files@.contains(file),
        state.vmm_files@.contains(file.identity) ==> record.files@.contains(file),
        (forall|other: ObjectRef| #[trigger]
            state.file_refs@.contains(other) && other.identity.writer_fence
                == file.identity.writer_fence && other.batch_id == file.batch_id ==> {
                &&& !state.tombstone_files@.contains(other.identity)
                &&& !state.vmm_files@.contains(other.identity)
                &&& forall|p: u64| #[trigger]
                    state.page_locs@.contains_key(p) ==> !(state.page_locs@[p].loc.base == 0
                        && other.identity.namespace_kind == NamespaceKind::Volume
                        && other.identity.namespace_id == volume && other.identity.writer_fence
                        == state.page_locs@[p].loc.fence && other.identity.object_id
                        == state.page_locs@[p].loc.object)
            }) ==> !record.files@.contains(file),
        forall|other: ObjectRef| #[trigger]
            record.files@.contains(other) ==> state.file_refs@.contains(other),
{
    use_needed(state, volume);
    let i = choose|i: int| 0 <= i < state.file_refs@.len() && state.file_refs@[i] == file;
    assert(state.file_refs@[i].identity == file.identity);
    assert forall|k: int| 0 <= k < state.file_refs@.len() implies state.file_refs@.contains(
        #[trigger] state.file_refs@[k],
    ) by {}
}

proof fn use_needed(state: VolumeState, volume: u64)
    ensures
        forall|file: ObjectRef| #[trigger]
            needed_files(state, volume).contains(file) <==> state.file_refs@.contains(file)
                && super::super::capture::batch_needed(state, volume, file),
{
    lemma_filter_members(
        state.file_refs@,
        |file: ObjectRef| super::super::capture::batch_needed(state, volume, file),
    );
}

/// A record says of the captured state what it is: its shape, its numbers, the
/// writes it holds and its checksum; a checkpoint with its device state, and still
/// that checkpoint if nothing was written since; and where every page lies where
/// its files alone do not tell.
pub proof fn a_record_describes_its_capture(
    record: VolumeRecord,
    state: VolumeState,
    volume: u64,
    plan: CapturePlan,
    kind: CaptureKind,
    checkpoint: Option<Checkpoint>,
    post_checksum: u64,
    page: u64,
)
    requires
        describes(record, state, volume, plan, kind, checkpoint, post_checksum),
    ensures
        record.config == state.config,
        record.seq == plan.seq,
        record.fence == plan.fence,
        record.capture_seq == plan.capture_seq,
        record.post_state_checksum == post_checksum,
        checkpoint matches Some(c) ==> record.kind == (VolumeRecordKind::Checkpoint {
            epoch: c.epoch,
            vmstate: c.vmstate,
            vmstate_length: c.vmstate_length,
        }),
        checkpoint is None && state.best_record is None ==> record.kind
            == VolumeRecordKind::Commit,
        checkpoint is None && state.best_record is Some && state.best_record->0.capture_seq
            != plan.capture_seq ==> record.kind == VolumeRecordKind::Commit,
        checkpoint is None && state.best_record is Some && state.best_record->0.capture_seq
            == plan.capture_seq ==> record.kind == state.best_record->0.kind,
        record.sync_covered_through >= state.local_covered_through,
        (kind == CaptureKind::Migration || state.peer_source is Some || (
        state.page_locs@.contains_key(page) && state.page_locs@[page].loc.base != 0))
            ==> record.page_index@ == state.page_locs@,
        kind != CaptureKind::Migration && state.peer_source is None && (forall|p: u64| #[trigger]
            state.page_locs@.contains_key(p) ==> state.page_locs@[p].loc.base == 0)
            ==> record.page_index@.dom() == Set::<u64>::empty(),
        record.migrated_from is Some <==> state.peer_source is Some,
        record.migrated_from matches Some(from) ==> Some(from.host) == state.peer_source
            && from.offer_fence == state.peer_source_offer_fence,
{
    super::super::capture::a_record_covers_what_it_holds(
        state.pending_syncs@.push(PendingSync { id: 0, barrier: 0 }),
        plan.capture_seq,
        state.local_covered_through,
        state.pending_syncs@.len() as int,
    );
    let syncs = state.pending_syncs@;
    assert(syncs.push(PendingSync { id: 0, barrier: 0 }).drop_last() =~= syncs);
    if kind != CaptureKind::Migration && state.peer_source is None && (forall|p: u64| #[trigger]
        state.page_locs@.contains_key(p) ==> state.page_locs@[p].loc.base == 0) {
        assert(record.page_index@.dom() =~= Set::<u64>::empty());
    }
}

/// The first record of a volume describes an empty one.
pub proof fn a_first_record_is_empty(record: VolumeRecord, config: VolumeConfig, fence: u64)
    requires
        is_initial_record(record, config, fence),
    ensures
        record.config == config,
        record.fence == fence,
        record.seq == 0,
        record.capture_seq == 0,
        record.sync_covered_through == 0,
        record.post_state_checksum == 0,
        record.kind == VolumeRecordKind::Commit,
        record.files@.len() == 0,
        forall|page: u64| !#[trigger] record.page_index@.contains_key(page),
        record.migrated_from is None,
{
}

/// A record in effect is the newest one from then on; what it covers is covered;
/// the right to change the volume is given back; and a checkpoint is pinned and
/// answered with its epoch.
pub proof fn a_record_in_effect_is_the_newest(
    before: VolumeState,
    after: VolumeState,
    plan: CapturePlan,
    kind: CaptureKind,
    checkpoint: Option<Checkpoint>,
    record: VolumeRecord,
    files: Seq<ObjectIdentity>,
    complete: bool,
    code: u64,
    seq: u64,
)
    requires
        capture_finished(before, after, plan, kind, checkpoint, record, files, complete),
    ensures
        after.best_record is Some,
        after.best_record->0.seq == record.seq,
        after.best_record->0.fence == record.fence,
        after.best_record->0.kind == record.kind,
        after.best_record->0.config == record.config,
        after.best_record->0.capture_seq == record.capture_seq,
        after.best_record->0.sync_covered_through == record.sync_covered_through,
        after.best_record->0.post_state_checksum == record.post_state_checksum,
        after.best_record->0.files@ == record.files@,
        after.best_record->0.page_index@ == record.page_index@,
        after.best_record->0.migrated_from == record.migrated_from,
        after.local_covered_through == record.sync_covered_through,
        after.operations.drain is None,
        before.operations.mutation == Some(kind) ==> after.operations.mutation is None,
        after.mutation_waiters@.len() == 0,
        after.pending_tombstones@.contains(code) <==> before.pending_tombstones@.contains(code)
            && !(exists|i: int|
            0 <= i < plan.tombstones@.len() && (#[trigger] plan.tombstones@[i]).0 == code),
        after.record_writes@.contains_key(record.seq),
        after.record_writes@[record.seq] == (plan.fence, record.sync_covered_through),
        seq != record.seq ==> after.record_writes@.contains_key(seq)
            == before.record_writes@.contains_key(seq) && (before.record_writes@.contains_key(seq)
            ==> after.record_writes@[seq] == before.record_writes@[seq]),
        after.record_files@.contains_key(record.seq),
        after.record_files@[record.seq]@ == files,
        files.len() > 0 && files.last().object_id < u64::MAX ==> after.next_object_id
            > files.last().object_id,
        after.next_object_id >= before.next_object_id,
        complete ==> after.archived_memory_usable,
        before.archived_memory_usable ==> after.archived_memory_usable,
        !complete && !before.archived_memory_usable ==> !after.archived_memory_usable,
        checkpoint matches Some(c) ==> {
            &&& after.epoch == c.epoch
            &&& after.pinned is Some
            &&& after.pinned->0.seq == record.seq
            &&& after.pinned->0.fence == record.fence
            &&& after.pinned->0.kind == record.kind
            &&& after.pinned->0.config == record.config
            &&& after.pinned->0.capture_seq == record.capture_seq
            &&& after.pinned->0.sync_covered_through == record.sync_covered_through
            &&& after.pinned->0.post_state_checksum == record.post_state_checksum
            &&& after.pinned->0.files@ == record.files@
            &&& c.req matches Some(req) ==> after.checkpoint_results@.contains_key(req)
                && after.checkpoint_results@[req] == c.epoch
        },
        checkpoint is None ==> {
            &&& after.epoch == before.epoch
            &&& after.pinned == before.pinned
            &&& after.checkpoint_results@ == before.checkpoint_results@
        },
        after.page_locs == before.page_locs,
        after.pages == before.pages,
        after.mutation_seq == before.mutation_seq,
        after.sync_ack_through == before.sync_ack_through,
{
    let codes = plan.tombstones@.map_values(|t: (u64, u64)| t.0);
    if codes.contains(code) {
        let i = choose|i: int| 0 <= i < codes.len() && codes[i] == code;
        assert(plan.tombstones@[i].0 == code);
    }
    if exists|i: int| 0 <= i < plan.tombstones@.len() && (#[trigger] plan.tombstones@[i]).0 == code {
        let i = choose|i: int|
            0 <= i < plan.tombstones@.len() && (#[trigger] plan.tombstones@[i]).0 == code;
        assert(codes[i] == code);
    }
}

// ---------------------------------------------------------------------------
// Checksums
// ---------------------------------------------------------------------------

/// Of several changes to a block the last counts, and a block without a change
/// keeps its sum.
pub proof fn the_last_change_of_a_block_counts(
    blocks: Map<u64, BlockSum>,
    changes: Seq<(u64, Option<BlockSum>)>,
    code: u64,
)
    ensures
        (forall|i: int| 0 <= i < changes.len() ==> (#[trigger] changes[i]).0 != code) ==> {
            &&& blocks_after(blocks, changes).contains_key(code) == blocks.contains_key(code)
            &&& blocks_after(blocks, changes)[code] == blocks[code]
        },
        forall|i: int|
            0 <= i < changes.len() && (#[trigger] changes[i]).0 == code && (forall|j: int|
                i < j < changes.len() ==> (#[trigger] changes[j]).0 != code) ==> {
                &&& blocks_after(blocks, changes).contains_key(code) == changes[i].1 is Some
                &&& changes[i].1 matches Some(sum) ==> blocks_after(blocks, changes)[code] == sum
            },
    decreases changes.len(),
{
    if changes.len() > 0 {
        let front = changes.drop_last();
        let end = changes.len() - 1;
        the_last_change_of_a_block_counts(blocks, front, code);
        assert(changes[end] == changes.last());
        if forall|i: int| 0 <= i < changes.len() ==> (#[trigger] changes[i]).0 != code {
            assert forall|i: int| 0 <= i < front.len() implies (#[trigger] front[i]).0 != code by {
                assert(changes[i].0 != code);
            }
        }
        assert forall|i: int|
            0 <= i < changes.len() && (#[trigger] changes[i]).0 == code && (forall|j: int|
                i < j < changes.len() ==> (#[trigger] changes[j]).0 != code) implies {
            &&& blocks_after(blocks, changes).contains_key(code) == changes[i].1 is Some
            &&& changes[i].1 matches Some(sum) ==> blocks_after(blocks, changes)[code] == sum
        } by {
            if i < end {
                assert(changes[end].0 != code);
                assert(front[i] == changes[i]);
                assert forall|j: int| i < j < front.len() implies (#[trigger] front[j]).0
                    != code by {
                    assert(changes[j].0 != code);
                }
            }
        }
    }
}

/// Taking the device state of an earlier checkpoint out takes out all of it and
/// nothing else.
pub proof fn only_device_state_is_dropped(
    blocks: Map<u64, BlockSum>,
    changes: Seq<(u64, Option<BlockSum>)>,
    key: BlockKey,
)
    requires
        drops_vmm(changes, blocks),
    ensures
        key.space == BlockSpace::Vmm ==> !blocks_after(blocks, changes).contains_key(key.code()),
        key.space != BlockSpace::Vmm ==> {
            &&& blocks_after(blocks, changes).contains_key(key.code())
                == blocks.contains_key(key.code())
            &&& blocks_after(blocks, changes)[key.code()] == blocks[key.code()]
        },
{
    let code = key.code();
    the_last_change_of_a_block_counts(blocks, changes, code);
    device_blocks_are_told_by_their_codes(key);
    let had = blocks.contains_key(code);
    if had && is_vmm_code(code) {
        let i = choose|i: int| 0 <= i < changes.len() && (#[trigger] changes[i]).0 == code;
        assert forall|j: int| i < j < changes.len() implies (#[trigger] changes[j]).0 != code by {
            assert(changes[i].0 < changes[j].0);
        }
    } else {
        assert forall|i: int| 0 <= i < changes.len() implies (#[trigger] changes[i]).0 != code by {}
    }
}

/// Blocks of the device state are told by their codes.
pub proof fn device_blocks_are_told_by_their_codes(key: BlockKey)
    ensures
        is_vmm_code(key.code()) <==> key.space == BlockSpace::Vmm,
{
    assert(key.code() == key.space.rank() * 0x1_0000_0000 + key.block);
}

// ---------------------------------------------------------------------------
// Checkpoints and moves
// ---------------------------------------------------------------------------

/// When a checkpoint starts, waits, is refused or was made already.
pub proof fn checkpoints_start_on_an_idle_open_volume(state: VolumeState, req: u64)
    ensures
        checkpoint_decision(None, req) is Missing,
        !state.ready ==> checkpoint_decision(Some(state), req) is Invalid,
        state.ready && !state.checkpoint_results@.contains_key(req) && state.operations.migration
            ==> checkpoint_decision(Some(state), req) is Invalid,
        state.ready && !state.checkpoint_results@.contains_key(req) && !state.operations.migration
            && (state.operations.mutation is Some || state.operations.guest_resume)
            ==> checkpoint_decision(Some(state), req) is Busy,
        state.ready && !state.checkpoint_results@.contains_key(req) && !state.operations.migration
            && state.operations.mutation is None && !state.operations.guest_resume
            && state.epoch < u64::MAX ==> {
            &&& checkpoint_decision(Some(state), req) matches CheckpointDecision::Reserved {
                incarnation,
                epoch,
            } && incarnation == state.incarnation && epoch == state.epoch + 1
        },
{
}

/// Only an open volume of memory moves, and only while nothing else changes it.
pub proof fn only_idle_memory_moves(state: VolumeState)
    ensures
        may_move(state) <==> state.ready && state.config.kind == VolumeKind::Memory
            && state.operations.mutation is None && !state.operations.guest_resume,
{
}

/// The pages that are still protected are those of the capture under way.
pub proof fn only_a_capture_protects_pages(state: VolumeState)
    ensures
        state.operations.drain is None ==> armed_pages(state).len() == 0,
        state.operations.drain matches Some(drain) ==> armed_pages(state) == drain.armed@,
{
}

} // verus!
