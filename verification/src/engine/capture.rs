//! Captures: how the changed pages of a volume become files and a record.
//!
//! A capture is reserved against the volume as it is; the pages are read while
//! the guest keeps running, each either before the guest changes it or from the
//! copy saved when the guest did; then the files are written, and last the
//! record. Only the record makes the new state count.

use super::checksum::{replace_state_block, unlisted, with_block};
use super::maps::{lists_keys, members, remove_each, sorted_keys};
use super::state::{follows, with_scheduled, Counters, HostState};
use super::volume::{
    BlockSum, CaptureKind, Drain, LocalFile, PageEntry, PageFileLoc, PageState, PendingSync, Rescue,
    SavedPage, VolumeConfig, VolumeOperations, VolumeRecord, VolumeRecordKind, VolumeState,
};
use crate::arith::sat_add;
use crate::journal::MigrationSource;
use crate::objects::{place_object, placed, ObjectIdentity, ObjectRef};
use std::collections::BTreeMap;
use vstd::prelude::*;

verus! {

broadcast use vstd::std_specs::btree::group_btree_axioms;

// ---------------------------------------------------------------------------
// Files a state needs
// ---------------------------------------------------------------------------

/// The file a page location of `volume` lies in.
pub open spec fn loc_identity(volume: u64, loc: PageFileLoc) -> ObjectIdentity {
    ObjectIdentity::volume(volume, loc.fence, loc.object)
}

/// A page, a tombstone or the device state of the volume lies in this file.
pub open spec fn file_needed(state: VolumeState, volume: u64, identity: ObjectIdentity) -> bool {
    ||| exists|page: u64| #[trigger]
        state.page_locs@.contains_key(page) && state.page_locs@[page].loc.base == 0
            && loc_identity(volume, state.page_locs@[page].loc) == identity
    ||| state.tombstone_files@.contains(identity)
    ||| state.vmm_files@.contains(identity)
}

/// Written together with a needed file. A batch is kept or dropped as a whole.
pub open spec fn batch_needed(state: VolumeState, volume: u64, file: ObjectRef) -> bool {
    exists|i: int|
        0 <= i < state.file_refs@.len() && file_needed(
            state,
            volume,
            (#[trigger] state.file_refs@[i]).identity,
        ) && state.file_refs@[i].identity.writer_fence == file.identity.writer_fence
            && state.file_refs@[i].batch_id == file.batch_id
}

pub fn contains_name(names: &Vec<ObjectIdentity>, identity: ObjectIdentity) -> (found: bool)
    ensures
        found == names@.contains(identity),
{
    let mut i: usize = 0;
    while i < names.len()
        invariant
            i <= names@.len(),
            forall|a: int| 0 <= a < i ==> names@[a] != identity,
        decreases names@.len() - i,
    {
        if names[i] == identity {
            return true;
        }
        i = i + 1;
    }
    false
}

fn is_file_needed(state: &VolumeState, volume: u64, identity: ObjectIdentity) -> (needed: bool)
    ensures
        needed == file_needed(*state, volume, identity),
{
    if contains_name(&state.tombstone_files, identity) || contains_name(
        &state.vmm_files,
        identity,
    ) {
        return true;
    }
    let keys: Vec<u64> = sorted_keys(&state.page_locs);
    let mut i: usize = 0;
    while i < keys.len()
        invariant
            i <= keys@.len(),
            lists_keys(keys@, state.page_locs@),
            forall|a: int|
                0 <= a < i ==> !(state.page_locs@[#[trigger] keys@[a]].loc.base == 0
                    && loc_identity(volume, state.page_locs@[keys@[a]].loc) == identity),
        decreases keys@.len() - i,
    {
        proof {
            assert(keys@.contains(keys@[i as int]));
        }
        if let Some(entry) = state.page_locs.get(&keys[i]) {
            if entry.loc.base == 0 && ObjectIdentity::volume(
                volume,
                entry.loc.fence,
                entry.loc.object,
            ) == identity {
                return true;
            }
        }
        i = i + 1;
    }
    proof {
        assert forall|page: u64| #[trigger] state.page_locs@.contains_key(page) implies !(
        state.page_locs@[page].loc.base == 0 && loc_identity(volume, state.page_locs@[page].loc)
            == identity) by {
            assert(keys@.contains(page));
            let a = choose|a: int| 0 <= a < keys@.len() && keys@[a] == page;
        }
    }
    false
}

fn is_batch_needed(state: &VolumeState, volume: u64, file: &ObjectRef) -> (needed: bool)
    ensures
        needed == batch_needed(*state, volume, *file),
{
    let mut i: usize = 0;
    while i < state.file_refs.len()
        invariant
            i <= state.file_refs@.len(),
            forall|a: int|
                0 <= a < i ==> !(file_needed(
                    *state,
                    volume,
                    (#[trigger] state.file_refs@[a]).identity,
                ) && state.file_refs@[a].identity.writer_fence == file.identity.writer_fence
                    && state.file_refs@[a].batch_id == file.batch_id),
        decreases state.file_refs@.len() - i,
    {
        let other: ObjectRef = state.file_refs[i];
        if other.identity.writer_fence == file.identity.writer_fence && other.batch_id
            == file.batch_id && is_file_needed(state, volume, other.identity) {
            return true;
        }
        i = i + 1;
    }
    false
}

/// The files a recovery of the current state needs, in order.
pub open spec fn needed_files(state: VolumeState, volume: u64) -> Seq<ObjectRef> {
    state.file_refs@.filter(|file: ObjectRef| batch_needed(state, volume, file))
}

pub fn recovery_files(state: &VolumeState, volume: u64) -> (files: Vec<ObjectRef>)
    ensures
        files@ == needed_files(*state, volume),
{
    let mut files: Vec<ObjectRef> = Vec::new();
    let mut i: usize = 0;
    let ghost keep = |file: ObjectRef| batch_needed(*state, volume, file);
    proof {
        reveal(Seq::filter);
    }
    while i < state.file_refs.len()
        invariant
            i <= state.file_refs@.len(),
            keep == (|file: ObjectRef| batch_needed(*state, volume, file)),
            files@ == state.file_refs@.take(i as int).filter(keep),
        decreases state.file_refs@.len() - i,
    {
        let file: ObjectRef = state.file_refs[i];
        proof {
            reveal(Seq::filter);
            assert(state.file_refs@.take(i + 1).drop_last() =~= state.file_refs@.take(i as int));
        }
        if is_batch_needed(state, volume, &file) {
            files.push(file);
        }
        i = i + 1;
    }
    proof {
        assert(state.file_refs@.take(i as int) =~= state.file_refs@);
    }
    files
}

/// No file that a page, a tombstone or the device state lies in is left out of
/// a record.
pub proof fn records_name_every_needed_file(state: VolumeState, volume: u64, file: ObjectRef)
    requires
        state.file_refs@.contains(file),
        file_needed(state, volume, file.identity),
    ensures
        needed_files(state, volume).contains(file),
{
    let i = choose|i: int| 0 <= i < state.file_refs@.len() && state.file_refs@[i] == file;
    lemma_filter_keeps(
        state.file_refs@,
        |f: ObjectRef| batch_needed(state, volume, f),
        file,
    );
}

proof fn lemma_filter_keeps(files: Seq<ObjectRef>, keep: spec_fn(ObjectRef) -> bool, file: ObjectRef)
    requires
        files.contains(file),
        keep(file),
    ensures
        files.filter(keep).contains(file),
    decreases files.len(),
{
    reveal(Seq::filter);
    let front = files.drop_last();
    let i = choose|i: int| 0 <= i < files.len() && files[i] == file;
    if i == files.len() - 1 {
        let kept = front.filter(keep).push(file);
        assert(kept[kept.len() - 1] == file);
    } else {
        assert(front[i] == file);
        lemma_filter_keeps(front, keep, file);
        let kept = front.filter(keep);
        let k = choose|k: int| 0 <= k < kept.len() && kept[k] == file;
        if keep(files.last()) {
            assert(kept.push(files.last())[k] == file);
        }
    }
}

// ---------------------------------------------------------------------------
// Synchronisations
// ---------------------------------------------------------------------------

/// The last synchronisation a capture of mutations up to `capture_seq` makes
/// durable: of those waiting, the latest it holds, but no less than before.
pub open spec fn covered_through(syncs: Seq<PendingSync>, capture_seq: u64, before: u64) -> u64
    decreases syncs.len(),
{
    if syncs.len() == 0 {
        before
    } else {
        let rest = covered_through(syncs.drop_last(), capture_seq, before);
        let barrier = syncs.last().barrier;
        if barrier <= capture_seq && barrier > rest {
            barrier
        } else {
            rest
        }
    }
}

fn cover_syncs(syncs: &Vec<PendingSync>, capture_seq: u64, before: u64) -> (covered: u64)
    ensures
        covered == covered_through(syncs@, capture_seq, before),
{
    let mut covered: u64 = before;
    let mut i: usize = 0;
    while i < syncs.len()
        invariant
            i <= syncs@.len(),
            covered == covered_through(syncs@.take(i as int), capture_seq, before),
        decreases syncs@.len() - i,
    {
        proof {
            assert(syncs@.take(i + 1).drop_last() =~= syncs@.take(i as int));
        }
        let barrier: u64 = syncs[i].barrier;
        if barrier <= capture_seq && barrier > covered {
            covered = barrier;
        }
        i = i + 1;
    }
    proof {
        assert(syncs@.take(i as int) =~= syncs@);
    }
    covered
}

/// A record never claims a synchronisation that its pages do not hold, never
/// forgets one that was claimed before, and leaves none behind that it could
/// claim.
pub proof fn a_record_covers_what_it_holds(
    syncs: Seq<PendingSync>,
    capture_seq: u64,
    before: u64,
    i: int,
)
    requires
        0 <= i < syncs.len(),
    ensures
        covered_through(syncs, capture_seq, before) >= before,
        covered_through(syncs, capture_seq, before) <= capture_seq || covered_through(
            syncs,
            capture_seq,
            before,
        ) == before,
        syncs[i].barrier <= capture_seq ==> syncs[i].barrier <= covered_through(
            syncs,
            capture_seq,
            before,
        ),
    decreases syncs.len(),
{
    lemma_covered_bounds(syncs, capture_seq, before);
    if i < syncs.len() - 1 {
        a_record_covers_what_it_holds(syncs.drop_last(), capture_seq, before, i);
    }
}

proof fn lemma_covered_bounds(syncs: Seq<PendingSync>, capture_seq: u64, before: u64)
    ensures
        covered_through(syncs, capture_seq, before) >= before,
        covered_through(syncs, capture_seq, before) <= capture_seq || covered_through(
            syncs,
            capture_seq,
            before,
        ) == before,
    decreases syncs.len(),
{
    if syncs.len() > 0 {
        lemma_covered_bounds(syncs.drop_last(), capture_seq, before);
    }
}

/// Waiting synchronisations that are acknowledged up to `ack`, in order.
pub open spec fn acknowledged(syncs: Seq<PendingSync>, ack: u64) -> Seq<PendingSync> {
    syncs.filter(|sync: PendingSync| sync.barrier <= ack)
}

/// Waiting synchronisations that are not, in order.
pub open spec fn unacknowledged(syncs: Seq<PendingSync>, ack: u64) -> Seq<PendingSync> {
    syncs.filter(|sync: PendingSync| sync.barrier > ack)
}

/// Takes the acknowledged synchronisations out of the waiting ones.
pub fn take_acknowledged(syncs: &mut Vec<PendingSync>, ack: u64) -> (completed: Vec<PendingSync>)
    ensures
        completed@ == acknowledged(old(syncs)@, ack),
        final(syncs)@ == unacknowledged(old(syncs)@, ack),
{
    let ghost all = syncs@;
    let mut completed: Vec<PendingSync> = Vec::new();
    let mut waiting: Vec<PendingSync> = Vec::new();
    let mut i: usize = 0;
    proof {
        reveal(Seq::filter);
    }
    while i < syncs.len()
        invariant
            i <= syncs@.len(),
            syncs@ == all,
            completed@ == acknowledged(all.take(i as int), ack),
            waiting@ == unacknowledged(all.take(i as int), ack),
        decreases syncs@.len() - i,
    {
        let sync: PendingSync = syncs[i];
        proof {
            reveal(Seq::filter);
            assert(all.take(i + 1).drop_last() =~= all.take(i as int));
        }
        if sync.barrier <= ack {
            completed.push(sync);
        } else {
            waiting.push(sync);
        }
        i = i + 1;
    }
    proof {
        assert(all.take(i as int) =~= all);
    }
    *syncs = waiting;
    completed
}

// ---------------------------------------------------------------------------
// Creation
// ---------------------------------------------------------------------------

/// The record of a volume that nothing was written to.
pub open spec fn is_initial_record(record: VolumeRecord, config: VolumeConfig, fence: u64) -> bool {
    &&& record.config == config
    &&& record.seq == 0
    &&& record.fence == fence
    &&& record.kind == VolumeRecordKind::Commit
    &&& record.capture_seq == 0
    &&& record.sync_covered_through == 0
    &&& record.post_state_checksum == 0
    &&& record.files@ == Seq::<ObjectRef>::empty()
    &&& record.page_index@ == Map::<u64, PageEntry>::empty()
    &&& record.migrated_from is None
}

pub fn initial_record(config: VolumeConfig, fence: u64) -> (record: VolumeRecord)
    ensures
        is_initial_record(record, config, fence),
{
    VolumeRecord {
        config,
        seq: 0,
        fence,
        kind: VolumeRecordKind::Commit,
        capture_seq: 0,
        sync_covered_through: 0,
        post_state_checksum: 0,
        files: Vec::new(),
        page_index: BTreeMap::new(),
        migrated_from: None,
    }
}

/// Opens a new volume once its first record is written.
pub fn finish_creation(
    host: &mut HostState,
    volume: u64,
    incarnation: u64,
    record: VolumeRecord,
) -> (opened: bool)
    requires
        old(host).counters.room(1),
    ensures
        opened == (old(host).volume_at_spec(volume, incarnation) is Some),
        !opened ==> *final(host) == *old(host),
        opened ==> {
            let before = old(host).volumes@[volume];
            let after = final(host).volumes@[volume];
            &&& *final(host) == (HostState {
                volumes: final(host).volumes,
                scheduled: final(host).scheduled,
                counters: Counters {
                    records_written: (old(host).counters.records_written + 1) as u64,
                    ..old(host).counters
                },
                ..*old(host)
            })
            &&& final(host).scheduled@ == with_scheduled(
                old(host).scheduled@,
                volume,
            )
            &&& final(host).volumes@ == old(host).volumes@.insert(volume, after)
            &&& after == (VolumeState {
                ready: true,
                next_seq: 1,
                best_record: Some(record),
                record_writes: after.record_writes,
                ..before
            })
            &&& after.record_writes@ == before.record_writes@.insert(
                record.seq,
                (before.fence, 0),
            )
        },
        follows(*old(host), *final(host)),
{
    if host.volume_at(volume, incarnation).is_none() {
        return false;
    }
    let ghost was = host.volumes@;
    if let Some(mut state) = host.volumes.remove(&volume) {
        state.ready = true;
        state.next_seq = 1;
        state.record_writes.insert(record.seq, (state.fence, 0));
        state.best_record = Some(record);
        host.volumes.insert(volume, state);
        proof {
            assert(was.remove(volume).insert(volume, state) =~= was.insert(volume, state));
        }
    }
    host.counters.records_written = host.counters.records_written + 1;
    host.schedule_volume(volume);
    true
}

// ---------------------------------------------------------------------------
// Choosing pages
// ---------------------------------------------------------------------------

/// Not known to be in a file as it is now.
pub open spec fn is_unstable(state: VolumeState, page: u64) -> bool {
    state.pages@.contains_key(page) && (state.pages@[page].dirty || state.pages@[page].flushing)
}

pub open spec fn is_dirty(state: VolumeState, page: u64) -> bool {
    state.pages@.contains_key(page) && state.pages@[page].dirty
}

/// Strictly increasing.
pub open spec fn ascending(list: Seq<u64>) -> bool {
    forall|i: int, j: int| 0 <= i < j < list.len() ==> list[i] < list[j]
}

/// Resident pages that are dirty, or with `flushing` those being flushed too,
/// in order.
fn pick_pages(pages: &BTreeMap<u64, PageState>, flushing: bool) -> (picked: Vec<u64>)
    ensures
        ascending(picked@),
        forall|page: u64| #[trigger]
            picked@.contains(page) <==> pages@.contains_key(page) && (pages@[page].dirty || (
            flushing && pages@[page].flushing)),
{
    let keys: Vec<u64> = sorted_keys(pages);
    let mut picked: Vec<u64> = Vec::new();
    let mut i: usize = 0;
    while i < keys.len()
        invariant
            i <= keys@.len(),
            lists_keys(keys@, pages@),
            ascending(picked@),
            forall|a: int|
                0 <= a < picked@.len() && i < keys@.len() ==> picked@[a] < keys@[i as int],
            forall|a: int|
                0 <= a < picked@.len() ==> pages@.contains_key(#[trigger] picked@[a]) && (
                pages@[picked@[a]].dirty || (flushing && pages@[picked@[a]].flushing)),
            forall|a: int|
                0 <= a < i && (pages@[#[trigger] keys@[a]].dirty || (flushing
                    && pages@[keys@[a]].flushing)) ==> picked@.contains(keys@[a]),
        decreases keys@.len() - i,
    {
        let key: u64 = keys[i];
        let ghost had = picked@;
        proof {
            assert(keys@.contains(key));
        }
        if let Some(page) = pages.get(&key) {
            if page.dirty || (flushing && page.flushing) {
                picked.push(key);
            }
        }
        proof {
            assert forall|a: int|
                0 <= a < i + 1 && (pages@[#[trigger] keys@[a]].dirty || (flushing
                    && pages@[keys@[a]].flushing)) implies picked@.contains(keys@[a]) by {
                if a < i {
                    let b = choose|b: int| 0 <= b < had.len() && had[b] == keys@[a];
                    assert(picked@[b] == keys@[a]);
                } else {
                    assert(picked@[had.len() as int] == key);
                }
            }
        }
        i = i + 1;
    }
    proof {
        assert forall|page: u64| #[trigger] picked@.contains(page) <==> pages@.contains_key(page)
            && (pages@[page].dirty || (flushing && pages@[page].flushing)) by {
            if pages@.contains_key(page) {
                assert(keys@.contains(page));
                let a = choose|a: int| 0 <= a < keys@.len() && keys@[a] == page;
            }
        }
    }
    picked
}

/// Pages a capture reads: the unstable ones, and all of them if no archived
/// memory can be relied on.
pub open spec fn is_captured(state: VolumeState, complete: bool, page: u64) -> bool {
    is_unstable(state, page) || (complete && page < state.config.pages)
}

/// `list` with every number below `bound` added, in order.
fn with_range(list: &Vec<u64>, bound: u64) -> (all: Vec<u64>)
    requires
        ascending(list@),
        bound <= u32::MAX,
    ensures
        ascending(all@),
        forall|page: u64| #[trigger] all@.contains(page) <==> list@.contains(page) || page < bound,
{
    let mut all: Vec<u64> = Vec::new();
    let mut next: u64 = 0;
    while next < bound
        invariant
            next <= bound,
            all@.len() == next,
            forall|a: int| 0 <= a < next ==> all@[a] == a,
        decreases bound - next,
    {
        all.push(next);
        next = next + 1;
    }
    proof {
        assert forall|page: u64| #[trigger] all@.contains(page) <==> page < bound by {
            if page < bound {
                assert(all@[page as int] == page);
            }
        }
    }
    let mut i: usize = 0;
    while i < list.len()
        invariant
            i <= list@.len(),
            ascending(list@),
            ascending(all@),
            forall|a: int|
                0 <= a < all@.len() ==> #[trigger] all@[a] < bound || exists|b: int|
                    0 <= b < i && list@[b] == all@[a],
            forall|page: u64| #[trigger]
                all@.contains(page) <==> page < bound || exists|b: int|
                    0 <= b < i && list@[b] == page,
        decreases list@.len() - i,
    {
        let page: u64 = list[i];
        let ghost had = all@;
        if page >= bound {
            proof {
                assert forall|a: int| 0 <= a < had.len() implies had[a] < page by {
                    if had[a] >= bound {
                        let b = choose|b: int| 0 <= b < i && list@[b] == had[a];
                        assert(list@[b] < list@[i as int]);
                    }
                }
            }
            all.push(page);
        }
        proof {
            assert forall|p: u64| #[trigger] all@.contains(p) <==> p < bound || exists|b: int|
                0 <= b < i + 1 && list@[b] == p by {
                if had.contains(p) {
                    let a = choose|a: int| 0 <= a < had.len() && had[a] == p;
                    assert(all@[a] == p);
                    if p >= bound {
                        let b = choose|b: int| 0 <= b < i && list@[b] == p;
                        assert(list@[b] == p);
                    }
                }
                if p == page {
                    assert(list@[i as int] == p);
                    if page >= bound {
                        assert(all@[had.len() as int] == p);
                    }
                }
                if all@.contains(p) && !had.contains(p) {
                    let a = choose|a: int| 0 <= a < all@.len() && all@[a] == p;
                    if a < had.len() {
                        assert(had[a] == p);
                    }
                }
                if exists|b: int| 0 <= b < i && list@[b] == p {
                    assert(had.contains(p));
                }
            }
            assert forall|a: int| 0 <= a < all@.len() implies #[trigger] all@[a] < bound
                || exists|b: int| 0 <= b < i + 1 && list@[b] == all@[a] by {
                assert(all@.contains(all@[a]));
            }
        }
        i = i + 1;
    }
    proof {
        assert forall|page: u64| #[trigger] all@.contains(page) <==> list@.contains(page) || page
            < bound by {
            if list@.contains(page) {
                let b = choose|b: int| 0 <= b < list@.len() && list@[b] == page;
                assert(list@[b] == page);
            }
        }
    }
    all
}

// ---------------------------------------------------------------------------
// Rescues
// ---------------------------------------------------------------------------

/// A live page of a sparse file, with its bytes.
pub struct RescueEntry {
    pub page: u64,
    pub entry: PageEntry,
    pub bytes: Vec<u8>,
}

/// The live pages of a sparse file, so that the file can be given up.
pub struct PreparedRescue {
    pub victim_fence: u64,
    pub victim_object: u64,
    pub entries: Vec<RescueEntry>,
}

/// The location the last entry for `page` was read from.
pub open spec fn prepared_entry(entries: Seq<RescueEntry>, page: u64) -> Option<PageEntry>
    decreases entries.len(),
{
    if entries.len() == 0 {
        None
    } else if entries.last().page == page {
        Some(entries.last().entry)
    } else {
        prepared_entry(entries.drop_last(), page)
    }
}

fn find_prepared(entries: &Vec<RescueEntry>, page: u64) -> (entry: Option<PageEntry>)
    ensures
        entry == prepared_entry(entries@, page),
{
    let mut n: usize = entries.len();
    proof {
        assert(entries@.take(n as int) =~= entries@);
    }
    while n > 0
        invariant
            n <= entries@.len(),
            prepared_entry(entries@, page) == prepared_entry(entries@.take(n as int), page),
        decreases n,
    {
        proof {
            assert(entries@.take(n as int).drop_last() =~= entries@.take(n - 1));
        }
        if entries[n - 1].page == page {
            return Some(entries[n - 1].entry);
        }
        n = n - 1;
    }
    None
}

/// The page lies in the victim file and nothing would save it.
pub open spec fn would_lose(state: VolumeState, prepared: PreparedRescue, page: u64) -> bool {
    let loc = state.page_locs@[page].loc;
    &&& state.page_locs@.contains_key(page)
    &&& loc.base == 0 && loc.fence == prepared.victim_fence && loc.object == prepared.victim_object
    &&& !is_unstable(state, page)
    &&& prepared_entry(prepared.entries@, page) != Some(state.page_locs@[page])
}

/// Every live page of the file is either being captured anyway or was read as
/// it still is.
pub open spec fn may_give_up(state: VolumeState, prepared: PreparedRescue) -> bool {
    forall|page: u64| #[trigger]
        state.page_locs@.contains_key(page) ==> !would_lose(state, prepared, page)
}

fn is_unstable_page(pages: &BTreeMap<u64, PageState>, page: u64) -> (unstable: bool)
    ensures
        unstable == (pages@.contains_key(page) && (pages@[page].dirty || pages@[page].flushing)),
{
    match pages.get(&page) {
        Some(state) => state.dirty || state.flushing,
        None => false,
    }
}

fn can_give_up(state: &VolumeState, prepared: &PreparedRescue) -> (yes: bool)
    ensures
        yes == may_give_up(*state, *prepared),
{
    let keys: Vec<u64> = sorted_keys(&state.page_locs);
    let mut i: usize = 0;
    while i < keys.len()
        invariant
            i <= keys@.len(),
            lists_keys(keys@, state.page_locs@),
            forall|a: int| 0 <= a < i ==> !would_lose(*state, *prepared, #[trigger] keys@[a]),
        decreases keys@.len() - i,
    {
        let page: u64 = keys[i];
        if let Some(entry) = state.page_locs.get(&page) {
            let victim: bool = entry.loc.base == 0 && entry.loc.fence == prepared.victim_fence
                && entry.loc.object == prepared.victim_object;
            if victim && !is_unstable_page(&state.pages, page) {
                let read: bool = match find_prepared(&prepared.entries, page) {
                    Some(found) => found == *entry,
                    None => false,
                };
                if !read {
                    return false;
                }
            }
        }
        i = i + 1;
    }
    proof {
        assert forall|page: u64| #[trigger] state.page_locs@.contains_key(page) implies !would_lose(
            *state,
            *prepared,
            page,
        ) by {
            assert(keys@.contains(page));
            let a = choose|a: int| 0 <= a < keys@.len() && keys@[a] == page;
        }
    }
    true
}

/// The entry is still where the page lies, and the page is not being captured
/// anyway.
pub open spec fn is_rescued(state: VolumeState, entry: RescueEntry) -> bool {
    &&& !is_unstable(state, entry.page)
    &&& state.page_locs@.contains_key(entry.page)
    &&& state.page_locs@[entry.page] == entry.entry
}

/// Pages and bytes of the entries to rescue, in order.
pub open spec fn rescued_entries(state: VolumeState, entries: Seq<RescueEntry>) -> Seq<
    (u64, Seq<u8>),
>
    decreases entries.len(),
{
    if entries.len() == 0 {
        Seq::empty()
    } else {
        let rest = rescued_entries(state, entries.drop_last());
        if is_rescued(state, entries.last()) {
            rest.push((entries.last().page, entries.last().bytes@))
        } else {
            rest
        }
    }
}

/// Pages and bytes rescued from all files that may be given up.
pub open spec fn rescued_pages(state: VolumeState, prepared: Seq<PreparedRescue>) -> Seq<
    (u64, Seq<u8>),
>
    decreases prepared.len(),
{
    if prepared.len() == 0 {
        Seq::empty()
    } else {
        let rest = rescued_pages(state, prepared.drop_last());
        if may_give_up(state, prepared.last()) {
            rest + rescued_entries(state, prepared.last().entries@)
        } else {
            rest
        }
    }
}

/// Files that may be given up, in order.
pub open spec fn victims(state: VolumeState, prepared: Seq<PreparedRescue>) -> Seq<(u64, u64)>
    decreases prepared.len(),
{
    if prepared.len() == 0 {
        Seq::empty()
    } else {
        let rest = victims(state, prepared.drop_last());
        if may_give_up(state, prepared.last()) {
            rest.push((prepared.last().victim_fence, prepared.last().victim_object))
        } else {
            rest
        }
    }
}

/// A rescue, without its generation.
pub open spec fn rescue_pairs(rescues: Seq<Rescue>) -> Seq<(u64, Seq<u8>)> {
    rescues.map_values(|r: Rescue| (r.page, r.bytes@))
}

fn copy_bytes(bytes: &Vec<u8>) -> (copy: Vec<u8>)
    ensures
        copy@ == bytes@,
{
    let mut copy: Vec<u8> = Vec::new();
    copy.extend_from_slice(bytes.as_slice());
    copy
}

/// Adds the entries to rescue from one file.
fn rescue_file(state: &VolumeState, entries: &Vec<RescueEntry>, rescues: &mut Vec<Rescue>)
    ensures
        rescue_pairs(final(rescues)@) == rescue_pairs(old(rescues)@) + rescued_entries(
            *state,
            entries@,
        ),
{
    let mut i: usize = 0;
    let ghost before = rescue_pairs(rescues@);
    while i < entries.len()
        invariant
            i <= entries@.len(),
            rescue_pairs(rescues@) == before + rescued_entries(*state, entries@.take(i as int)),
        decreases entries@.len() - i,
    {
        let page: u64 = entries[i].page;
        proof {
            assert(entries@.take(i + 1).drop_last() =~= entries@.take(i as int));
        }
        let current: bool = match state.page_locs.get(&page) {
            Some(entry) => *entry == entries[i].entry,
            None => false,
        };
        let ghost had = rescues@;
        if current && !is_unstable_page(&state.pages, page) {
            let bytes: Vec<u8> = copy_bytes(&entries[i].bytes);
            rescues.push(Rescue { page, generation: 0, bytes });
            proof {
                assert(rescue_pairs(rescues@) =~= rescue_pairs(had).push((page, bytes@)));
            }
        }
        i = i + 1;
    }
    proof {
        assert(entries@.take(i as int) =~= entries@);
    }
}

/// The files that may be given up, and the pages to rescue from them.
fn choose_rescues(state: &VolumeState, prepared: &Vec<PreparedRescue>) -> (chosen: (
    Vec<(u64, u64)>,
    Vec<Rescue>,
))
    ensures
        chosen.0@ == victims(*state, prepared@),
        rescue_pairs(chosen.1@) == rescued_pages(*state, prepared@),
{
    let mut given_up: Vec<(u64, u64)> = Vec::new();
    let mut rescues: Vec<Rescue> = Vec::new();
    let mut i: usize = 0;
    while i < prepared.len()
        invariant
            i <= prepared@.len(),
            given_up@ == victims(*state, prepared@.take(i as int)),
            rescue_pairs(rescues@) == rescued_pages(*state, prepared@.take(i as int)),
        decreases prepared@.len() - i,
    {
        proof {
            assert(prepared@.take(i + 1).drop_last() =~= prepared@.take(i as int));
        }
        if can_give_up(state, &prepared[i]) {
            rescue_file(state, &prepared[i].entries, &mut rescues);
            given_up.push((prepared[i].victim_fence, prepared[i].victim_object));
        }
        i = i + 1;
    }
    proof {
        assert(prepared@.take(i as int) =~= prepared@);
    }
    (given_up, rescues)
}

/// Giving up the chosen files loses no page: whatever lies in one of them is
/// captured or rescued as it is.
pub proof fn giving_up_files_loses_nothing(
    state: VolumeState,
    prepared: Seq<PreparedRescue>,
    k: int,
    page: u64,
)
    requires
        0 <= k < prepared.len(),
        may_give_up(state, prepared[k]),
        state.page_locs@.contains_key(page),
        state.page_locs@[page].loc.base == 0,
        state.page_locs@[page].loc.fence == prepared[k].victim_fence,
        state.page_locs@[page].loc.object == prepared[k].victim_object,
    ensures
        is_unstable(state, page) || exists|i: int|
            0 <= i < rescued_pages(state, prepared).len() && (#[trigger] rescued_pages(
                state,
                prepared,
            )[i]).0 == page,
    decreases prepared.len(),
{
    assert(!would_lose(state, prepared[k], page));
    if !is_unstable(state, page) {
        let rest = rescued_pages(state, prepared.drop_last());
        if k == prepared.len() - 1 {
            let part = rescued_entries(state, prepared[k].entries@);
            let i = lemma_rescued_has(state, prepared[k].entries@, page);
            let all = rescued_pages(state, prepared);
            assert(all == rest + part);
            assert(all[rest.len() + i].0 == page);
        } else {
            assert(prepared.drop_last()[k] == prepared[k]);
            giving_up_files_loses_nothing(state, prepared.drop_last(), k, page);
            let i = choose|i: int| 0 <= i < rest.len() && (#[trigger] rest[i]).0 == page;
            let all = rescued_pages(state, prepared);
            assert(all[i] == rest[i]);
            assert(all[i].0 == page);
        }
    }
}

proof fn lemma_rescued_has(state: VolumeState, entries: Seq<RescueEntry>, page: u64) -> (i: int)
    requires
        !is_unstable(state, page),
        state.page_locs@.contains_key(page),
        prepared_entry(entries, page) == Some(state.page_locs@[page]),
    ensures
        0 <= i < rescued_entries(state, entries).len(),
        rescued_entries(state, entries)[i].0 == page,
    decreases entries.len(),
{
    let rest = rescued_entries(state, entries.drop_last());
    if entries.last().page == page {
        rest.len() as int
    } else {
        lemma_rescued_has(state, entries.drop_last(), page)
    }
}

// ---------------------------------------------------------------------------
// Reserving a capture
// ---------------------------------------------------------------------------

/// Something a record would change: a page, a file to give up, a block that
/// went, or a waiting synchronisation.
pub open spec fn needs_commit(state: VolumeState, prepared: Seq<PreparedRescue>) -> bool {
    ||| state.has_dirty()
    ||| victims(state, prepared).len() > 0
    ||| !state.pending_tombstones@.is_empty()
    ||| state.uncovered_sync()
}

/// Whether a capture must not start. One that was reserved before goes ahead
/// even if nothing changed, but only on the volume it was reserved for.
pub open spec fn capture_refused(
    state: VolumeState,
    kind: CaptureKind,
    reservation: Option<u64>,
    prepared: Seq<PreparedRescue>,
) -> bool {
    ||| !state.ready
    ||| match reservation {
        None => state.operations.mutation_blocked() || state.operations.migration
            || !needs_commit(state, prepared),
        Some(incarnation) => state.incarnation != incarnation || state.operations.mutation
            != Some(kind),
    }
}

/// What a capture has to read and write, and the numbers it took.
pub struct CapturePlan {
    pub incarnation: u64,
    pub seq: u64,
    pub capture_seq: u64,
    pub fence: u64,
    /// Pages to read, in order.
    pub pages: Vec<u64>,
    /// Those of them that were unstable.
    pub flushed: Vec<u64>,
    /// Pages to protect against writes first.
    pub protect: Vec<u64>,
    pub first_object: u64,
    /// Files to give up, by writer and number.
    pub victims: Vec<(u64, u64)>,
    /// Blocks that went, with their generations.
    pub tombstones: Vec<(u64, u64)>,
}

/// Device-state blocks are numbered by record, not by generation.
pub open spec fn is_vmm_code(code: u64) -> bool {
    code >= 0x2_0000_0000
}

/// How many of `codes` take a generation.
pub open spec fn numbered(codes: Seq<u64>) -> nat
    decreases codes.len(),
{
    if codes.len() == 0 {
        0
    } else {
        numbered(codes.drop_last()) + if is_vmm_code(codes.last()) {
            0nat
        } else {
            1
        }
    }
}

/// The blocks that went, with their generations.
pub open spec fn tombstone_numbers(codes: Seq<u64>, seq: u64, first: int) -> Seq<(u64, u64)>
    decreases codes.len(),
{
    if codes.len() == 0 {
        Seq::empty()
    } else {
        let front = codes.drop_last();
        tombstone_numbers(front, seq, first).push(
            (
                codes.last(),
                if is_vmm_code(codes.last()) {
                    seq
                } else {
                    (first + numbered(front)) as u64
                },
            ),
        )
    }
}

fn number_tombstones(codes: &Vec<u64>, seq: u64, first: u64) -> (result: (Vec<(u64, u64)>, u64))
    requires
        first + codes@.len() <= u64::MAX,
    ensures
        result.0@ == tombstone_numbers(codes@, seq, first as int),
        result.1 == first + numbered(codes@),
        numbered(codes@) <= codes@.len(),
{
    let mut list: Vec<(u64, u64)> = Vec::new();
    let mut next: u64 = first;
    let mut i: usize = 0;
    proof {
        assert(codes@.take(0) =~= Seq::<u64>::empty());
    }
    while i < codes.len()
        invariant
            i <= codes@.len(),
            first + codes@.len() <= u64::MAX,
            next == first + numbered(codes@.take(i as int)),
            numbered(codes@.take(i as int)) <= i,
            list@ == tombstone_numbers(codes@.take(i as int), seq, first as int),
        decreases codes@.len() - i,
    {
        proof {
            assert(codes@.take(i + 1).drop_last() =~= codes@.take(i as int));
        }
        let code: u64 = codes[i];
        if code >= 0x2_0000_0000 {
            list.push((code, seq));
        } else {
            list.push((code, next));
            next = next + 1;
        }
        i = i + 1;
    }
    proof {
        assert(codes@.take(i as int) =~= codes@);
    }
    (list, next)
}

/// Each page with its generation.
pub open spec fn page_numbers(pages: Seq<u64>, first: int) -> Map<u64, u64>
    decreases pages.len(),
{
    if pages.len() == 0 {
        Map::empty()
    } else {
        page_numbers(pages.drop_last(), first).insert(
            pages.last(),
            (first + pages.len() - 1) as u64,
        )
    }
}

fn number_pages(pages: &Vec<u64>, first: u64) -> (unread: BTreeMap<u64, u64>)
    requires
        first + pages@.len() <= u64::MAX,
    ensures
        unread@ == page_numbers(pages@, first as int),
{
    let mut unread: BTreeMap<u64, u64> = BTreeMap::new();
    let mut i: usize = 0;
    proof {
        assert(pages@.take(0) =~= Seq::<u64>::empty());
    }
    while i < pages.len()
        invariant
            i <= pages@.len(),
            first + pages@.len() <= u64::MAX,
            unread@ == page_numbers(pages@.take(i as int), first as int),
        decreases pages@.len() - i,
    {
        proof {
            assert(pages@.take(i + 1).drop_last() =~= pages@.take(i as int));
        }
        unread.insert(pages[i], first + i as u64);
        i = i + 1;
    }
    proof {
        assert(pages@.take(i as int) =~= pages@);
    }
    unread
}

/// The rescues, each with its generation.
pub open spec fn rescues_numbered(rescues: Seq<Rescue>, first: int) -> bool {
    forall|i: int| 0 <= i < rescues.len() ==> (#[trigger] rescues[i]).generation == first + i
}

fn number_rescues(rescues: Vec<Rescue>, first: u64) -> (result: Vec<Rescue>)
    requires
        first + rescues@.len() <= u64::MAX,
    ensures
        rescue_pairs(result@) == rescue_pairs(rescues@),
        rescues_numbered(result@, first as int),
{
    let mut result: Vec<Rescue> = Vec::new();
    let mut i: usize = 0;
    while i < rescues.len()
        invariant
            i <= rescues@.len(),
            first + rescues@.len() <= u64::MAX,
            result@.len() == i,
            rescues_numbered(result@, first as int),
            forall|a: int|
                0 <= a < i ==> (#[trigger] result@[a]).page == rescues@[a].page
                    && result@[a].bytes@ == rescues@[a].bytes@,
        decreases rescues@.len() - i,
    {
        let bytes: Vec<u8> = copy_bytes(&rescues[i].bytes);
        result.push(Rescue { page: rescues[i].page, generation: first + i as u64, bytes });
        i = i + 1;
    }
    result
}

/// The pages after those listed began to be flushed.
pub open spec fn flush_begun(before: Map<u64, PageState>, listed: Seq<u64>) -> Map<u64, PageState> {
    Map::new(
        |page: u64| before.contains_key(page),
        |page: u64|
            if listed.contains(page) {
                PageState { dirty: false, flushing: true }
            } else {
                before[page]
            },
    )
}

fn begin_flush(pages: &mut BTreeMap<u64, PageState>, listed: &Vec<u64>)
    requires
        forall|i: int|
            0 <= i < listed@.len() ==> old(pages)@.contains_key(#[trigger] listed@[i]),
    ensures
        final(pages)@ == flush_begun(old(pages)@, listed@),
{
    let ghost before = pages@;
    let mut i: usize = 0;
    proof {
        assert(pages@ =~= flush_begun(before, listed@.take(0)));
    }
    while i < listed.len()
        invariant
            i <= listed@.len(),
            forall|a: int|
                0 <= a < listed@.len() ==> before.contains_key(#[trigger] listed@[a]),
            pages@ == flush_begun(before, listed@.take(i as int)),
        decreases listed@.len() - i,
    {
        let page: u64 = listed[i];
        pages.insert(page, PageState { dirty: false, flushing: true });
        proof {
            let done = listed@.take(i as int);
            let next = listed@.take(i + 1);
            assert(next =~= done.push(page));
            assert forall|p: u64| next.contains(p) <==> done.contains(p) || p == page by {
                if done.contains(p) {
                    let a = choose|a: int| 0 <= a < done.len() && done[a] == p;
                    assert(next[a] == p);
                }
                assert(next[i as int] == page);
                if next.contains(p) {
                    let a = choose|a: int| 0 <= a < next.len() && next[a] == p;
                    if a < i {
                        assert(done[a] == p);
                    }
                }
            }
            assert(pages@ =~= flush_begun(before, next));
        }
        i = i + 1;
    }
    proof {
        assert(listed@.take(i as int) =~= listed@);
    }
}

/// `plan` and `after` are what a capture of `before` reserves.
pub open spec fn capture_reserved(
    before: VolumeState,
    after: VolumeState,
    plan: CapturePlan,
    kind: CaptureKind,
    complete: bool,
    prepared: Seq<PreparedRescue>,
) -> bool {
    let codes = plan.tombstones@.map_values(|t: (u64, u64)| t.0);
    let rescued = rescued_pages(before, prepared).len();
    let first_tombstone = before.next_gen + plan.pages@.len() + rescued;
    &&& plan.incarnation == before.incarnation
    &&& plan.seq == before.next_seq
    &&& plan.capture_seq == before.mutation_seq
    &&& plan.fence == before.fence
    &&& plan.first_object == before.next_object_id
    &&& plan.victims@ == victims(before, prepared)
    &&& ascending(plan.pages@)
    &&& forall|page: u64| #[trigger]
        plan.pages@.contains(page) <==> is_captured(before, complete, page)
    &&& ascending(plan.flushed@)
    &&& forall|page: u64| #[trigger] plan.flushed@.contains(page) <==> is_unstable(before, page)
    &&& ascending(plan.protect@)
    &&& forall|page: u64| #[trigger] plan.protect@.contains(page) <==> is_dirty(before, page)
    &&& ascending(codes)
    &&& forall|code: u64| #[trigger]
        codes.contains(code) <==> before.pending_tombstones@.contains(code)
    &&& plan.tombstones@ == tombstone_numbers(codes, plan.seq, first_tombstone)
    &&& after == (VolumeState {
        next_seq: (before.next_seq + 1) as u64,
        next_object_id: (before.next_object_id + plan.pages@.len() + rescued
            + plan.tombstones@.len()) as u64,
        next_gen: (first_tombstone + numbered(codes)) as u64,
        pages: after.pages,
        operations: VolumeOperations {
            mutation: Some(kind),
            drain: after.operations.drain,
            ..before.operations
        },
        ..before
    })
    &&& after.pages@ == flush_begun(before.pages@, plan.flushed@)
    &&& after.operations.drain matches Some(drain) && {
        &&& drain.unread@ == page_numbers(plan.pages@, before.next_gen as int)
        &&& drain.copied@ == Map::<u64, SavedPage>::empty()
        &&& drain.armed@ == plan.pages@
        &&& rescue_pairs(drain.rescues@) == rescued_pages(before, prepared)
        &&& rescues_numbered(drain.rescues@, before.next_gen + plan.pages@.len())
    }
}

fn copy_list(list: &Vec<u64>) -> (copy: Vec<u64>)
    ensures
        copy@ == list@,
{
    let mut copy: Vec<u64> = Vec::new();
    copy.extend_from_slice(list.as_slice());
    copy
}

/// Blocks that went, by key code, in order.
fn pending_codes(state: &VolumeState) -> (codes: Vec<u64>)
    ensures
        ascending(codes@),
        forall|code: u64| #[trigger]
            codes@.contains(code) <==> state.pending_tombstones@.contains(code),
        codes@.len() == state.pending_tombstones@.len(),
{
    let listed: Vec<u64> = members(&state.pending_tombstones);
    let mut ordered: BTreeMap<u64, bool> = BTreeMap::new();
    let mut i: usize = 0;
    while i < listed.len()
        invariant
            i <= listed@.len(),
            forall|code: u64| #[trigger]
                ordered@.contains_key(code) <==> exists|a: int| 0 <= a < i && listed@[a] == code,
        decreases listed@.len() - i,
    {
        let ghost had = ordered@;
        ordered.insert(listed[i], true);
        proof {
            assert forall|code: u64| #[trigger] ordered@.contains_key(code) <==> exists|a: int|
                0 <= a < i + 1 && listed@[a] == code by {
                if had.contains_key(code) {
                    let a = choose|a: int| 0 <= a < i && listed@[a] == code;
                    assert(listed@[a] == code);
                }
                if code == listed@[i as int] {
                    assert(listed@[i as int] == code);
                }
            }
        }
        i = i + 1;
    }
    let codes: Vec<u64> = sorted_keys(&ordered);
    proof {
        assert forall|code: u64| #[trigger] codes@.contains(code)
            <==> state.pending_tombstones@.contains(code) by {
            assert(codes@.contains(code) <==> ordered@.contains_key(code));
            assert(listed@.contains(code) <==> state.pending_tombstones@.contains(code));
            if listed@.contains(code) {
                let a = choose|a: int| 0 <= a < listed@.len() && listed@[a] == code;
                assert(listed@[a] == code);
            }
        }
        assert(codes@.no_duplicates());
        codes@.unique_seq_to_set();
        assert(codes@.to_set() =~= state.pending_tombstones@);
    }
    codes
}

/// Numbers a capture takes: pages to read, rescues and blocks that went.
pub open spec fn capture_size(state: VolumeState, complete: bool, prepared: Seq<PreparedRescue>) ->
    nat {
    Set::new(|page: u64| is_captured(state, complete, page)).len() + rescued_pages(
        state,
        prepared,
    ).len() + state.pending_tombstones@.len()
}

/// Reserves a capture: takes the right to change the volume, the numbers the
/// capture needs, and notes which pages are still to be read.
pub fn reserve_capture(
    state: &mut VolumeState,
    kind: CaptureKind,
    reservation: Option<u64>,
    complete: bool,
    prepared: &Vec<PreparedRescue>,
) -> (plan: Option<CapturePlan>)
    requires
        old(state).next_seq < u64::MAX,
        old(state).next_object_id + capture_size(*old(state), complete, prepared@) <= u64::MAX,
        old(state).next_gen + capture_size(*old(state), complete, prepared@) <= u64::MAX,
    ensures
        match plan {
            None => capture_refused(*old(state), kind, reservation, prepared@) && *final(state)
                == *old(state),
            Some(p) => !capture_refused(*old(state), kind, reservation, prepared@)
                && capture_reserved(*old(state), *final(state), p, kind, complete, prepared@),
        },
{
    let (given_up, rescues) = choose_rescues(state, prepared);
    let blocked: bool = match reservation {
        None => {
            state.operations.mutation_blocked() || state.operations.migration || !(
            state.has_dirty() || given_up.len() > 0 || !state.pending_tombstones.is_empty()
                || state.uncovered_sync())
        },
        Some(incarnation) => {
            let owned = match state.operations.mutation {
                Some(owner) => owner == kind,
                None => false,
            };
            state.incarnation != incarnation || !owned
        },
    };
    if !state.ready || blocked {
        return None;
    }
    let flushed: Vec<u64> = pick_pages(&state.pages, true);
    let protect: Vec<u64> = pick_pages(&state.pages, false);
    let pages: Vec<u64> = if complete {
        with_range(&flushed, state.config.pages as u64)
    } else {
        copy_list(&flushed)
    };
    let codes: Vec<u64> = pending_codes(state);
    proof {
        let captured = Set::new(|page: u64| is_captured(*state, complete, page));
        assert forall|page: u64| #[trigger] pages@.contains(page) <==> is_captured(
            *state,
            complete,
            page,
        ) by {
            assert(flushed@.contains(page) <==> is_unstable(*state, page));
        }
        assert(pages@.no_duplicates());
        pages@.unique_seq_to_set();
        assert(pages@.to_set() =~= captured);
        assert(rescue_pairs(rescues@).len() == rescues@.len());
    }
    let seq: u64 = state.next_seq;
    let first_gen: u64 = state.next_gen;
    let rescue_gen: u64 = first_gen + pages.len() as u64;
    let tombstone_gen: u64 = rescue_gen + rescues.len() as u64;
    let entries: u64 = pages.len() as u64 + rescues.len() as u64 + codes.len() as u64;
    let unread: BTreeMap<u64, u64> = number_pages(&pages, first_gen);
    let rescues: Vec<Rescue> = number_rescues(rescues, rescue_gen);
    let (tombstones, next_gen) = number_tombstones(&codes, seq, tombstone_gen);
    let armed: Vec<u64> = copy_list(&pages);
    let plan = CapturePlan {
        incarnation: state.incarnation,
        seq,
        capture_seq: state.mutation_seq,
        fence: state.fence,
        pages,
        flushed,
        protect,
        first_object: state.next_object_id,
        victims: given_up,
        tombstones,
    };
    state.next_seq = seq + 1;
    state.next_object_id = state.next_object_id + entries;
    state.next_gen = next_gen;
    state.operations.mutation = Some(kind);
    state.operations.drain = Some(Drain { unread, copied: BTreeMap::new(), armed, rescues });
    proof {
        assert forall|i: int| 0 <= i < plan.flushed@.len() implies state.pages@.contains_key(
            #[trigger] plan.flushed@[i],
        ) by {
            assert(plan.flushed@.contains(plan.flushed@[i]));
        }
    }
    begin_flush(&mut state.pages, &plan.flushed);
    proof {
        lemma_tombstone_codes(codes@, seq, tombstone_gen as int);
        assert(plan.tombstones@.map_values(|t: (u64, u64)| t.0) =~= codes@);
        assert(plan.tombstones@.len() == codes@.len());
    }
    Some(plan)
}

proof fn lemma_tombstone_codes(codes: Seq<u64>, seq: u64, first: int)
    ensures
        tombstone_numbers(codes, seq, first).len() == codes.len(),
        forall|i: int|
            0 <= i < codes.len() ==> (#[trigger] tombstone_numbers(codes, seq, first)[i]).0
                == codes[i],
    decreases codes.len(),
{
    if codes.len() > 0 {
        lemma_tombstone_codes(codes.drop_last(), seq, first);
        let list = tombstone_numbers(codes, seq, first);
        let front = tombstone_numbers(codes.drop_last(), seq, first);
        assert forall|i: int| 0 <= i < codes.len() implies (#[trigger] list[i]).0 == codes[i] by {
            if i < codes.len() - 1 {
                assert(list[i] == front[i]);
                assert(front[i].0 == codes.drop_last()[i]);
            }
        }
    }
}

// ---------------------------------------------------------------------------
// Reading pages
// ---------------------------------------------------------------------------

/// `after` is `before` with a page taken into the capture.
pub open spec fn page_taken(
    before: VolumeState,
    after: VolumeState,
    page: u64,
    observed: Vec<u8>,
    captured: Option<(u64, Vec<u8>)>,
) -> bool {
    &&& match before.operations.drain {
        None => captured is None && after == before,
        Some(drain) => {
            let now = after.operations.drain->0;
            &&& after == (VolumeState {
                operations: VolumeOperations {
                    drain: after.operations.drain,
                    ..before.operations
                },
                ..before
            })
            &&& after.operations.drain is Some
            &&& now == (Drain { unread: now.unread, copied: now.copied, ..drain })
            &&& if drain.unread@.contains_key(page) {
                &&& captured matches Some((generation, bytes)) && generation
                    == drain.unread@[page] && bytes == observed
                &&& now.unread@ == drain.unread@.remove(page)
                &&& now.copied@ == drain.copied@
            } else if drain.copied@.contains_key(page) {
                &&& captured matches Some((generation, bytes)) && generation
                    == drain.copied@[page].generation && bytes == drain.copied@[page].bytes
                &&& now.unread@ == drain.unread@
                &&& now.copied@ == drain.copied@.remove(page)
            } else {
                &&& captured is None
                &&& now.unread@ == drain.unread@
                &&& now.copied@ == drain.copied@
            }
        },
    }
}

/// Takes a page's content into the capture: what was just read, unless a guest
/// write got there first; then what was saved before it.
pub fn take_captured(state: &mut VolumeState, page: u64, observed: Vec<u8>) -> (captured: Option<
    (u64, Vec<u8>),
>)
    ensures
        page_taken(*old(state), *final(state), page, observed, captured),
{
    let mut drain = match state.operations.drain.take() {
        Some(drain) => drain,
        None => {
            return None;
        },
    };
    let ghost was = drain;
    let captured = match drain.unread.remove(&page) {
        Some(generation) => Some((generation, observed)),
        None => {
            proof {
                assert(was.unread@.remove(page) =~= was.unread@);
            }
            match drain.copied.remove(&page) {
                Some(saved) => Some((saved.generation, saved.bytes)),
                None => {
                    proof {
                        assert(was.copied@.remove(page) =~= was.copied@);
                    }
                    None
                },
            }
        },
    };
    state.operations.drain = Some(drain);
    captured
}

/// `after` is `before` with the page's content saved, if it still has to be read.
pub open spec fn saved_before_write(
    before: VolumeState,
    after: VolumeState,
    page: u64,
    bytes: Vec<u8>,
    saved: bool,
) -> bool {
    &&& match before.operations.drain {
        Some(drain) if drain.unread@.contains_key(page) => {
            let now = after.operations.drain->0;
            &&& saved == !drain.copied@.contains_key(page)
            &&& after == (VolumeState {
                operations: VolumeOperations {
                    drain: after.operations.drain,
                    ..before.operations
                },
                ..before
            })
            &&& after.operations.drain is Some
            &&& now == (Drain { unread: now.unread, copied: now.copied, ..drain })
            &&& now.unread@ == drain.unread@.remove(page)
            &&& now.copied@ == drain.copied@.insert(
                page,
                SavedPage { generation: drain.unread@[page], bytes },
            )
        },
        _ => !saved && after == before,
    }
}

/// Saves a page's content before a guest write changes it, if the capture has
/// not read it yet.
pub fn save_before_write(state: &mut VolumeState, page: u64, bytes: Vec<u8>) -> (saved: bool)
    ensures
        saved_before_write(*old(state), *final(state), page, bytes, saved),
{
    let unread: bool = match &state.operations.drain {
        Some(drain) => drain.unread.contains_key(&page),
        None => false,
    };
    if !unread {
        return false;
    }
    match state.operations.drain.take() {
        Some(mut drain) => {
            let saved: bool = match drain.unread.remove(&page) {
                Some(generation) => drain.copied.insert(
                    page,
                    SavedPage { generation, bytes },
                ).is_none(),
                None => false,
            };
            state.operations.drain = Some(drain);
            saved
        },
        None => false,
    }
}

/// The content of a page at the moment of a capture: the reader and a writing
/// guest may come in either order, and the capture gets the content from before
/// the write with the generation reserved for the page.
pub proof fn a_capture_sees_the_page_before_the_write(
    reserved: Drain,
    after_write: Drain,
    page: u64,
    before_write: Vec<u8>,
)
    requires
        reserved.unread@.contains_key(page),
        after_write.unread@ == reserved.unread@.remove(page),
        after_write.copied@ == reserved.copied@.insert(
            page,
            SavedPage { generation: reserved.unread@[page], bytes: before_write },
        ),
    ensures
        !after_write.unread@.contains_key(page),
        after_write.copied@[page].generation == reserved.unread@[page],
        after_write.copied@[page].bytes == before_write,
{
}

// ---------------------------------------------------------------------------
// Checksums of the captured state
// ---------------------------------------------------------------------------

/// The block map after `changes`, in order.
pub open spec fn blocks_after(
    blocks: Map<u64, BlockSum>,
    changes: Seq<(u64, Option<BlockSum>)>,
) -> Map<u64, BlockSum>
    decreases changes.len(),
{
    if changes.len() == 0 {
        blocks
    } else {
        with_block(
            blocks_after(blocks, changes.drop_last()),
            changes.last().0,
            changes.last().1,
        )
    }
}

/// Applies `changes` to the checksum and the block map in order.
pub fn change_blocks(
    checksum: u64,
    blocks: &BTreeMap<u64, BlockSum>,
    changes: &Vec<(u64, Option<BlockSum>)>,
) -> (after: (u64, BTreeMap<u64, BlockSum>))
    ensures
        after.1@ == blocks_after(blocks@, changes@),
        unlisted(after.0, after.1@) == unlisted(
            checksum,
            blocks@,
        ),
{
    let mut sum: u64 = checksum;
    let mut map: BTreeMap<u64, BlockSum> = blocks.clone();
    let mut i: usize = 0;
    proof {
        assert(changes@.take(0) =~= Seq::<(u64, Option<BlockSum>)>::empty());
    }
    while i < changes.len()
        invariant
            i <= changes@.len(),
            map@ == blocks_after(blocks@, changes@.take(i as int)),
            unlisted(sum, map@) == unlisted(checksum, blocks@),
        decreases changes@.len() - i,
    {
        proof {
            assert(changes@.take(i + 1).drop_last() =~= changes@.take(i as int));
        }
        replace_state_block(&mut sum, &mut map, changes[i].0, changes[i].1);
        i = i + 1;
    }
    proof {
        assert(changes@.take(i as int) =~= changes@);
    }
    (sum, map)
}

/// The changes that take the device state of an earlier checkpoint out.
pub open spec fn drops_vmm(changes: Seq<(u64, Option<BlockSum>)>, blocks: Map<u64, BlockSum>) -> bool {
    &&& forall|i: int, j: int| 0 <= i < j < changes.len() ==> changes[i].0 < changes[j].0
    &&& forall|i: int| 0 <= i < changes.len() ==> (#[trigger] changes[i]).1 is None
    &&& forall|code: u64|
        (exists|i: int| 0 <= i < changes.len() && (#[trigger] changes[i]).0 == code)
            <==> #[trigger] blocks.contains_key(code) && is_vmm_code(code)
}

pub fn drop_vmm_blocks(blocks: &BTreeMap<u64, BlockSum>) -> (changes: Vec<(u64, Option<BlockSum>)>)
    ensures
        drops_vmm(changes@, blocks@),
{
    let keys: Vec<u64> = sorted_keys(blocks);
    let mut changes: Vec<(u64, Option<BlockSum>)> = Vec::new();
    let mut i: usize = 0;
    while i < keys.len()
        invariant
            i <= keys@.len(),
            lists_keys(keys@, blocks@),
            forall|a: int, b: int| 0 <= a < b < changes@.len() ==> changes@[a].0 < changes@[b].0,
            forall|a: int| 0 <= a < changes@.len() ==> (#[trigger] changes@[a]).1 is None,
            forall|a: int|
                0 <= a < changes@.len() ==> blocks@.contains_key((#[trigger] changes@[a]).0)
                    && is_vmm_code(changes@[a].0),
            forall|a: int|
                0 <= a < changes@.len() && i < keys@.len() ==> changes@[a].0 < keys@[i as int],
            forall|a: int|
                0 <= a < i && is_vmm_code(#[trigger] keys@[a]) ==> exists|b: int|
                    0 <= b < changes@.len() && (#[trigger] changes@[b]).0 == keys@[a],
        decreases keys@.len() - i,
    {
        let code: u64 = keys[i];
        let ghost had = changes@;
        proof {
            assert(keys@.contains(code));
        }
        if code >= 0x2_0000_0000 {
            changes.push((code, None));
        }
        proof {
            assert forall|a: int| 0 <= a < i + 1 && is_vmm_code(#[trigger] keys@[a]) implies exists|
                b: int,
            |
                0 <= b < changes@.len() && (#[trigger] changes@[b]).0 == keys@[a] by {
                if a < i {
                    let b = choose|b: int|
                        0 <= b < had.len() && (#[trigger] had[b]).0 == keys@[a];
                    assert(changes@[b].0 == keys@[a]);
                } else {
                    assert(changes@[had.len() as int].0 == code);
                }
            }
        }
        i = i + 1;
    }
    proof {
        assert forall|code: u64|
            (exists|a: int| 0 <= a < changes@.len() && (#[trigger] changes@[a]).0 == code)
                <==> #[trigger] blocks@.contains_key(code) && is_vmm_code(code) by {
            if blocks@.contains_key(code) && is_vmm_code(code) {
                assert(keys@.contains(code));
                let a = choose|a: int| 0 <= a < keys@.len() && keys@[a] == code;
            }
        }
    }
    changes
}

// ---------------------------------------------------------------------------
// Files
// ---------------------------------------------------------------------------

/// A file that was written: its name, length, pages and index.
pub struct WrittenFile {
    pub object: u64,
    pub bytes: u64,
    pub entries: Vec<(u64, PageEntry)>,
    pub reference: ObjectRef,
    pub has_tombstone: bool,
}

/// `locs` with `entries` inserted in order.
pub open spec fn with_locs(locs: Map<u64, PageEntry>, entries: Seq<(u64, PageEntry)>) -> Map<
    u64,
    PageEntry,
>
    decreases entries.len(),
{
    if entries.len() == 0 {
        locs
    } else {
        with_locs(locs, entries.drop_last()).insert(entries.last().0, entries.last().1)
    }
}

/// Whether `entries` has `page`.
pub open spec fn has_page(entries: Seq<(u64, PageEntry)>, page: u64) -> bool {
    exists|i: int| 0 <= i < entries.len() && (#[trigger] entries[i]).0 == page
}

fn has_entry(entries: &Vec<(u64, PageEntry)>, page: u64) -> (found: bool)
    ensures
        found == has_page(entries@, page),
{
    let mut i: usize = 0;
    while i < entries.len()
        invariant
            i <= entries@.len(),
            forall|a: int| 0 <= a < i ==> (#[trigger] entries@[a]).0 != page,
        decreases entries@.len() - i,
    {
        if entries[i].0 == page {
            return true;
        }
        i = i + 1;
    }
    false
}

fn insert_locs(locs: &mut BTreeMap<u64, PageEntry>, entries: &Vec<(u64, PageEntry)>)
    ensures
        final(locs)@ == with_locs(old(locs)@, entries@),
{
    let mut i: usize = 0;
    while i < entries.len()
        invariant
            i <= entries@.len(),
            locs@ == with_locs(old(locs)@, entries@.take(i as int)),
        decreases entries@.len() - i,
    {
        proof {
            assert(entries@.take(i + 1).drop_last() =~= entries@.take(i as int));
        }
        locs.insert(entries[i].0, entries[i].1);
        i = i + 1;
    }
    proof {
        assert(entries@.take(i as int) =~= entries@);
    }
}

/// The pages still protected once those in `entries` are not.
pub open spec fn disarmed(armed: Seq<u64>, entries: Seq<(u64, PageEntry)>) -> Seq<u64> {
    armed.filter(|page: u64| !has_page(entries, page))
}

fn disarm(armed: &Vec<u64>, entries: &Vec<(u64, PageEntry)>) -> (left: Vec<u64>)
    ensures
        left@ == disarmed(armed@, entries@),
{
    let mut left: Vec<u64> = Vec::new();
    let mut i: usize = 0;
    proof {
        reveal(Seq::filter);
    }
    while i < armed.len()
        invariant
            i <= armed@.len(),
            left@ == disarmed(armed@.take(i as int), entries@),
        decreases armed@.len() - i,
    {
        proof {
            reveal(Seq::filter);
            assert(armed@.take(i + 1).drop_last() =~= armed@.take(i as int));
        }
        if !has_entry(entries, armed[i]) {
            left.push(armed[i]);
        }
        i = i + 1;
    }
    proof {
        assert(armed@.take(i as int) =~= armed@);
    }
    left
}

/// The pages once those in `entries` that were flushed are in a file.
pub open spec fn flush_ended(
    pages: Map<u64, PageState>,
    entries: Seq<(u64, PageEntry)>,
    flushed: Seq<u64>,
) -> Map<u64, PageState> {
    Map::new(
        |page: u64| pages.contains_key(page),
        |page: u64|
            if has_page(entries, page) && flushed.contains(page) {
                PageState { flushing: false, ..pages[page] }
            } else {
                pages[page]
            },
    )
}

fn is_listed(list: &Vec<u64>, page: u64) -> (found: bool)
    ensures
        found == list@.contains(page),
{
    let mut i: usize = 0;
    while i < list.len()
        invariant
            i <= list@.len(),
            forall|a: int| 0 <= a < i ==> list@[a] != page,
        decreases list@.len() - i,
    {
        if list[i] == page {
            return true;
        }
        i = i + 1;
    }
    false
}

fn end_flush(pages: &mut BTreeMap<u64, PageState>, entries: &Vec<(u64, PageEntry)>, flushed: &Vec<
    u64,
>)
    ensures
        final(pages)@ == flush_ended(old(pages)@, entries@, flushed@),
{
    let ghost before = pages@;
    let mut i: usize = 0;
    proof {
        assert(pages@ =~= flush_ended(before, entries@.take(0), flushed@));
    }
    while i < entries.len()
        invariant
            i <= entries@.len(),
            pages@ == flush_ended(before, entries@.take(i as int), flushed@),
        decreases entries@.len() - i,
    {
        let page: u64 = entries[i].0;
        let ghost had = pages@;
        if is_listed(flushed, page) {
            if let Some(state) = pages.remove(&page) {
                pages.insert(page, PageState { dirty: state.dirty, flushing: false });
            }
        }
        proof {
            let done = entries@.take(i as int);
            let next = entries@.take(i + 1);
            assert forall|p: u64| has_page(next, p) <==> has_page(done, p) || p == page by {
                if has_page(done, p) {
                    let a = choose|a: int| 0 <= a < done.len() && (#[trigger] done[a]).0 == p;
                    assert(next[a].0 == p);
                }
                assert(next[i as int].0 == page);
                if has_page(next, p) {
                    let a = choose|a: int| 0 <= a < next.len() && (#[trigger] next[a]).0 == p;
                    if a < i {
                        assert(done[a].0 == p);
                    }
                }
            }
            assert(pages@ =~= flush_ended(before, next, flushed@));
        }
        i = i + 1;
    }
    proof {
        assert(entries@.take(i as int) =~= entries@);
    }
}

/// `after` is `before` with a written file taken into account.
pub open spec fn file_recorded(
    before: VolumeState,
    after: VolumeState,
    volume: u64,
    plan: CapturePlan,
    file: WrittenFile,
    post_checksum: u64,
    blocks: Map<u64, BlockSum>,
) -> bool {
    let identity = ObjectIdentity::volume(volume, plan.fence, file.object);
    &&& after == (VolumeState {
        page_locs: after.page_locs,
        pages: after.pages,
        files: after.files,
        file_refs: after.file_refs,
        tombstone_files: after.tombstone_files,
        blocks: after.blocks,
        state_checksum: post_checksum,
        operations: VolumeOperations { drain: after.operations.drain, ..before.operations },
        ..before
    })
    &&& after.page_locs@ == with_locs(before.page_locs@, file.entries@)
    &&& after.pages@ == flush_ended(before.pages@, file.entries@, plan.flushed@)
    &&& after.files@ == before.files@.push(LocalFile { identity, bytes: file.bytes })
    &&& placed(before.file_refs@, after.file_refs@, file.reference)
    &&& after.tombstone_files@ == (if file.has_tombstone && !before.tombstone_files@.contains(
        identity,
    ) {
        before.tombstone_files@.push(identity)
    } else {
        before.tombstone_files@
    })
    &&& after.blocks@ == blocks
    &&& match before.operations.drain {
        Some(drain) => after.operations.drain matches Some(d) && d == (Drain {
            armed: d.armed,
            ..drain
        }) && d.armed@ == disarmed(drain.armed@, file.entries@),
        None => after.operations.drain is None,
    }
}

/// Takes a written file into account: its pages now lie there, and guests may
/// write to them again.
pub fn record_file(
    state: &mut VolumeState,
    volume: u64,
    plan: &CapturePlan,
    file: &WrittenFile,
    post_checksum: u64,
    blocks: &BTreeMap<u64, BlockSum>,
)
    requires
        old(state).wf(),
    ensures
        file_recorded(
            *old(state),
            *final(state),
            volume,
            *plan,
            *file,
            post_checksum,
            blocks@,
        ),
        final(state).wf(),
{
    let identity = ObjectIdentity::volume(volume, plan.fence, file.object);
    insert_locs(&mut state.page_locs, &file.entries);
    match state.operations.drain.take() {
        Some(mut drain) => {
            drain.armed = disarm(&drain.armed, &file.entries);
            state.operations.drain = Some(drain);
        },
        None => {},
    }
    state.files.push(LocalFile { identity, bytes: file.bytes });
    place_object(&mut state.file_refs, file.reference);
    if file.has_tombstone && !contains_name(&state.tombstone_files, identity) {
        state.tombstone_files.push(identity);
    }
    state.state_checksum = post_checksum;
    state.blocks = blocks.clone();
    end_flush(&mut state.pages, &file.entries, &plan.flushed);
}

// ---------------------------------------------------------------------------
// The record
// ---------------------------------------------------------------------------

/// What a checkpoint adds to a capture.
#[derive(Clone, Copy, PartialEq, Eq, Debug, Structural)]
pub struct Checkpoint {
    /// The request it answers, if any.
    pub req: Option<u64>,
    pub epoch: u64,
    pub vmstate: u64,
    pub vmstate_length: u64,
}

/// Some page of the volume lies in a base it was forked from.
pub open spec fn has_inherited_page(state: VolumeState) -> bool {
    exists|page: u64| #[trigger]
        state.page_locs@.contains_key(page) && state.page_locs@[page].loc.base != 0
}

fn any_inherited(locs: &BTreeMap<u64, PageEntry>) -> (found: bool)
    ensures
        found == (exists|page: u64| #[trigger]
            locs@.contains_key(page) && locs@[page].loc.base != 0),
{
    let keys: Vec<u64> = sorted_keys(locs);
    let mut i: usize = 0;
    while i < keys.len()
        invariant
            i <= keys@.len(),
            lists_keys(keys@, locs@),
            forall|a: int| 0 <= a < i ==> locs@[#[trigger] keys@[a]].loc.base == 0,
        decreases keys@.len() - i,
    {
        proof {
            assert(keys@.contains(keys@[i as int]));
        }
        if let Some(entry) = locs.get(&keys[i]) {
            if entry.loc.base != 0 {
                return true;
            }
        }
        i = i + 1;
    }
    proof {
        assert forall|page: u64| #[trigger] locs@.contains_key(page) implies
            locs@[page].loc.base == 0 by {
            assert(keys@.contains(page));
            let a = choose|a: int| 0 <= a < keys@.len() && keys@[a] == page;
        }
    }
    false
}

/// The record carries page locations only where files alone do not tell them:
/// for a volume that moves, that moved here, or that inherits pages.
pub open spec fn carries_index(state: VolumeState, kind: CaptureKind) -> bool {
    kind == CaptureKind::Migration || state.peer_source is Some || has_inherited_page(state)
}

/// What a record of this capture is. A capture of a state that nothing was
/// written to since its last checkpoint is that checkpoint still.
pub open spec fn captured_kind(
    state: VolumeState,
    capture_seq: u64,
    checkpoint: Option<Checkpoint>,
) -> VolumeRecordKind {
    match checkpoint {
        Some(c) => VolumeRecordKind::Checkpoint {
            epoch: c.epoch,
            vmstate: c.vmstate,
            vmstate_length: c.vmstate_length,
        },
        None => match state.best_record {
            Some(record) => if record.capture_seq == capture_seq {
                record.kind
            } else {
                VolumeRecordKind::Commit
            },
            None => VolumeRecordKind::Commit,
        },
    }
}

fn kind_of_capture(state: &VolumeState, capture_seq: u64, checkpoint: Option<Checkpoint>) -> (kind:
    VolumeRecordKind)
    ensures
        kind == captured_kind(*state, capture_seq, checkpoint),
{
    match checkpoint {
        Some(c) => VolumeRecordKind::Checkpoint {
            epoch: c.epoch,
            vmstate: c.vmstate,
            vmstate_length: c.vmstate_length,
        },
        None => match &state.best_record {
            Some(record) => if record.capture_seq == capture_seq {
                record.kind
            } else {
                VolumeRecordKind::Commit
            },
            None => VolumeRecordKind::Commit,
        },
    }
}

/// Capturing a checkpointed state again, for instance to give up sparse files,
/// does not lose the checkpoint.
pub proof fn recapturing_keeps_a_checkpoint(
    record: VolumeRecord,
    state: VolumeState,
    volume: u64,
    plan: CapturePlan,
    kind: CaptureKind,
    post_checksum: u64,
    best: VolumeRecord,
)
    requires
        state.best_record == Some(best),
        best.capture_seq == plan.capture_seq,
        describes(record, state, volume, plan, kind, None, post_checksum),
    ensures
        record.kind == best.kind,
{
}

/// `record` describes `state` as captured.
pub open spec fn describes(
    record: VolumeRecord,
    state: VolumeState,
    volume: u64,
    plan: CapturePlan,
    kind: CaptureKind,
    checkpoint: Option<Checkpoint>,
    post_checksum: u64,
) -> bool {
    &&& record.config == state.config
    &&& record.seq == plan.seq
    &&& record.fence == plan.fence
    &&& record.kind == captured_kind(state, plan.capture_seq, checkpoint)
    &&& record.capture_seq == plan.capture_seq
    &&& record.sync_covered_through == covered_through(
        state.pending_syncs@,
        plan.capture_seq,
        state.local_covered_through,
    )
    &&& record.post_state_checksum == post_checksum
    &&& record.files@ == needed_files(state, volume)
    &&& record.page_index@ == (if carries_index(state, kind) {
        state.page_locs@
    } else {
        Map::empty()
    })
    &&& record.migrated_from == (match state.peer_source {
        Some(host) => Some(MigrationSource { host, offer_fence: state.peer_source_offer_fence }),
        None => None,
    })
}

pub fn capture_record(
    state: &VolumeState,
    volume: u64,
    plan: &CapturePlan,
    kind: CaptureKind,
    checkpoint: Option<Checkpoint>,
    post_checksum: u64,
) -> (record: VolumeRecord)
    ensures
        describes(record, *state, volume, *plan, kind, checkpoint, post_checksum),
{
    let moves: bool = match kind {
        CaptureKind::Migration => true,
        _ => false,
    };
    let page_index: BTreeMap<u64, PageEntry> = if moves || state.peer_source.is_some()
        || any_inherited(&state.page_locs) {
        state.page_locs.clone()
    } else {
        BTreeMap::new()
    };
    VolumeRecord {
        config: state.config,
        seq: plan.seq,
        fence: plan.fence,
        kind: kind_of_capture(state, plan.capture_seq, checkpoint),
        capture_seq: plan.capture_seq,
        sync_covered_through: cover_syncs(
            &state.pending_syncs,
            plan.capture_seq,
            state.local_covered_through,
        ),
        post_state_checksum: post_checksum,
        files: recovery_files(state, volume),
        page_index,
        migrated_from: match state.peer_source {
            Some(host) => Some(
                MigrationSource { host, offer_fence: state.peer_source_offer_fence },
            ),
            None => None,
        },
    }
}

// ---------------------------------------------------------------------------
// Finishing
// ---------------------------------------------------------------------------

/// Who has to be told once a capture is durable.
pub struct Finished {
    /// Synchronisations to acknowledge.
    pub syncs: Vec<PendingSync>,
    /// Requests that waited for the capture to end.
    pub waiters: Vec<u64>,
}

/// `after` is `before` with the capture's record in effect.
pub open spec fn capture_finished(
    before: VolumeState,
    after: VolumeState,
    plan: CapturePlan,
    kind: CaptureKind,
    checkpoint: Option<Checkpoint>,
    record: VolumeRecord,
    files: Seq<ObjectIdentity>,
    complete: bool,
) -> bool {
    &&& after == (VolumeState {
        best_record: after.best_record,
        archived_memory_usable: before.archived_memory_usable || complete,
        pending_tombstones: after.pending_tombstones,
        next_object_id: (if files.len() > 0 && files.last().object_id >= before.next_object_id {
            sat_add(files.last().object_id, 1)
        } else {
            before.next_object_id
        }),
        local_covered_through: record.sync_covered_through,
        pending_syncs: after.pending_syncs,
        record_writes: after.record_writes,
        record_files: after.record_files,
        operations: VolumeOperations {
            mutation: (if before.operations.mutation == Some(kind) {
                None
            } else {
                before.operations.mutation
            }),
            drain: None,
            ..before.operations
        },
        mutation_waiters: after.mutation_waiters,
        epoch: (match checkpoint {
            Some(c) => c.epoch,
            None => before.epoch,
        }),
        pinned: after.pinned,
        checkpoint_results: after.checkpoint_results,
        ..before
    })
    &&& after.best_record matches Some(r) && r.same(record)
    &&& forall|code: u64| #[trigger]
        after.pending_tombstones@.contains(code) <==> before.pending_tombstones@.contains(code)
            && !plan.tombstones@.map_values(|t: (u64, u64)| t.0).contains(code)
    &&& after.pending_syncs@ == unacknowledged(before.pending_syncs@, before.sync_ack_through)
    &&& after.record_writes@ == before.record_writes@.insert(
        record.seq,
        (plan.fence, record.sync_covered_through),
    )
    &&& after.record_files@.dom() == before.record_files@.dom().insert(record.seq)
    &&& after.record_files@[record.seq]@ == files
    &&& forall|seq: u64|
        seq != record.seq && before.record_files@.contains_key(seq) ==> #[trigger]
        after.record_files@[seq] == before.record_files@[seq]
    &&& after.mutation_waiters@ == Seq::<u64>::empty()
    &&& match checkpoint {
        Some(c) => {
            &&& after.pinned matches Some(r) && r.same(record)
            &&& after.checkpoint_results@ == (match c.req {
                Some(req) => before.checkpoint_results@.insert(req, c.epoch),
                None => before.checkpoint_results@,
            })
        },
        None => {
            &&& after.pinned == before.pinned
            &&& after.checkpoint_results@ == before.checkpoint_results@
        },
    }
}

fn copy_names(names: &Vec<ObjectIdentity>) -> (copy: Vec<ObjectIdentity>)
    ensures
        copy@ == names@,
{
    let mut copy: Vec<ObjectIdentity> = Vec::new();
    let mut i: usize = 0;
    while i < names.len()
        invariant
            i <= names@.len(),
            copy@ == names@.take(i as int),
        decreases names@.len() - i,
    {
        copy.push(names[i]);
        i = i + 1;
    }
    copy
}

fn tombstone_codes(tombstones: &Vec<(u64, u64)>) -> (codes: Vec<u64>)
    ensures
        codes@ == tombstones@.map_values(|t: (u64, u64)| t.0),
{
    let mut codes: Vec<u64> = Vec::new();
    let mut i: usize = 0;
    let ghost all = tombstones@.map_values(|t: (u64, u64)| t.0);
    while i < tombstones.len()
        invariant
            i <= tombstones@.len(),
            all == tombstones@.map_values(|t: (u64, u64)| t.0),
            codes@ == all.take(i as int),
        decreases tombstones@.len() - i,
    {
        codes.push(tombstones[i].0);
        i = i + 1;
    }
    codes
}

/// Makes the record the newest one.
fn install_record(
    state: &mut VolumeState,
    plan: &CapturePlan,
    record: &VolumeRecord,
    files: &Vec<ObjectIdentity>,
    complete: bool,
)
    ensures
        *final(state) == (VolumeState {
            best_record: final(state).best_record,
            archived_memory_usable: old(state).archived_memory_usable || complete,
            next_object_id: (if files@.len() > 0 && files@.last().object_id >= old(
                state,
            ).next_object_id {
                sat_add(files@.last().object_id, 1)
            } else {
                old(state).next_object_id
            }),
            local_covered_through: record.sync_covered_through,
            record_writes: final(state).record_writes,
            record_files: final(state).record_files,
            ..*old(state)
        }),
        final(state).best_record matches Some(r) && r.same(*record),
        final(state).record_writes@ == old(state).record_writes@.insert(
            record.seq,
            (plan.fence, record.sync_covered_through),
        ),
        final(state).record_files@ == old(state).record_files@.insert(
            record.seq,
            final(state).record_files@[record.seq],
        ),
        final(state).record_files@[record.seq]@ == files@,
{
    state.best_record = Some(record.duplicate());
    if complete {
        state.archived_memory_usable = true;
    }
    let count: usize = files.len();
    if count > 0 {
        let last: u64 = files[count - 1].object_id;
        if last >= state.next_object_id {
            state.next_object_id = last.saturating_add(1);
        }
    }
    state.local_covered_through = record.sync_covered_through;
    state.record_writes.insert(record.seq, (plan.fence, record.sync_covered_through));
    state.record_files.insert(record.seq, copy_names(files));
}

/// Ends the capture's hold on the volume.
fn release_capture(state: &mut VolumeState, plan: &CapturePlan, kind: CaptureKind) -> (finished:
    Finished)
    ensures
        *final(state) == (VolumeState {
            pending_tombstones: final(state).pending_tombstones,
            pending_syncs: final(state).pending_syncs,
            operations: VolumeOperations {
                mutation: (if old(state).operations.mutation == Some(kind) {
                    None
                } else {
                    old(state).operations.mutation
                }),
                drain: None,
                ..old(state).operations
            },
            mutation_waiters: final(state).mutation_waiters,
            ..*old(state)
        }),
        forall|code: u64| #[trigger]
            final(state).pending_tombstones@.contains(code) <==> old(
                state,
            ).pending_tombstones@.contains(code) && !plan.tombstones@.map_values(
                |t: (u64, u64)| t.0,
            ).contains(code),
        final(state).pending_syncs@ == unacknowledged(
            old(state).pending_syncs@,
            old(state).sync_ack_through,
        ),
        final(state).mutation_waiters@ == Seq::<u64>::empty(),
        finished.syncs@ == acknowledged(old(state).pending_syncs@, old(state).sync_ack_through),
        finished.waiters@ == old(state).mutation_waiters@,
{
    let codes: Vec<u64> = tombstone_codes(&plan.tombstones);
    remove_each(&mut state.pending_tombstones, &codes);
    let ack: u64 = state.sync_ack_through;
    let syncs: Vec<PendingSync> = take_acknowledged(&mut state.pending_syncs, ack);
    if let Some(owner) = state.operations.mutation {
        if owner == kind {
            state.operations.mutation = None;
        }
    }
    state.operations.drain = None;
    let mut waiters: Vec<u64> = Vec::new();
    waiters.append(&mut state.mutation_waiters);
    Finished { syncs, waiters }
}

/// Notes which files hold the device state of a checkpoint. Its record needs
/// them, so this comes first.
pub fn keep_device_state(state: &mut VolumeState, files: &Vec<ObjectIdentity>)
    ensures
        *final(state) == (VolumeState { vmm_files: final(state).vmm_files, ..*old(state) }),
        final(state).vmm_files@ == files@,
{
    state.vmm_files = copy_names(files);
}

/// Pins the record as a checkpoint.
fn pin_checkpoint(state: &mut VolumeState, checkpoint: Checkpoint, record: &VolumeRecord)
    ensures
        *final(state) == (VolumeState {
            epoch: checkpoint.epoch,
            pinned: final(state).pinned,
            checkpoint_results: final(state).checkpoint_results,
            ..*old(state)
        }),
        final(state).pinned matches Some(r) && r.same(*record),
        final(state).checkpoint_results@ == (match checkpoint.req {
            Some(req) => old(state).checkpoint_results@.insert(req, checkpoint.epoch),
            None => old(state).checkpoint_results@,
        }),
{
    state.epoch = checkpoint.epoch;
    state.pinned = Some(record.duplicate());
    if let Some(req) = checkpoint.req {
        state.checkpoint_results.insert(req, checkpoint.epoch);
    }
}

/// Puts a capture into effect once its record is on disk.
pub fn finish_capture(
    state: &mut VolumeState,
    plan: &CapturePlan,
    kind: CaptureKind,
    checkpoint: Option<Checkpoint>,
    record: &VolumeRecord,
    files: &Vec<ObjectIdentity>,
    complete: bool,
) -> (finished: Finished)
    ensures
        capture_finished(
            *old(state),
            *final(state),
            *plan,
            kind,
            checkpoint,
            *record,
            files@,
            complete,
        ),
        finished.syncs@ == acknowledged(old(state).pending_syncs@, old(state).sync_ack_through),
        finished.waiters@ == old(state).mutation_waiters@,
{
    install_record(state, plan, record, files, complete);
    let finished = release_capture(state, plan, kind);
    if let Some(c) = checkpoint {
        pin_checkpoint(state, c, record);
    }
    finished
}

/// No guest is told that its writes are safe before a record is: a capture only
/// releases synchronisations that were acknowledged already.
pub proof fn captures_acknowledge_nothing_new(syncs: Seq<PendingSync>, ack: u64, i: int)
    requires
        0 <= i < acknowledged(syncs, ack).len(),
    ensures
        acknowledged(syncs, ack)[i].barrier <= ack,
    decreases syncs.len(),
{
    reveal(Seq::filter);
    if syncs.len() > 0 {
        let front = acknowledged(syncs.drop_last(), ack);
        if i < front.len() {
            captures_acknowledge_nothing_new(syncs.drop_last(), ack, i);
        }
    }
}

/// How much a finished capture moved.
#[derive(Clone, Copy, PartialEq, Eq, Debug, Structural)]
pub struct CaptureTally {
    pub pages: usize,
    pub victims: usize,
    pub rescued_pages: usize,
    pub syncs: usize,
    pub checkpoint: bool,
}

/// Counts a finished capture.
pub fn count_capture(counters: &mut Counters, tally: CaptureTally)
    requires
        old(counters).room(tally.pages as int),
        old(counters).room(tally.victims as int),
        old(counters).room(tally.rescued_pages as int),
        old(counters).room(tally.syncs as int),
        old(counters).room(1),
    ensures
        *final(counters) == (Counters {
            records_written: (old(counters).records_written + 1) as u64,
            pages_flushed: (old(counters).pages_flushed + tally.pages) as u64,
            files_compacted: (old(counters).files_compacted + tally.victims) as u64,
            pages_compacted: (old(counters).pages_compacted + tally.rescued_pages) as u64,
            syncs_acked: (old(counters).syncs_acked + tally.syncs) as u64,
            checkpoints_done: (old(counters).checkpoints_done + if tally.checkpoint {
                1int
            } else {
                0
            }) as u64,
            ..*old(counters)
        }),
{
    counters.records_written = counters.records_written + 1;
    counters.pages_flushed = counters.pages_flushed + tally.pages as u64;
    counters.files_compacted = counters.files_compacted + tally.victims as u64;
    counters.pages_compacted = counters.pages_compacted + tally.rescued_pages as u64;
    counters.syncs_acked = counters.syncs_acked + tally.syncs as u64;
    if tally.checkpoint {
        counters.checkpoints_done = counters.checkpoints_done + 1;
    }
}

// ---------------------------------------------------------------------------
// Checkpoints
// ---------------------------------------------------------------------------

/// What to do about a request for a checkpoint.
#[derive(Clone, Copy, PartialEq, Eq, Debug, Structural)]
pub enum CheckpointDecision {
    Missing,
    Invalid,
    /// The request was answered before, with this epoch.
    Existing(u64),
    /// Wait until what is under way has ended, then ask again.
    Busy,
    Reserved { incarnation: u64, epoch: u64 },
}

pub open spec fn checkpoint_decision(state: Option<VolumeState>, req: u64) -> CheckpointDecision {
    match state {
        None => CheckpointDecision::Missing,
        Some(v) => if !v.ready {
            CheckpointDecision::Invalid
        } else if v.checkpoint_results@.contains_key(req) {
            CheckpointDecision::Existing(v.checkpoint_results@[req])
        } else if v.operations.migration {
            CheckpointDecision::Invalid
        } else if v.operations.mutation_blocked() {
            CheckpointDecision::Busy
        } else {
            CheckpointDecision::Reserved {
                incarnation: v.incarnation,
                epoch: (v.epoch + 1) as u64,
            }
        },
    }
}

/// Decides a request for a checkpoint and reserves it if it may start. A
/// repeated request gets its first answer.
pub fn reserve_checkpoint(host: &mut HostState, req: u64, volume: u64, waiter: u64) -> (decision:
    CheckpointDecision)
    requires
        old(host).volumes@.contains_key(volume) && checkpoint_decision(
            Some(old(host).volumes@[volume]),
            req,
        ) is Reserved ==> old(host).volumes@[volume].epoch < u64::MAX,
    ensures
        decision == checkpoint_decision(
            if old(host).volumes@.contains_key(volume) {
                Some(old(host).volumes@[volume])
            } else {
                None
            },
            req,
        ),
        match decision {
            CheckpointDecision::Busy => {
                let before = old(host).volumes@[volume];
                let after = final(host).volumes@[volume];
                &&& *final(host) == (HostState { volumes: final(host).volumes, ..*old(host) })
                &&& final(host).volumes@ == old(host).volumes@.insert(volume, after)
                &&& after == (VolumeState { mutation_waiters: after.mutation_waiters, ..before })
                &&& after.mutation_waiters@ == before.mutation_waiters@.push(waiter)
            },
            CheckpointDecision::Reserved { .. } => {
                let before = old(host).volumes@[volume];
                &&& *final(host) == (HostState { volumes: final(host).volumes, ..*old(host) })
                &&& final(host).volumes@ == old(host).volumes@.insert(
                    volume,
                    VolumeState {
                        operations: VolumeOperations {
                            mutation: Some(CaptureKind::Checkpoint),
                            ..before.operations
                        },
                        ..before
                    },
                )
            },
            _ => *final(host) == *old(host),
        },
        follows(*old(host), *final(host)),
{
    let ghost was = host.volumes@;
    let decision = match host.volumes.get(&volume) {
        None => CheckpointDecision::Missing,
        Some(v) => if !v.ready {
            CheckpointDecision::Invalid
        } else {
            match v.checkpoint_results.get(&req) {
                Some(epoch) => CheckpointDecision::Existing(*epoch),
                None => if v.operations.migration {
                    CheckpointDecision::Invalid
                } else if v.operations.mutation_blocked() {
                    CheckpointDecision::Busy
                } else {
                    CheckpointDecision::Reserved { incarnation: v.incarnation, epoch: v.epoch + 1 }
                },
            }
        },
    };
    match decision {
        CheckpointDecision::Busy => {
            if let Some(mut v) = host.volumes.remove(&volume) {
                v.mutation_waiters.push(waiter);
                host.volumes.insert(volume, v);
                proof {
                    assert(was.remove(volume).insert(volume, v) =~= was.insert(volume, v));
                }
            }
        },
        CheckpointDecision::Reserved { .. } => {
            if let Some(mut v) = host.volumes.remove(&volume) {
                v.operations.mutation = Some(CaptureKind::Checkpoint);
                host.volumes.insert(volume, v);
                proof {
                    assert(was.remove(volume).insert(volume, v) =~= was.insert(volume, v));
                }
            }
        },
        _ => {},
    }
    decision
}

/// Pins the capture of a data volume as the answer to `req`.
pub fn finish_data_checkpoint(
    state: &mut VolumeState,
    counters: &mut Counters,
    req: u64,
    epoch: u64,
    captured: VolumeRecord,
)
    ensures
        *final(state) == (VolumeState {
            epoch,
            pinned: Some(captured),
            checkpoint_results: final(state).checkpoint_results,
            ..*old(state)
        }),
        final(state).checkpoint_results@ == old(state).checkpoint_results@.insert(req, epoch),
        *final(counters) == (Counters {
            checkpoints_done: sat_add(old(counters).checkpoints_done, 1),
            ..*old(counters)
        }),
{
    state.epoch = epoch;
    state.pinned = Some(captured);
    state.checkpoint_results.insert(req, epoch);
    counters.checkpoints_done = counters.checkpoints_done.saturating_add(1);
}

/// A repeated request never makes a second checkpoint: once a request has an
/// epoch, every later request of the same number is told that epoch.
pub proof fn checkpoint_requests_are_idempotent(state: VolumeState, req: u64, epoch: u64)
    requires
        state.ready,
        state.checkpoint_results@.contains_key(req),
        state.checkpoint_results@[req] == epoch,
    ensures
        checkpoint_decision(Some(state), req) == CheckpointDecision::Existing(epoch),
{
}

/// What to do about a request to capture a volume that moves.
#[derive(Clone, Copy, PartialEq, Eq, Debug, Structural)]
pub enum MigrationDecision {
    Invalid,
    Busy,
    Reserved { incarnation: u64, epoch: u64 },
}

/// A capture that moves the volume may start.
pub open spec fn may_move(state: VolumeState) -> bool {
    state.ready && state.config.is_memory() && !state.operations.mutation_blocked()
}

/// Reserves the capture of a memory volume that moves to another host.
pub fn reserve_migration(state: &mut VolumeState, waiter: u64) -> (decision: MigrationDecision)
    requires
        may_move(*old(state)) ==> old(state).epoch < u64::MAX,
    ensures
        if !old(state).ready || !old(state).config.is_memory() {
            decision == MigrationDecision::Invalid && *final(state) == *old(state)
        } else if old(state).operations.mutation_blocked() {
            &&& decision == MigrationDecision::Busy
            &&& *final(state) == (VolumeState {
                mutation_waiters: final(state).mutation_waiters,
                ..*old(state)
            })
            &&& final(state).mutation_waiters@ == old(state).mutation_waiters@.push(waiter)
        } else {
            &&& may_move(*old(state))
            &&& decision == (MigrationDecision::Reserved {
                incarnation: old(state).incarnation,
                epoch: (old(state).epoch + 1) as u64,
            })
            &&& *final(state) == (VolumeState {
                operations: VolumeOperations {
                    mutation: Some(CaptureKind::Migration),
                    ..old(state).operations
                },
                ..*old(state)
            })
        },
{
    if !state.ready || !state.config.is_memory() {
        return MigrationDecision::Invalid;
    }
    if state.operations.mutation_blocked() {
        state.mutation_waiters.push(waiter);
        return MigrationDecision::Busy;
    }
    state.operations.mutation = Some(CaptureKind::Migration);
    MigrationDecision::Reserved { incarnation: state.incarnation, epoch: state.epoch + 1 }
}

// ---------------------------------------------------------------------------
// A paused guest
// ---------------------------------------------------------------------------

/// Notes that a paused guest has to be resumed, unless one is already.
pub fn start_guest_resume(state: &mut VolumeState) -> (started: bool)
    ensures
        started == !old(state).operations.guest_resume,
        *final(state) == (VolumeState {
            operations: VolumeOperations { guest_resume: true, ..old(state).operations },
            ..*old(state)
        }),
{
    if state.operations.guest_resume {
        return false;
    }
    state.operations.guest_resume = true;
    true
}

/// Notes that the guest runs again, and returns who waited for that.
pub fn finish_guest_resume(host: &mut HostState, volume: u64, incarnation: u64) -> (waiters: Option<
    Vec<u64>,
>)
    ensures
        match waiters {
            None => old(host).volume_at_spec(volume, incarnation) is None && *final(host) == *old(
                host,
            ),
            Some(w) => {
                let before = old(host).volumes@[volume];
                let after = final(host).volumes@[volume];
                &&& old(host).volume_at_spec(volume, incarnation) is Some
                &&& w@ == before.mutation_waiters@
                &&& *final(host) == (HostState {
                    volumes: final(host).volumes,
                    scheduled: final(host).scheduled,
                    ..*old(host)
                })
                &&& final(host).scheduled@ == with_scheduled(
                    old(host).scheduled@,
                    volume,
                )
                &&& final(host).volumes@ == old(host).volumes@.insert(volume, after)
                &&& after == (VolumeState {
                    operations: VolumeOperations { guest_resume: false, ..before.operations },
                    mutation_waiters: after.mutation_waiters,
                    ..before
                })
                &&& after.mutation_waiters@ == Seq::<u64>::empty()
            },
        },
        follows(*old(host), *final(host)),
{
    if host.volume_at(volume, incarnation).is_none() {
        return None;
    }
    let ghost was = host.volumes@;
    let mut waiters: Vec<u64> = Vec::new();
    if let Some(mut state) = host.volumes.remove(&volume) {
        state.operations.guest_resume = false;
        waiters.append(&mut state.mutation_waiters);
        host.volumes.insert(volume, state);
    }
    host.schedule_volume(volume);
    Some(waiters)
}

/// Takes back what a capture had under way: the pages that may still be
/// protected. The right to change the volume stays taken, and so do the numbers.
pub fn abandon_capture(state: &mut VolumeState) -> (armed: Vec<u64>)
    ensures
        *final(state) == (VolumeState {
            operations: VolumeOperations { drain: None, ..old(state).operations },
            ..*old(state)
        }),
        armed@ == armed_pages(*old(state)),
{
    match state.operations.drain.take() {
        Some(drain) => drain.armed,
        None => Vec::new(),
    }
}

/// Pages that the capture under way has protected.
pub open spec fn armed_pages(state: VolumeState) -> Seq<u64> {
    match state.operations.drain {
        Some(drain) => drain.armed@,
        None => Seq::empty(),
    }
}

} // verus!
