//! What compaction is for: the files that waste most are given up first, and only
//! pages that are read back whole are carried over.

use super::super::compaction::{
    can_rescue, candidate, candidates, compactable, current_entries, first_in_order, in_order,
    live_bytes, live_in, Candidate, ScannedEntry, ScannedFile,
};
use super::super::volume::{LocalFile, PageEntry, VolumeState};
use super::seqs::lemma_filter_members;
use crate::objects::{NamespaceKind, ObjectIdentity};
use vstd::prelude::*;

verus! {

/// A page counts towards a file with its length if it lies there.
pub proof fn a_page_is_live_where_it_lies(entry: PageEntry, volume: u64, identity: ObjectIdentity)
    ensures
        ({
            let lies = entry.loc.base == 0 && identity.namespace_kind == NamespaceKind::Volume
                && identity.namespace_id == volume && identity.writer_fence == entry.loc.fence
                && identity.object_id == entry.loc.object;
            &&& lies ==> live_in(entry, volume, identity) == entry.loc.len
            &&& !lies ==> live_in(entry, volume, identity) == 0
        }),
{
}

/// A file is worth giving up if at most half of it is live, and something is. The
/// less of it is live, the earlier it goes.
pub proof fn wasteful_files_are_given_up(file: LocalFile, live: u64)
    requires
        file.bytes < u64::MAX,
        live <= u64::MAX / 1_000_000,
    ensures
        candidate(file, live) is Some <==> live > 0 && 2 * live <= file.bytes,
        candidate(file, live) matches Some(c) ==> c.identity == file.identity && c.ratio == live
            * 1_000_000 / file.bytes as int,
{
}

/// Every file that is worth it is a candidate.
pub proof fn every_wasteful_file_is_a_candidate(
    files: Seq<LocalFile>,
    locs: Map<u64, PageEntry>,
    volume: u64,
    i: int,
)
    requires
        0 <= i < files.len(),
        files[i].bytes < u64::MAX,
        0 < live_bytes(locs, volume, files[i].identity),
        2 * live_bytes(locs, volume, files[i].identity) <= files[i].bytes,
    ensures
        exists|k: int|
            0 <= k < candidates(files, locs, volume).len() && (#[trigger] candidates(
                files,
                locs,
                volume,
            )[k]).identity == files[i].identity,
    decreases files.len(),
{
    let front = files.drop_last();
    let rest = candidates(front, locs, volume);
    let all = candidates(files, locs, volume);
    if i < front.len() {
        assert(front[i] == files[i]);
        every_wasteful_file_is_a_candidate(front, locs, volume, i);
        let k = choose|k: int|
            0 <= k < rest.len() && (#[trigger] rest[k]).identity == files[i].identity;
        assert(all[k] == rest[k]);
    } else {
        assert(files.last() == files[i]);
        assert(all[rest.len() as int].identity == files[i].identity);
    }
}

/// The files chosen are the first few by how little of them is live: none is left
/// out that wastes more than one that is chosen.
pub proof fn the_most_wasteful_files_go_first(
    chosen: Seq<Candidate>,
    all: Seq<Candidate>,
    i: int,
    j: int,
    other: Candidate,
)
    requires
        first_in_order(chosen, all),
    ensures
        chosen.len() <= all.len(),
        chosen.len() == all.len() || chosen.len() == 8,
        0 <= i < j < chosen.len() ==> chosen[i].ratio <= chosen[j].ratio,
        0 <= i < chosen.len() ==> all.contains(chosen[i]),
        0 <= i < chosen.len() && all.contains(other) && !chosen.contains(other) ==> chosen[i].ratio
            <= other.ratio,
{
    let ordered = choose|ordered: Seq<Candidate>|
        {
            &&& #[trigger] in_order(ordered)
            &&& ordered.to_multiset() == all.to_multiset()
            &&& chosen == ordered.take(
                if ordered.len() <= super::super::compaction::COMPACT_BATCH {
                    ordered.len() as int
                } else {
                    super::super::compaction::COMPACT_BATCH as int
                },
            )
        };
    ordered.to_multiset_ensures();
    all.to_multiset_ensures();
    if 0 <= i < chosen.len() {
        assert(ordered[i] == chosen[i]);
        assert(ordered.contains(chosen[i]));
        assert(ordered.to_multiset().count(chosen[i]) > 0);
        assert(all.to_multiset().count(chosen[i]) > 0);
        if all.contains(other) && !chosen.contains(other) {
            assert(all.to_multiset().count(other) > 0);
            assert(ordered.contains(other));
            let k = choose|k: int| 0 <= k < ordered.len() && ordered[k] == other;
            if k < chosen.len() {
                assert(chosen[k] == other);
            }
            assert(!ordered[k].before(ordered[i]));
        }
        if i < j < chosen.len() {
            assert(!ordered[j].before(ordered[i]));
        }
    }
}

/// A volume is compacted while it is open, stays here, and has enough pages.
pub proof fn only_settled_volumes_are_compacted(state: VolumeState)
    ensures
        compactable(state) <==> state.ready && !state.outbound && !state.operations.migration
            && state.page_locs@.dom().len() >= 256,
{
}

/// What is carried over from a file: the entries that are still the newest of their
/// page. A file is carried over only if it is the one that was asked for, as many
/// entries are as the file has live pages, and each was read back as the page and
/// generation it should be.
pub proof fn only_sound_pages_are_carried_over(
    state: VolumeState,
    volume: u64,
    identity: ObjectIdentity,
    file: ScannedFile,
    entry: ScannedEntry,
)
    ensures
        current_entries(state, volume, identity, file.entries@).contains(entry) <==> {
            let page = entry.page;
            &&& file.entries@.contains(entry)
            &&& state.page_locs@.contains_key(page)
            &&& state.page_locs@[page] == entry.entry
            &&& entry.entry.loc.base == 0
            &&& identity.namespace_kind == NamespaceKind::Volume
            &&& identity.namespace_id == volume
            &&& identity.writer_fence == entry.entry.loc.fence
            &&& identity.object_id == entry.entry.loc.object
        },
        can_rescue(state, volume, identity, file) ==> {
            &&& file.volume == volume
            &&& identity.namespace_id == volume
            &&& identity.writer_fence == file.fence
            &&& identity.object_id == file.object
            &&& current_entries(state, volume, identity, file.entries@).contains(entry)
                ==> entry.frame is Some && entry.frame->0.page == entry.page
                && entry.frame->0.generation == entry.entry.generation
        },
{
    lemma_filter_members(
        file.entries@,
        |e: ScannedEntry| super::super::compaction::is_current_entry(state, volume, identity, e),
    );
    let current = current_entries(state, volume, identity, file.entries@);
    if current.contains(entry) {
        let k = choose|k: int| 0 <= k < current.len() && current[k] == entry;
        if can_rescue(state, volume, identity, file) {
            assert(super::super::compaction::is_sound(current[k]));
        }
    }
}

} // verus!
