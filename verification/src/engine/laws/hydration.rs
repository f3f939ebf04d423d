//! What loading the page map is for: a leaf adds what is not known yet and changes
//! nothing that is.

use super::super::hydration::{
    above_leaf, hydrate_action, keeps, leaf_failed, leaf_installed, load_begun, load_ended,
    waiter_added, with_leaf, with_segments, HydrateAction, LeafEntry, LeafStep, LoadedLeaf,
};
use super::super::state::{HostState, VsetState};
use crate::journal::{LeafPointer, PageLoc, VsetConfig, LEAF_SPAN};
use crate::types::{PageId, VsetId};
use vstd::prelude::*;

verus! {

/// The key of a page in the page map.
pub open spec fn key_of(idx: u8, page: u32) -> u64 {
    (idx * 0x1_0000_0000 + page) as u64
}

/// A leaf entry within the vset is the page's location unless the page had one
/// already or an earlier entry gave it one. Nothing else is added.
pub proof fn a_leaf_adds_what_is_not_known(
    locs: Map<u64, PageLoc>,
    config: VsetConfig,
    vset: VsetId,
    entries: Seq<LeafEntry>,
    key: u64,
    i: int,
)
    ensures
        locs.contains_key(key) ==> with_leaf(locs, config, vset, entries).contains_key(key)
            && with_leaf(locs, config, vset, entries)[key] == locs[key],
        !locs.contains_key(key) && 0 <= i < entries.len() && entries[i].idx.0 < config.volumes
            && entries[i].page.0 < config.pages_per_volume && key_of(
            entries[i].idx.0,
            entries[i].page.0,
        ) == key && (forall|j: int|
            0 <= j < i && (#[trigger] entries[j]).idx.0 < config.volumes && entries[j].page.0
                < config.pages_per_volume ==> key_of(entries[j].idx.0, entries[j].page.0) != key)
            ==> with_leaf(locs, config, vset, entries).contains_key(key) && with_leaf(
            locs,
            config,
            vset,
            entries,
        )[key] == entries[i].loc,
        !locs.contains_key(key) && (forall|j: int|
            0 <= j < entries.len() && (#[trigger] entries[j]).idx.0 < config.volumes
                && entries[j].page.0 < config.pages_per_volume ==> key_of(
                entries[j].idx.0,
                entries[j].page.0,
            ) != key) ==> !with_leaf(locs, config, vset, entries).contains_key(key),
    decreases entries.len(),
{
    if entries.len() > 0 {
        let front = entries.drop_last();
        let end = entries.len() - 1;
        a_leaf_adds_what_is_not_known(locs, config, vset, front, key, i);
        assert(entries[end] == entries.last());
        assert forall|j: int| 0 <= j < front.len() implies #[trigger] front[j] == entries[j] by {}
        if !locs.contains_key(key) && 0 <= i < entries.len() && entries[i].idx.0 < config.volumes
            && entries[i].page.0 < config.pages_per_volume && key_of(
            entries[i].idx.0,
            entries[i].page.0,
        ) == key && (forall|j: int|
            0 <= j < i && (#[trigger] entries[j]).idx.0 < config.volumes && entries[j].page.0
                < config.pages_per_volume ==> key_of(entries[j].idx.0, entries[j].page.0) != key) {
            assert forall|j: int|
                0 <= j < i && j < front.len() && (#[trigger] front[j]).idx.0 < config.volumes
                    && front[j].page.0 < config.pages_per_volume implies key_of(
                front[j].idx.0,
                front[j].page.0,
            ) != key by {
                assert(entries[j] == front[j]);
            }
        }
        if !locs.contains_key(key) && (forall|j: int|
            0 <= j < entries.len() && (#[trigger] entries[j]).idx.0 < config.volumes
                && entries[j].page.0 < config.pages_per_volume ==> key_of(
                entries[j].idx.0,
                entries[j].page.0,
            ) != key) {
            assert forall|j: int|
                0 <= j < front.len() && (#[trigger] front[j]).idx.0 < config.volumes
                    && front[j].page.0 < config.pages_per_volume implies key_of(
                front[j].idx.0,
                front[j].page.0,
            ) != key by {
                assert(entries[j] == front[j]);
            }
        }
    }
}

/// Generations given out after a leaf was loaded come after all of its pages'.
pub proof fn generations_come_after_the_leaf(
    next_gen: u64,
    config: VsetConfig,
    vset: VsetId,
    entries: Seq<LeafEntry>,
    i: int,
)
    requires
        forall|j: int| 0 <= j < entries.len() ==> (#[trigger] entries[j]).loc.generation < u64::MAX,
    ensures
        above_leaf(next_gen, config, vset, entries) >= next_gen,
        0 <= i < entries.len() && entries[i].idx.0 < config.volumes && entries[i].page.0
            < config.pages_per_volume ==> above_leaf(next_gen, config, vset, entries)
            > entries[i].loc.generation,
        above_leaf(next_gen, config, vset, entries) == next_gen || exists|j: int|
            0 <= j < entries.len() && (#[trigger] entries[j]).loc.generation + 1 == above_leaf(
                next_gen,
                config,
                vset,
                entries,
            ),
    decreases entries.len(),
{
    if entries.len() > 0 {
        let front = entries.drop_last();
        let end = entries.len() - 1;
        assert forall|j: int| 0 <= j < front.len() implies (#[trigger] front[j]).loc.generation
            < u64::MAX by {
            assert(entries[j] == front[j]);
        }
        generations_come_after_the_leaf(next_gen, config, vset, front, i);
        assert(entries[end] == entries.last());
        assert(entries[end].loc.generation < u64::MAX);
        let rest = above_leaf(next_gen, config, vset, front);
        if rest != next_gen {
            let j = choose|j: int|
                0 <= j < front.len() && (#[trigger] front[j]).loc.generation + 1 == rest;
            assert(entries[j].loc.generation + 1 == rest);
        }
    }
}

/// The segments known after a leaf was loaded: those known before and those that
/// its entries of the vset itself lie in.
pub proof fn a_leaf_makes_its_segments_known(
    segments: Seq<(u64, u64)>,
    entries: Seq<LeafEntry>,
    name: (u64, u64),
)
    ensures
        with_segments(segments, entries).contains(name) <==> segments.contains(name) || exists|
            i: int,
        |
            {
                &&& 0 <= i < entries.len()
                &&& (#[trigger] entries[i]).loc.base == 0
                &&& entries[i].loc.fence == name.0
                &&& entries[i].loc.segment == name.1
            },
    decreases entries.len(),
{
    if entries.len() > 0 {
        let front = entries.drop_last();
        let end = entries.len() - 1;
        a_leaf_makes_its_segments_known(segments, front, name);
        let rest = with_segments(segments, front);
        let loc = entries.last().loc;
        let new = (loc.fence, loc.segment);
        let longer = rest.push(new);
        assert(entries[end].loc == loc);
        assert(longer.contains(name) <==> rest.contains(name) || name == new) by {
            assert(longer[rest.len() as int] == new);
            if rest.contains(name) {
                let i = choose|i: int| 0 <= i < rest.len() && rest[i] == name;
                assert(longer[i] == name);
            }
            if longer.contains(name) && name != new {
                let i = choose|i: int| 0 <= i < longer.len() && longer[i] == name;
                assert(rest[i] == name);
            }
        }
        if exists|i: int|
            {
                &&& 0 <= i < front.len()
                &&& (#[trigger] front[i]).loc.base == 0
                &&& front[i].loc.fence == name.0
                &&& front[i].loc.segment == name.1
            } {
            let i = choose|i: int|
                {
                    &&& 0 <= i < front.len()
                    &&& (#[trigger] front[i]).loc.base == 0
                    &&& front[i].loc.fence == name.0
                    &&& front[i].loc.segment == name.1
                };
            assert(entries[i].loc.base == 0);
        }
        if exists|i: int|
            {
                &&& 0 <= i < entries.len()
                &&& (#[trigger] entries[i]).loc.base == 0
                &&& entries[i].loc.fence == name.0
                &&& entries[i].loc.segment == name.1
            } {
            let i = choose|i: int|
                {
                    &&& 0 <= i < entries.len()
                    &&& (#[trigger] entries[i]).loc.base == 0
                    &&& entries[i].loc.fence == name.0
                    &&& entries[i].loc.segment == name.1
                };
            if i < end {
                assert(front[i].loc.base == 0);
            }
        }
    }
}

/// What a page needs before it can be looked up.
pub proof fn a_page_waits_for_its_leaf(host: HostState, page: PageId, incarnation: u64)
    ensures
        ({
            let vset = page.volume.vset.0;
            let state = host.vsets@[vset];
            let key = key_of(page.volume.idx.0, page.page.0);
            let span = (key as int / LEAF_SPAN as int) as u64;
            let open = host.vsets@.contains_key(vset) && state.incarnation == incarnation
                && state.ready;
            let known = state.page_locs@.contains_key(key) || state.hydrated_spans@.contains(span)
                || !state.leaf_table@.contains_key(span);
            let failed = state.failed_spans@.contains(span);
            let loading = state.leaf_waiters@.contains_key(span);
            let action = hydrate_action(host, page, incarnation);
            &&& action is Stale <==> !open
            &&& action is Ready <==> open && known
            &&& action is Failed <==> open && !known && failed
            &&& action is Wait <==> open && !known && !failed && loading
            &&& action is Load <==> open && !known && !failed && !loading
            &&& action is Load ==> action == HydrateAction::Load(state.leaf_table@[span])
        }),
{
    let key = key_of(page.volume.idx.0, page.page.0);
    assert(crate::journal::page_key_spec(page) == key);
    assert(crate::journal::key_span_spec(key) == key as int / LEAF_SPAN as int);
}

/// A load collects those that wait for it, and hands all of them back when it ends,
/// in the order they came; then no load is under way.
pub proof fn a_load_hands_back_all_that_wait(
    before: VsetState,
    loading: VsetState,
    joined: VsetState,
    host: HostState,
    after: HostState,
    vset: VsetId,
    span: u64,
    waiter: u64,
    waiters: Seq<u64>,
    other: u64,
)
    requires
        load_begun(before, loading, span),
        waiter_added(loading, joined, span, waiter),
        host.vsets@.contains_key(vset.0),
        host.vsets@[vset.0] == joined,
        load_ended(host, after, vset, joined.incarnation, span, waiters),
        other != span,
    ensures
        loading.leaf_waiters@.contains_key(span),
        waiters == seq![waiter],
        !after.vsets@[vset.0].leaf_waiters@.contains_key(span),
        after.vsets@[vset.0].leaf_waiters@.contains_key(other)
            == before.leaf_waiters@.contains_key(other),
        after.vsets@[vset.0].leaf_waiters@[other] == before.leaf_waiters@[other],
        after.vsets@[vset.0].page_locs == before.page_locs,
        after.vsets@[vset.0].hydrated_spans == before.hydrated_spans,
{
    assert(waiters =~= seq![waiter]);
}

/// A leaf that could not be loaded is not tried again for the vset it was wanted
/// for, as long as that leaf is the one that counts.
pub proof fn a_failed_leaf_is_remembered(
    before: HostState,
    after: HostState,
    vset: VsetId,
    incarnation: u64,
    span: u64,
    pointer: LeafPointer,
    other: u64,
)
    requires
        leaf_failed(before, after, vset, incarnation, span, pointer),
        other != span,
    ensures
        ({
            let wanted = before.vsets@.contains_key(vset.0) && before.vsets@[vset.0].incarnation
                == incarnation && before.vsets@[vset.0].leaf_table@.contains_key(span)
                && before.vsets@[vset.0].leaf_table@[span] == pointer;
            let now = after.vsets@[vset.0];
            &&& !wanted ==> after == before
            &&& wanted ==> {
                &&& now.failed_spans@.contains(span)
                &&& now.failed_spans@.contains(other)
                    == before.vsets@[vset.0].failed_spans@.contains(other)
                &&& now.page_locs == before.vsets@[vset.0].page_locs
            }
        }),
{
}

/// A leaf that is installed is loaded, and its failure forgotten; its pages, its
/// segments and the leaf itself are known.
pub proof fn an_installed_leaf_is_loaded(
    before: VsetState,
    after: VsetState,
    vset: VsetId,
    span: u64,
    pointer: LeafPointer,
    entries: Seq<LeafEntry>,
    bytes: u64,
    other: u64,
)
    requires
        leaf_installed(before, after, vset, span, pointer, entries, bytes),
        before.hydrations < u64::MAX,
        other != span,
    ensures
        after.hydrated_spans@.contains(span),
        !after.failed_spans@.contains(span),
        after.hydrated_spans@.contains(other) == before.hydrated_spans@.contains(other),
        after.failed_spans@.contains(other) == before.failed_spans@.contains(other),
        after.page_locs@ == with_leaf(before.page_locs@, before.config, vset, entries),
        pointer.base == 0 ==> after.backed_leaves@.contains((pointer.fence, pointer.id)),
        pointer.base != 0 ==> after.backed_leaves@ == before.backed_leaves@,
        after.backed_segments@ == with_segments(before.backed_segments@, entries),
        exists|i: int|
            0 <= i < after.leaf_blobs@.len() && (#[trigger] after.leaf_blobs@[i]).pointer == pointer
                && after.leaf_blobs@[i].bytes == bytes && after.leaf_blobs@[i].segments@
                == with_segments(Seq::empty(), entries),
        after.next_gen == above_leaf(before.next_gen, before.config, vset, entries),
        after.hydrations == before.hydrations + 1,
        after.overlay == before.overlay,
        after.leaf_table == before.leaf_table,
        after.mutation_seq == before.mutation_seq,
        after.best_record == before.best_record,
{
    let name = (pointer.fence, pointer.id);
    assert(before.backed_leaves@.push(name)[before.backed_leaves@.len() as int] == name);
    let blob = choose|blob: super::super::state::LeafBlob|
        {
            &&& blob.pointer == pointer
            &&& blob.bytes == bytes
            &&& blob.segments@ == with_segments(Seq::empty(), entries)
            &&& #[trigger] super::super::hydration::blob_put(
                before.leaf_blobs@,
                after.leaf_blobs@,
                blob,
            )
        };
    if forall|j: int|
        0 <= j < before.leaf_blobs@.len() ==> (#[trigger] before.leaf_blobs@[j]).pointer
            != blob.pointer {
        assert(after.leaf_blobs@[before.leaf_blobs@.len() as int] == blob);
    } else {
        let i = choose|i: int|
            {
                &&& 0 <= i < before.leaf_blobs@.len()
                &&& (#[trigger] before.leaf_blobs@[i]).pointer == blob.pointer
                &&& forall|j: int|
                    0 <= j < i ==> (#[trigger] before.leaf_blobs@[j]).pointer != blob.pointer
                &&& after.leaf_blobs@ == before.leaf_blobs@.update(i, blob)
            };
        assert(after.leaf_blobs@[i] == blob);
    }
}

/// A leaf is kept on the local device if there is room for it beside what is kept
/// free, and its room is reserved then.
pub proof fn a_leaf_is_kept_if_there_is_room(
    before: HostState,
    after: HostState,
    leaf: LoadedLeaf,
    step: LeafStep,
)
    requires
        keeps(before, after, leaf, step),
    ensures
        ({
            let room = before.ledger.reserved + leaf.bytes <= u64::MAX
                && match before.ledger.capacity {
                Some(capacity) => before.ledger.used + before.ledger.reserved + leaf.bytes
                    + before.ledger.headroom <= capacity,
                None => true,
            };
            &&& room ==> step == LeafStep::Write(leaf) && after.ledger.reserved
                == before.ledger.reserved + leaf.bytes && after.ledger.used == before.ledger.used
            &&& !room ==> step is Failed && after == before
            &&& after.vsets == before.vsets
        }),
{
}

/// A load that ends changes nothing but who waits, and only of the vset it was for; if
/// that was replaced nobody is handed back.
pub proof fn a_load_that_ends_changes_only_who_waits(
    before: HostState,
    after: HostState,
    vset: VsetId,
    incarnation: u64,
    span: u64,
    waiters: Seq<u64>,
)
    requires
        load_ended(before, after, vset, incarnation, span, waiters),
    ensures
        ({
            let was = before.vsets@[vset.0];
            let here = before.vsets@.contains_key(vset.0) && was.incarnation == incarnation
                && was.leaf_waiters@.contains_key(span);
            &&& here ==> waiters == was.leaf_waiters@[span]@
            &&& here ==> after.vsets@ == before.vsets@.insert(vset.0, after.vsets@[vset.0])
            &&& here ==> after.vsets@[vset.0] == (VsetState {
                leaf_waiters: after.vsets@[vset.0].leaf_waiters,
                ..was
            })
            &&& after == (HostState { vsets: after.vsets, ..before })
            &&& !here ==> waiters.len() == 0 && after == before
        }),
{
}

} // verus!
