//! Loading leaves of a vset's page map when a page is first needed.

use super::state::{follows, BlobLedger, Counters, HostState, LeafBlob, VsetState};
use crate::journal::{key_span, page_key, span_of, LeafPointer, PageLoc, VsetConfig};
use crate::store::{StoreError, StoreFault};
use crate::types::{PageId, PageNo, VolumeId, VolumeIdx, VsetId};
use vstd::prelude::*;

verus! {

broadcast use vstd::std_specs::btree::group_btree_axioms;

#[derive(Clone, Copy, PartialEq, Eq, Debug, Structural)]
pub enum HydrateAction {
    /// The vset has been replaced or is closed.
    Stale,
    /// The page's location is known, or it has none.
    Ready,
    /// The leaf cannot be loaded.
    Failed,
    /// The leaf is being loaded.
    Wait,
    Load(LeafPointer),
}

/// The vset is still the one the request was made to.
pub open spec fn serves(host: HostState, vset: VsetId, incarnation: u64) -> bool {
    host.vsets@.contains_key(vset.0) && host.vsets@[vset.0].incarnation == incarnation
        && host.vsets@[vset.0].ready
}

pub open spec fn hydrate_action(host: HostState, page: PageId, incarnation: u64) -> HydrateAction {
    let vset = page.volume.vset;
    let state = host.vsets@[vset.0];
    let span = key_span(page_key(page));
    if !serves(host, vset, incarnation) {
        HydrateAction::Stale
    } else if state.page_locs@.contains_key(page_key(page)) || state.hydrated_spans@.contains(span)
        || !state.leaf_table@.contains_key(span) {
        HydrateAction::Ready
    } else if state.failed_spans@.contains(span) {
        HydrateAction::Failed
    } else if state.leaf_waiters@.contains_key(span) {
        HydrateAction::Wait
    } else {
        HydrateAction::Load(state.leaf_table@[span])
    }
}

fn plan_hydration(host: &HostState, page: PageId, incarnation: u64) -> (action: HydrateAction)
    ensures
        action == hydrate_action(*host, page, incarnation),
{
    let span: u64 = span_of(page);
    match host.vsets.get(&page.volume.vset.0) {
        Some(state) => {
            if state.incarnation != incarnation || !state.ready {
                return HydrateAction::Stale;
            }
            if state.page_locs.contains_key(&page_key(page)) || state.hydrated_spans.contains(&span) {
                return HydrateAction::Ready;
            }
            match state.leaf_table.get(&span) {
                None => HydrateAction::Ready,
                Some(pointer) => if state.failed_spans.contains(&span) {
                    HydrateAction::Failed
                } else if state.leaf_waiters.contains_key(&span) {
                    HydrateAction::Wait
                } else {
                    HydrateAction::Load(*pointer)
                },
            }
        },
        None => HydrateAction::Stale,
    }
}

/// `after` is `before` with another request waiting for the leaf.
pub open spec fn waiter_added(before: VsetState, after: VsetState, span: u64, waiter: u64) -> bool {
    &&& after == (VsetState { leaf_waiters: after.leaf_waiters, ..before })
    &&& after.leaf_waiters@ == before.leaf_waiters@.insert(span, after.leaf_waiters@[span])
    &&& after.leaf_waiters@[span]@ == before.leaf_waiters@[span]@.push(waiter)
}

/// `after` is `before` with nobody waiting yet for the leaf, which is being
/// loaded.
pub open spec fn load_begun(before: VsetState, after: VsetState, span: u64) -> bool {
    &&& after == (VsetState { leaf_waiters: after.leaf_waiters, ..before })
    &&& after.leaf_waiters@ == before.leaf_waiters@.insert(span, after.leaf_waiters@[span])
    &&& after.leaf_waiters@[span]@ == Seq::<u64>::empty()
}

/// Decides what has to happen before a page's location is known. Only one
/// request loads a leaf; the others wait for it.
pub fn begin_hydration(host: &mut HostState, page: PageId, incarnation: u64, waiter: u64) -> (action:
    HydrateAction)
    ensures
        action == hydrate_action(*old(host), page, incarnation),
        match action {
            HydrateAction::Wait | HydrateAction::Load(_) => {
                let vset = page.volume.vset.0;
                let span = key_span(page_key(page));
                let before = old(host).vsets@[vset];
                let after = final(host).vsets@[vset];
                &&& *final(host) == (HostState { vsets: final(host).vsets, ..*old(host) })
                &&& final(host).vsets@ == old(host).vsets@.insert(vset, after)
                &&& action == HydrateAction::Wait ==> waiter_added(before, after, span, waiter)
                &&& action is Load ==> load_begun(before, after, span)
            },
            _ => *final(host) == *old(host),
        },
        follows(*old(host), *final(host)),
{
    let action = plan_hydration(host, page, incarnation);
    let span: u64 = span_of(page);
    let vset: u64 = page.volume.vset.0;
    let change: bool = match action {
        HydrateAction::Wait => true,
        HydrateAction::Load(_) => true,
        _ => false,
    };
    if !change {
        return action;
    }
    let ghost was = host.vsets@;
    if let Some(mut state) = host.vsets.remove(&vset) {
        let ghost waiters = state.leaf_waiters@;
        let mut list: Vec<u64> = match state.leaf_waiters.remove(&span) {
            Some(list) => list,
            None => Vec::new(),
        };
        if let HydrateAction::Wait = action {
            list.push(waiter);
        }
        state.leaf_waiters.insert(span, list);
        proof {
            assert(waiters.remove(span).insert(span, list) =~= waiters.insert(span, list));
        }
        host.vsets.insert(vset, state);
        proof {
            assert(was.remove(vset).insert(vset, state) =~= was.insert(vset, state));
        }
    }
    action
}

/// A leaf is loaded by one request at a time.
pub proof fn one_load_at_a_time(host: HostState, page: PageId, incarnation: u64)
    requires
        serves(host, page.volume.vset, incarnation),
        host.vsets@[page.volume.vset.0].leaf_waiters@.contains_key(
            key_span(page_key(page)),
        ),
    ensures
        hydrate_action(host, page, incarnation) !is Load,
{
}

/// `after` is `before` with nobody waiting for the leaf any more.
pub open spec fn load_ended(
    before: HostState,
    after: HostState,
    vset: VsetId,
    incarnation: u64,
    span: u64,
    waiters: Seq<u64>,
) -> bool {
    let was = before.vsets@[vset.0];
    let now = after.vsets@[vset.0];
    if before.vsets@.contains_key(vset.0) && was.incarnation == incarnation
        && was.leaf_waiters@.contains_key(span) {
        &&& waiters == was.leaf_waiters@[span]@
        &&& after == (HostState { vsets: after.vsets, ..before })
        &&& after.vsets@ == before.vsets@.insert(vset.0, now)
        &&& now == (VsetState { leaf_waiters: now.leaf_waiters, ..was })
        &&& now.leaf_waiters@ == was.leaf_waiters@.remove(span)
    } else {
        waiters == Seq::<u64>::empty() && after == before
    }
}

/// Ends the loading of a leaf and hands back who waited for it.
pub fn end_hydration(host: &mut HostState, vset: VsetId, incarnation: u64, span: u64) -> (waiters:
    Vec<u64>)
    ensures
        load_ended(*old(host), *final(host), vset, incarnation, span, waiters@),
        follows(*old(host), *final(host)),
{
    let found: bool = match host.vsets.get(&vset.0) {
        Some(state) => state.incarnation == incarnation && state.leaf_waiters.contains_key(&span),
        None => false,
    };
    if !found {
        return Vec::new();
    }
    let ghost was = host.vsets@;
    let mut waiters: Vec<u64> = Vec::new();
    if let Some(mut state) = host.vsets.remove(&vset.0) {
        if let Some(list) = state.leaf_waiters.remove(&span) {
            waiters = list;
        }
        host.vsets.insert(vset.0, state);
        proof {
            assert(was.remove(vset.0).insert(vset.0, state) =~= was.insert(vset.0, state));
        }
    }
    waiters
}

/// The leaf has not been replaced while it was being loaded.
pub open spec fn still_wanted(
    host: HostState,
    vset: VsetId,
    incarnation: u64,
    span: u64,
    pointer: LeafPointer,
) -> bool {
    &&& host.vsets@.contains_key(vset.0)
    &&& host.vsets@[vset.0].incarnation == incarnation
    &&& host.vsets@[vset.0].leaf_table@.contains_key(span)
    &&& host.vsets@[vset.0].leaf_table@[span] == pointer
}

fn is_wanted(host: &HostState, vset: VsetId, incarnation: u64, span: u64, pointer: LeafPointer) -> (
wanted: bool)
    ensures
        wanted == still_wanted(*host, vset, incarnation, span, pointer),
{
    match host.vsets.get(&vset.0) {
        Some(state) => if state.incarnation != incarnation {
            false
        } else {
            match state.leaf_table.get(&span) {
                Some(found) => *found == pointer,
                None => false,
            }
        },
        None => false,
    }
}

/// `after` is `before` with the leaf noted as failed, if it is still wanted.
pub open spec fn leaf_failed(
    before: HostState,
    after: HostState,
    vset: VsetId,
    incarnation: u64,
    span: u64,
    pointer: LeafPointer,
) -> bool {
    if still_wanted(before, vset, incarnation, span, pointer) {
        let was = before.vsets@[vset.0];
        let now = after.vsets@[vset.0];
        &&& after == (HostState { vsets: after.vsets, ..before })
        &&& after.vsets@ == before.vsets@.insert(vset.0, now)
        &&& now == (VsetState { failed_spans: now.failed_spans, ..was })
        &&& now.failed_spans@ == was.failed_spans@.insert(span)
    } else {
        after == before
    }
}

/// Notes that a leaf cannot be loaded, if it is still wanted.
pub fn fail_leaf(host: &mut HostState, vset: VsetId, incarnation: u64, span: u64, pointer: LeafPointer)
    ensures
        leaf_failed(*old(host), *final(host), vset, incarnation, span, pointer),
        follows(*old(host), *final(host)),
{
    if is_wanted(host, vset, incarnation, span, pointer) {
        let ghost was = host.vsets@;
        if let Some(mut state) = host.vsets.remove(&vset.0) {
            state.failed_spans.insert(span);
            host.vsets.insert(vset.0, state);
            proof {
                assert(was.remove(vset.0).insert(vset.0, state) =~= was.insert(vset.0, state));
            }
        }
    }
}

// ---------------------------------------------------------------------------
// Installing a leaf
// ---------------------------------------------------------------------------

/// One page of a leaf.
#[derive(Clone, Copy, PartialEq, Eq, Debug, Structural)]
pub struct LeafEntry {
    pub idx: VolumeIdx,
    pub page: PageNo,
    pub loc: PageLoc,
}

pub open spec fn entry_page(vset: VsetId, entry: LeafEntry) -> PageId {
    PageId { volume: VolumeId { vset, idx: entry.idx }, page: entry.page }
}

/// Page locations with those of a leaf, as far as the vset has such pages.
/// Locations that are known stay.
pub open spec fn with_leaf(
    locs: Map<u64, PageLoc>,
    config: VsetConfig,
    vset: VsetId,
    entries: Seq<LeafEntry>,
) -> Map<u64, PageLoc>
    decreases entries.len(),
{
    if entries.len() == 0 {
        locs
    } else {
        let before = with_leaf(locs, config, vset, entries.drop_last());
        let entry = entries.last();
        let page = entry_page(vset, entry);
        if config.contains(page) && !before.contains_key(page_key(page)) {
            before.insert(page_key(page), entry.loc)
        } else {
            before
        }
    }
}

/// The next free generation, above those of a leaf.
pub open spec fn above_leaf(
    next_gen: u64,
    config: VsetConfig,
    vset: VsetId,
    entries: Seq<LeafEntry>,
) -> u64
    decreases entries.len(),
{
    if entries.len() == 0 {
        next_gen
    } else {
        let before = above_leaf(next_gen, config, vset, entries.drop_last());
        let entry = entries.last();
        if config.contains(entry_page(vset, entry)) && entry.loc.generation >= before {
            (entry.loc.generation + 1) as u64
        } else {
            before
        }
    }
}

/// Segments of the vset itself that a leaf refers to, each once.
pub open spec fn with_segments(segments: Seq<(u64, u64)>, entries: Seq<LeafEntry>) -> Seq<(u64, u64)>
    decreases entries.len(),
{
    if entries.len() == 0 {
        segments
    } else {
        let before = with_segments(segments, entries.drop_last());
        let loc = entries.last().loc;
        if loc.base == 0 && !before.contains((loc.fence, loc.segment)) {
            before.push((loc.fence, loc.segment))
        } else {
            before
        }
    }
}

fn add_pair(pairs: &mut Vec<(u64, u64)>, first: u64, second: u64)
    ensures
        final(pairs)@ == (if old(pairs)@.contains((first, second)) {
            old(pairs)@
        } else {
            old(pairs)@.push((first, second))
        }),
{
    let mut i: usize = 0;
    while i < pairs.len()
        invariant
            i <= pairs@.len(),
            *pairs == *old(pairs),
            forall|a: int| 0 <= a < i ==> #[trigger] pairs@[a] != (first, second),
        decreases pairs@.len() - i,
    {
        if pairs[i].0 == first && pairs[i].1 == second {
            return ;
        }
        i = i + 1;
    }
    pairs.push((first, second));
}

/// `after` is `before` with `blob` in place of the first of its name, or at the
/// end.
pub open spec fn blob_put(before: Seq<LeafBlob>, after: Seq<LeafBlob>, blob: LeafBlob) -> bool {
    ||| exists|i: int|
        {
            &&& 0 <= i < before.len()
            &&& (#[trigger] before[i]).pointer == blob.pointer
            &&& forall|j: int| 0 <= j < i ==> (#[trigger] before[j]).pointer != blob.pointer
            &&& after == before.update(i, blob)
        }
    ||| {
        &&& forall|j: int| 0 <= j < before.len() ==> (#[trigger] before[j]).pointer != blob.pointer
        &&& after == before.push(blob)
    }
}

fn put_blob(blobs: &mut Vec<LeafBlob>, blob: LeafBlob)
    ensures
        blob_put(old(blobs)@, final(blobs)@, blob),
{
    let mut i: usize = 0;
    while i < blobs.len()
        invariant
            i <= blobs@.len(),
            *blobs == *old(blobs),
            forall|j: int| 0 <= j < i ==> (#[trigger] blobs@[j]).pointer != blob.pointer,
        decreases blobs@.len() - i,
    {
        if blobs[i].pointer == blob.pointer {
            let ghost was = blobs@;
            blobs.set(i, blob);
            proof {
                assert(was[i as int].pointer == blob.pointer);
            }
            return ;
        }
        i = i + 1;
    }
    blobs.push(blob);
}

/// The leaf is kept with its length and the segments it refers to.
pub open spec fn leaf_kept(
    before: Seq<LeafBlob>,
    after: Seq<LeafBlob>,
    pointer: LeafPointer,
    entries: Seq<LeafEntry>,
    bytes: u64,
) -> bool {
    exists|blob: LeafBlob|
        {
            &&& blob.pointer == pointer
            &&& blob.bytes == bytes
            &&& blob.segments@ == with_segments(Seq::empty(), entries)
            &&& #[trigger] blob_put(before, after, blob)
        }
}

fn own_segments(entries: &Vec<LeafEntry>) -> (segments: Vec<(u64, u64)>)
    ensures
        segments@ == with_segments(Seq::empty(), entries@),
{
    let mut segments: Vec<(u64, u64)> = Vec::new();
    let mut i: usize = 0;
    while i < entries.len()
        invariant
            i <= entries@.len(),
            segments@ == with_segments(Seq::empty(), entries@.take(i as int)),
        decreases entries@.len() - i,
    {
        proof {
            assert(entries@.take(i + 1).drop_last() =~= entries@.take(i as int));
        }
        if entries[i].loc.base == 0 {
            add_pair(&mut segments, entries[i].loc.fence, entries[i].loc.segment);
        }
        i = i + 1;
    }
    proof {
        assert(entries@.take(i as int) =~= entries@);
    }
    segments
}

/// `after` is `before` with the leaf installed.
pub open spec fn leaf_installed(
    before: VsetState,
    after: VsetState,
    vset: VsetId,
    span: u64,
    pointer: LeafPointer,
    entries: Seq<LeafEntry>,
    bytes: u64,
) -> bool {
    &&& after == (VsetState {
        page_locs: after.page_locs,
        next_gen: above_leaf(before.next_gen, before.config, vset, entries),
        backed_segments: after.backed_segments,
        backed_leaves: after.backed_leaves,
        leaf_blobs: after.leaf_blobs,
        failed_spans: after.failed_spans,
        hydrated_spans: after.hydrated_spans,
        hydrations: (before.hydrations + 1) as u64,
        ..before
    })
    &&& after.page_locs@ == with_leaf(before.page_locs@, before.config, vset, entries)
    &&& after.backed_segments@ == with_segments(before.backed_segments@, entries)
    &&& after.backed_leaves@ == (if pointer.base == 0 && !before.backed_leaves@.contains(
        (pointer.fence, pointer.id),
    ) {
        before.backed_leaves@.push((pointer.fence, pointer.id))
    } else {
        before.backed_leaves@
    })
    &&& leaf_kept(before.leaf_blobs@, after.leaf_blobs@, pointer, entries, bytes)
    &&& after.failed_spans@ == before.failed_spans@.remove(span)
    &&& after.hydrated_spans@ == before.hydrated_spans@.insert(span)
}

fn add_entries(state: &mut VsetState, vset: VsetId, entries: &Vec<LeafEntry>)
    requires
        forall|i: int|
            0 <= i < entries@.len() ==> (#[trigger] entries@[i]).loc.generation < u64::MAX,
    ensures
        *final(state) == (VsetState {
            page_locs: final(state).page_locs,
            backed_segments: final(state).backed_segments,
            next_gen: above_leaf(old(state).next_gen, old(state).config, vset, entries@),
            ..*old(state)
        }),
        final(state).page_locs@ == with_leaf(
            old(state).page_locs@,
            old(state).config,
            vset,
            entries@,
        ),
        final(state).backed_segments@ == with_segments(old(state).backed_segments@, entries@),
{
    let ghost start = *state;
    let mut i: usize = 0;
    while i < entries.len()
        invariant
            i <= entries@.len(),
            start == *old(state),
            forall|a: int|
                0 <= a < entries@.len() ==> (#[trigger] entries@[a]).loc.generation < u64::MAX,
            *state == (VsetState {
                page_locs: state.page_locs,
                backed_segments: state.backed_segments,
                next_gen: above_leaf(start.next_gen, start.config, vset, entries@.take(i as int)),
                ..start
            }),
            state.page_locs@ == with_leaf(
                start.page_locs@,
                start.config,
                vset,
                entries@.take(i as int),
            ),
            state.backed_segments@ == with_segments(
                start.backed_segments@,
                entries@.take(i as int),
            ),
        decreases entries@.len() - i,
    {
        proof {
            assert(entries@.take(i + 1).drop_last() =~= entries@.take(i as int));
        }
        let entry: LeafEntry = entries[i];
        let page = PageId { volume: VolumeId { vset, idx: entry.idx }, page: entry.page };
        if state.config.contains(page) {
            let key: u64 = page_key(page);
            if !state.page_locs.contains_key(&key) {
                state.page_locs.insert(key, entry.loc);
            }
            if entry.loc.generation >= state.next_gen {
                state.next_gen = entry.loc.generation + 1;
            }
        }
        if entry.loc.base == 0 {
            add_pair(&mut state.backed_segments, entry.loc.fence, entry.loc.segment);
        }
        i = i + 1;
    }
    proof {
        assert(entries@.take(i as int) =~= entries@);
    }
}

/// `after` is `before` with the leaf installed, if it is still wanted.
pub open spec fn leaf_taken(
    before: HostState,
    after: HostState,
    vset: VsetId,
    incarnation: u64,
    span: u64,
    pointer: LeafPointer,
    entries: Seq<LeafEntry>,
    bytes: u64,
) -> bool {
    if still_wanted(before, vset, incarnation, span, pointer) {
        let now = after.vsets@[vset.0];
        &&& after == (HostState { vsets: after.vsets, ..before })
        &&& after.vsets@ == before.vsets@.insert(vset.0, now)
        &&& leaf_installed(before.vsets@[vset.0], now, vset, span, pointer, entries, bytes)
    } else {
        after == before
    }
}

/// Installs a loaded leaf, if it is still wanted.
pub fn install_leaf(
    host: &mut HostState,
    vset: VsetId,
    incarnation: u64,
    span: u64,
    pointer: LeafPointer,
    entries: &Vec<LeafEntry>,
    bytes: u64,
) -> (installed: bool)
    requires
        forall|i: int|
            0 <= i < entries@.len() ==> (#[trigger] entries@[i]).loc.generation < u64::MAX,
        old(host).vsets@.contains_key(vset.0) ==> old(host).vsets@[vset.0].hydrations < u64::MAX,
    ensures
        installed == still_wanted(*old(host), vset, incarnation, span, pointer),
        leaf_taken(
            *old(host),
            *final(host),
            vset,
            incarnation,
            span,
            pointer,
            entries@,
            bytes,
        ),
        follows(*old(host), *final(host)),
{
    if !is_wanted(host, vset, incarnation, span, pointer) {
        return false;
    }
    let ghost was = host.vsets@;
    if let Some(mut state) = host.vsets.remove(&vset.0) {
        add_entries(&mut state, vset, entries);
        if pointer.base == 0 {
            add_pair(&mut state.backed_leaves, pointer.fence, pointer.id);
        }
        put_blob(
            &mut state.leaf_blobs,
            LeafBlob { pointer, bytes, segments: own_segments(entries) },
        );
        state.failed_spans.remove(&span);
        state.hydrated_spans.insert(span);
        state.hydrations = state.hydrations + 1;
        host.vsets.insert(vset.0, state);
        proof {
            assert(was.remove(vset.0).insert(vset.0, state) =~= was.insert(vset.0, state));
        }
    }
    true
}

/// Loading a leaf never replaces a location that is known: what was written
/// since the leaf was made stays.
pub proof fn loading_keeps_known_locations(
    locs: Map<u64, PageLoc>,
    config: VsetConfig,
    vset: VsetId,
    entries: Seq<LeafEntry>,
    key: u64,
)
    requires
        locs.contains_key(key),
    ensures
        with_leaf(locs, config, vset, entries).contains_key(key),
        with_leaf(locs, config, vset, entries)[key] == locs[key],
    decreases entries.len(),
{
    if entries.len() > 0 {
        loading_keeps_known_locations(locs, config, vset, entries.drop_last(), key);
    }
}

/// Once a leaf is installed its pages are ready.
pub proof fn installed_leaves_are_ready(
    host: HostState,
    page: PageId,
    incarnation: u64,
)
    requires
        serves(host, page.volume.vset, incarnation),
        host.vsets@[page.volume.vset.0].hydrated_spans@.contains(
            key_span(page_key(page)),
        ),
    ensures
        hydrate_action(host, page, incarnation) == HydrateAction::Ready,
{
}

// ---------------------------------------------------------------------------
// Where a leaf comes from
// ---------------------------------------------------------------------------

/// What the local device has for a leaf.
#[derive(Clone, Copy, PartialEq, Eq, Debug, Structural)]
pub enum LocalLeaf {
    Missing,
    /// There are bytes, but they are not the leaf.
    Damaged,
    Intact,
}

#[derive(Clone, Copy, PartialEq, Eq, Debug, Structural)]
pub enum LeafSource {
    Local,
    /// Fetch it from the store; `replace` a damaged local copy.
    Store { replace: bool },
    Nowhere,
}

/// Decides where a leaf is taken from.
pub fn leaf_source(local: LocalLeaf, backed: bool) -> (source: LeafSource)
    ensures
        source == (match local {
            LocalLeaf::Intact => LeafSource::Local,
            LocalLeaf::Damaged => if backed {
                LeafSource::Store { replace: true }
            } else {
                LeafSource::Nowhere
            },
            LocalLeaf::Missing => if backed {
                LeafSource::Store { replace: false }
            } else {
                LeafSource::Nowhere
            },
        }),
{
    match local {
        LocalLeaf::Intact => LeafSource::Local,
        LocalLeaf::Damaged => if backed {
            LeafSource::Store { replace: true }
        } else {
            LeafSource::Nowhere
        },
        LocalLeaf::Missing => if backed {
            LeafSource::Store { replace: false }
        } else {
            LeafSource::Nowhere
        },
    }
}

#[derive(Clone, Copy, PartialEq, Eq, Debug, Structural)]
pub enum StoreReadStep {
    Found,
    Missing,
    /// Wait, then read again.
    Retry,
}

/// What follows a read of an object that is expected to be there.
pub fn store_read_step(counters: &mut Counters, outcome: Result<bool, StoreError>) -> (step:
    StoreReadStep)
    requires
        old(counters).room(1),
    ensures
        step == (match outcome {
            Ok(present) => if present {
                StoreReadStep::Found
            } else {
                StoreReadStep::Missing
            },
            Err(error) => if error == StoreError::Fault(StoreFault::Unavailable) {
                StoreReadStep::Retry
            } else {
                StoreReadStep::Missing
            },
        }),
        *final(counters) == (if step == StoreReadStep::Retry {
            Counters { store_retries: (old(counters).store_retries + 1) as u64, ..*old(counters) }
        } else {
            *old(counters)
        }),
{
    match outcome {
        Ok(present) => if present {
            StoreReadStep::Found
        } else {
            StoreReadStep::Missing
        },
        Err(StoreError::Fault(StoreFault::Unavailable)) => {
            counters.store_retries = counters.store_retries + 1;
            StoreReadStep::Retry
        },
        Err(_) => StoreReadStep::Missing,
    }
}

// ---------------------------------------------------------------------------
// The course of a load
// ---------------------------------------------------------------------------

/// A leaf that was read, with its length.
pub struct LoadedLeaf {
    pub entries: Vec<LeafEntry>,
    pub bytes: u64,
}

/// What the local device gave.
pub enum LocalRead {
    Missing,
    Damaged,
    Intact(LoadedLeaf),
}

pub enum LeafStep {
    /// Read the leaf from the store, after a while if `wait`; `replace` a damaged
    /// local copy.
    ReadStore { replace: bool, wait: bool },
    /// Delete the damaged local copy.
    Delete(LoadedLeaf),
    /// Keep the leaf on the local device.
    Write(LoadedLeaf),
    Loaded(LoadedLeaf),
    Failed,
}

/// What follows from what the local device has of a leaf. `backed` tells whether
/// the store may have it.
pub fn local_read(local: LocalRead, backed: bool) -> (step: LeafStep)
    ensures
        step == (match local {
            LocalRead::Intact(leaf) => LeafStep::Loaded(leaf),
            LocalRead::Missing => if backed {
                LeafStep::ReadStore { replace: false, wait: false }
            } else {
                LeafStep::Failed
            },
            LocalRead::Damaged => if backed {
                LeafStep::ReadStore { replace: true, wait: false }
            } else {
                LeafStep::Failed
            },
        }),
{
    let found = match &local {
        LocalRead::Missing => LocalLeaf::Missing,
        LocalRead::Damaged => LocalLeaf::Damaged,
        LocalRead::Intact(_) => LocalLeaf::Intact,
    };
    match leaf_source(found, backed) {
        LeafSource::Nowhere => LeafStep::Failed,
        LeafSource::Store { replace } => LeafStep::ReadStore { replace, wait: false },
        LeafSource::Local => match local {
            LocalRead::Intact(leaf) => LeafStep::Loaded(leaf),
            _ => LeafStep::Failed,
        },
    }
}

/// How a leaf that was fetched is kept: if there is room.
pub open spec fn keeps(before: HostState, after: HostState, leaf: LoadedLeaf, step: LeafStep) ->
    bool {
    if before.ledger.fits(leaf.bytes as int) && before.ledger.reserved + leaf.bytes <= u64::MAX {
        &&& step == LeafStep::Write(leaf)
        &&& after == (HostState {
            ledger: BlobLedger {
                reserved: (before.ledger.reserved + leaf.bytes) as u64,
                ..before.ledger
            },
            ..before
        })
    } else {
        step is Failed && after == before
    }
}

fn keep(host: &mut HostState, leaf: LoadedLeaf) -> (step: LeafStep)
    ensures
        keeps(*old(host), *final(host), leaf, step),
{
    if host.ledger.try_reserve(leaf.bytes) {
        LeafStep::Write(leaf)
    } else {
        LeafStep::Failed
    }
}

/// A leaf as the store gave it: none if the bytes are not the leaf.
pub struct StoredLeaf {
    pub leaf: Option<LoadedLeaf>,
}

/// What follows the read of a leaf from the store.
pub fn store_read(
    host: &mut HostState,
    replace: bool,
    outcome: Result<Option<StoredLeaf>, StoreError>,
) -> (step: LeafStep)
    requires
        old(host).counters.room(1),
    ensures
        match outcome {
            Ok(Some(found)) => match found.leaf {
                Some(leaf) => if replace {
                    step == LeafStep::Delete(leaf) && *final(host) == *old(host)
                } else {
                    keeps(*old(host), *final(host), leaf, step)
                },
                None => step is Failed && *final(host) == *old(host),
            },
            Err(StoreError::Fault(StoreFault::Unavailable)) => step == (LeafStep::ReadStore {
                replace,
                wait: true,
            }) && *final(host) == (HostState {
                counters: Counters {
                    store_retries: (old(host).counters.store_retries + 1) as u64,
                    ..old(host).counters
                },
                ..*old(host)
            }),
            _ => step is Failed && *final(host) == *old(host),
        },
        follows(*old(host), *final(host)),
{
    let seen: Result<bool, StoreError> = match &outcome {
        Ok(Some(_)) => Ok(true),
        Ok(None) => Ok(false),
        Err(error) => Err(*error),
    };
    match store_read_step(&mut host.counters, seen) {
        StoreReadStep::Missing => LeafStep::Failed,
        StoreReadStep::Retry => LeafStep::ReadStore { replace, wait: true },
        StoreReadStep::Found => match outcome {
            Ok(Some(found)) => match found.leaf {
                Some(leaf) => if replace {
                    LeafStep::Delete(leaf)
                } else {
                    keep(host, leaf)
                },
                None => LeafStep::Failed,
            },
            _ => LeafStep::Failed,
        },
    }
}

/// What follows once a damaged local copy of this length was deleted, or could
/// not be.
pub fn copy_deleted(host: &mut HostState, leaf: LoadedLeaf, length: u64, deleted: bool) -> (step:
    LeafStep)
    ensures
        if !deleted {
            step is Failed && *final(host) == *old(host)
        } else {
            keeps(
                HostState {
                    ledger: BlobLedger {
                        used: (if old(host).ledger.used >= length {
                            old(host).ledger.used - length
                        } else {
                            0
                        }) as u64,
                        ..old(host).ledger
                    },
                    ..*old(host)
                },
                *final(host),
                leaf,
                step,
            )
        },
        follows(*old(host), *final(host)),
{
    if !deleted {
        return LeafStep::Failed;
    }
    host.ledger.used = host.ledger.used.saturating_sub(length);
    keep(host, leaf)
}

/// What follows once the leaf was kept on the local device, or could not be.
pub fn copy_written(host: &mut HostState, leaf: LoadedLeaf, written: bool) -> (step: LeafStep)
    requires
        old(host).ledger.used + leaf.bytes <= u64::MAX,
    ensures
        if written {
            &&& step == LeafStep::Loaded(leaf)
            &&& *final(host) == (HostState {
                ledger: BlobLedger {
                    used: (old(host).ledger.used + leaf.bytes) as u64,
                    reserved: (if old(host).ledger.reserved >= leaf.bytes {
                        old(host).ledger.reserved - leaf.bytes
                    } else {
                        0
                    }) as u64,
                    ..old(host).ledger
                },
                ..*old(host)
            })
        } else {
            step is Failed && *final(host) == *old(host)
        },
        follows(*old(host), *final(host)),
{
    if !written {
        return LeafStep::Failed;
    }
    host.ledger.record(leaf.bytes);
    LeafStep::Loaded(leaf)
}

/// How a request for a page goes on once its leaf was loaded, or could not be.
#[derive(Clone, Copy, PartialEq, Eq, Debug, Structural)]
pub enum HydrationEnd {
    Ready,
    Failed,
    /// The leaf was replaced meanwhile: look again.
    Again,
}

/// Takes a leaf in that was loaded, or notes that it could not be, and hands back
/// who waited for it.
pub fn leaf_loaded(
    host: &mut HostState,
    page: PageId,
    incarnation: u64,
    pointer: LeafPointer,
    leaf: Option<LoadedLeaf>,
) -> (ended: (HydrationEnd, Vec<u64>))
    requires
        leaf is Some ==> forall|i: int|
            0 <= i < leaf->0.entries@.len() ==> (#[trigger] leaf->0.entries@[i]).loc.generation
                < u64::MAX,
        old(host).vsets@.contains_key(page.volume.vset.0) ==> old(
            host,
        ).vsets@[page.volume.vset.0].hydrations < u64::MAX,
    ensures
        ({
            let vset = page.volume.vset;
            let span = key_span(page_key(page));
            let wanted = still_wanted(*old(host), vset, incarnation, span, pointer);
            &&& ended.0 == (if leaf is None {
                HydrationEnd::Failed
            } else if wanted {
                HydrationEnd::Ready
            } else {
                HydrationEnd::Again
            })
            &&& match leaf {
                None => exists|noted: HostState| #[trigger]
                    leaf_failed(*old(host), noted, vset, incarnation, span, pointer) && load_ended(
                        noted,
                        *final(host),
                        vset,
                        incarnation,
                        span,
                        ended.1@,
                    ),
                Some(loaded) => exists|taken: HostState| #[trigger]
                    leaf_taken(
                        *old(host),
                        taken,
                        vset,
                        incarnation,
                        span,
                        pointer,
                        loaded.entries@,
                        loaded.bytes,
                    ) && load_ended(taken, *final(host), vset, incarnation, span, ended.1@),
            }
        }),
        follows(*old(host), *final(host)),
{
    let vset: VsetId = page.volume.vset;
    let span: u64 = span_of(page);
    match leaf {
        None => {
            fail_leaf(host, vset, incarnation, span, pointer);
            let ghost noted = *host;
            let waiters: Vec<u64> = end_hydration(host, vset, incarnation, span);
            (HydrationEnd::Failed, waiters)
        },
        Some(loaded) => {
            let installed: bool = install_leaf(
                host,
                vset,
                incarnation,
                span,
                pointer,
                &loaded.entries,
                loaded.bytes,
            );
            let ghost taken = *host;
            let waiters: Vec<u64> = end_hydration(host, vset, incarnation, span);
            if installed {
                (HydrationEnd::Ready, waiters)
            } else {
                (HydrationEnd::Again, waiters)
            }
        },
    }
}

} // verus!
