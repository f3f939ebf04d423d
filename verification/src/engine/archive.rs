//! Finding blocks in a volume's archive objects without loading the archive.
//!
//! An object's index, its footer, is fetched only when a page that the object
//! may hold is asked for. Of several copies of a block the newest counts.

use super::maps::{lists_keys, sorted_keys};
use super::volume::{BlockSum, LoadedFooter, PageEntry, PageFileLoc, VolumeState};
use crate::arith::sat_add;
use crate::objects::{
    lemma_identity_order, BlockCopy, BlockKey, BlockSpace, BlxFooter, EntryKind, FooterEntry,
    ObjectIdentity, ObjectRef,
};
use std::collections::BTreeMap;
use vstd::prelude::*;

verus! {

broadcast use vstd::std_specs::btree::group_btree_axioms;

// ---------------------------------------------------------------------------
// Loaded footers
// ---------------------------------------------------------------------------

/// The loaded footer of an object, if there is one.
pub open spec fn footer_of(footers: Seq<LoadedFooter>, identity: ObjectIdentity) -> Option<BlxFooter>
    decreases footers.len(),
{
    if footers.len() == 0 {
        None
    } else {
        match footer_of(footers.drop_last(), identity) {
            Some(footer) => Some(footer),
            None => if footers.last().identity == identity {
                Some(footers.last().footer)
            } else {
                None
            },
        }
    }
}

proof fn lemma_footer_at(footers: Seq<LoadedFooter>, identity: ObjectIdentity, at: int)
    requires
        0 <= at < footers.len(),
        footers[at].identity == identity,
        forall|a: int| 0 <= a < at ==> (#[trigger] footers[a]).identity != identity,
    ensures
        footer_of(footers, identity) == Some(footers[at].footer),
    decreases footers.len(),
{
    let front = footers.drop_last();
    if at < footers.len() - 1 {
        assert(front[at] == footers[at]);
        assert forall|a: int| 0 <= a < at implies (#[trigger] front[a]).identity != identity by {
            assert(footers[a].identity != identity);
        }
        lemma_footer_at(front, identity, at);
    } else {
        assert forall|a: int| 0 <= a < front.len() implies (#[trigger] front[a]).identity
            != identity by {
            assert(footers[a].identity != identity);
        }
        lemma_footer_none(front, identity);
    }
}

proof fn lemma_footer_none(footers: Seq<LoadedFooter>, identity: ObjectIdentity)
    requires
        forall|a: int| 0 <= a < footers.len() ==> (#[trigger] footers[a]).identity != identity,
    ensures
        footer_of(footers, identity) is None,
    decreases footers.len(),
{
    if footers.len() > 0 {
        let front = footers.drop_last();
        assert forall|a: int| 0 <= a < front.len() implies (#[trigger] front[a]).identity
            != identity by {
            assert(footers[a].identity != identity);
        }
        lemma_footer_none(front, identity);
        assert(footers[footers.len() - 1].identity != identity);
    }
}

pub fn find_footer(footers: &Vec<LoadedFooter>, identity: ObjectIdentity) -> (found: Option<usize>)
    ensures
        match found {
            Some(at) => at < footers@.len() && footer_of(footers@, identity) == Some(
                footers@[at as int].footer,
            ),
            None => footer_of(footers@, identity) is None,
        },
{
    let mut i: usize = 0;
    while i < footers.len()
        invariant
            i <= footers@.len(),
            forall|a: int| 0 <= a < i ==> (#[trigger] footers@[a]).identity != identity,
        decreases footers@.len() - i,
    {
        if footers[i].identity == identity {
            proof {
                lemma_footer_at(footers@, identity, i as int);
            }
            return Some(i);
        }
        i = i + 1;
    }
    proof {
        lemma_footer_none(footers@, identity);
    }
    None
}

// ---------------------------------------------------------------------------
// Resolving one page
// ---------------------------------------------------------------------------

/// What has to happen before a page's location is known.
#[derive(Clone, Copy, PartialEq, Eq, Debug, Structural)]
pub enum ArchiveStep {
    Ready,
    /// Fetch the footer of this object first.
    Fetch(ObjectRef),
    /// Every footer that matters is loaded.
    Resolve,
}

/// The first object that may hold `key` and whose footer is missing.
pub open spec fn missing_footer(
    objects: Seq<ObjectRef>,
    footers: Seq<LoadedFooter>,
    key: BlockKey,
) -> Option<ObjectRef>
    decreases objects.len(),
{
    if objects.len() == 0 {
        None
    } else {
        match missing_footer(objects.drop_last(), footers, key) {
            Some(object) => Some(object),
            None => if objects.last().covers(key) && footer_of(
                footers,
                objects.last().identity,
            ) is None {
                Some(objects.last())
            } else {
                None
            },
        }
    }
}

fn find_missing_footer(objects: &Vec<ObjectRef>, footers: &Vec<LoadedFooter>, key: BlockKey) -> (
missing: Option<ObjectRef>)
    ensures
        missing == missing_footer(objects@, footers@, key),
{
    let mut i: usize = 0;
    while i < objects.len()
        invariant
            i <= objects@.len(),
            missing_footer(objects@.take(i as int), footers@, key) is None,
        decreases objects@.len() - i,
    {
        proof {
            assert(objects@.take(i + 1).drop_last() =~= objects@.take(i as int));
        }
        let object: ObjectRef = objects[i];
        if object.covers(key) && find_footer(footers, object.identity).is_none() {
            proof {
                lemma_missing_prefix(objects@, footers@, key, i + 1);
            }
            return Some(object);
        }
        i = i + 1;
    }
    proof {
        assert(objects@.take(i as int) =~= objects@);
    }
    None
}

proof fn lemma_missing_prefix(
    objects: Seq<ObjectRef>,
    footers: Seq<LoadedFooter>,
    key: BlockKey,
    n: int,
)
    requires
        0 <= n <= objects.len(),
        missing_footer(objects.take(n), footers, key) is Some,
    ensures
        missing_footer(objects, footers, key) == missing_footer(objects.take(n), footers, key),
    decreases objects.len() - n,
{
    if n < objects.len() {
        assert(objects.take(n + 1).drop_last() =~= objects.take(n));
        lemma_missing_prefix(objects, footers, key, n + 1);
    } else {
        assert(objects.take(n) =~= objects);
    }
}

/// The page's location is known, or known not to be archived.
pub open spec fn is_resolved(state: VolumeState, page: u64) -> bool {
    state.page_locs@.contains_key(page) || state.archive_resolved@.contains(page)
}

pub open spec fn archive_step_spec(state: VolumeState, page: u32) -> ArchiveStep {
    if is_resolved(state, page as u64) {
        ArchiveStep::Ready
    } else if !state.archived_memory_usable && state.config.is_memory() {
        ArchiveStep::Resolve
    } else {
        match missing_footer(
            state.archive_objects@,
            state.archive_footers@,
            state.config.key(page),
        ) {
            Some(object) => ArchiveStep::Fetch(object),
            None => ArchiveStep::Resolve,
        }
    }
}

/// Decides what has to happen before the location of `page` is known.
pub fn archive_step(state: &VolumeState, page: u32) -> (step: ArchiveStep)
    ensures
        step == archive_step_spec(*state, page),
{
    let number: u64 = page as u64;
    if state.page_locs.contains_key(&number) || state.archive_resolved.contains(&number) {
        return ArchiveStep::Ready;
    }
    if !state.archived_memory_usable && state.config.is_memory() {
        return ArchiveStep::Resolve;
    }
    match find_missing_footer(&state.archive_objects, &state.archive_footers, state.config.key(page)) {
        Some(object) => ArchiveStep::Fetch(object),
        None => ArchiveStep::Resolve,
    }
}

/// `after` is `before` with the footer of `object`, if it is that.
pub open spec fn footer_installed(
    before: VolumeState,
    after: VolumeState,
    object: ObjectRef,
    footer: BlxFooter,
    valid: bool,
) -> bool {
    &&& valid == footer.belongs_to(object)
    &&& if valid && before.archive_objects@.contains(object) {
        &&& after == (VolumeState {
            archive_footers: after.archive_footers,
            ..before
        })
        &&& footer_of(after.archive_footers@, object.identity) == Some(footer)
        &&& forall|other: ObjectIdentity|
            other != object.identity ==> #[trigger] footer_of(
                after.archive_footers@,
                other,
            ) == footer_of(before.archive_footers@, other)
    } else {
        after == before
    }
}

/// Takes a fetched footer in, if it is the one `object` refers to. One for an
/// object that has left the archive meanwhile is dropped.
pub fn install_footer(state: &mut VolumeState, object: &ObjectRef, footer: BlxFooter) -> (valid: bool)
    ensures
        footer_installed(*old(state), *final(state), *object, footer, valid),
{
    if !footer.verify(object) {
        return false;
    }
    let mut known: bool = false;
    let mut i: usize = 0;
    while i < state.archive_objects.len()
        invariant
            i <= state.archive_objects@.len(),
            *state == *old(state),
            known == exists|a: int| 0 <= a < i && state.archive_objects@[a] == *object,
        decreases state.archive_objects@.len() - i,
    {
        if state.archive_objects[i] == *object {
            known = true;
        }
        i = i + 1;
    }
    if !known {
        return true;
    }
    put_footer(&mut state.archive_footers, object.identity, footer);
    true
}

/// Makes `footer` the loaded footer of `identity`.
fn put_footer(footers: &mut Vec<LoadedFooter>, identity: ObjectIdentity, footer: BlxFooter)
    ensures
        footer_of(final(footers)@, identity) == Some(footer),
        forall|other: ObjectIdentity|
            other != identity ==> #[trigger] footer_of(final(footers)@, other) == footer_of(
                old(footers)@,
                other,
            ),
{
    let ghost was = footers@;
    let mut i: usize = 0;
    while i < footers.len()
        invariant
            i <= footers@.len(),
            footers@ == was,
            was == old(footers)@,
            forall|a: int| 0 <= a < i ==> (#[trigger] footers@[a]).identity != identity,
        decreases footers@.len() - i,
    {
        if footers[i].identity == identity {
            let ghost at = i as int;
            footers.set(i, LoadedFooter { identity, footer });
            proof {
                lemma_footer_at(footers@, identity, at);
                assert forall|other: ObjectIdentity| other != identity implies #[trigger] footer_of(
                    footers@,
                    other,
                ) == footer_of(was, other) by {
                    lemma_footer_update(was, at, footers@[at], other);
                }
            }
            return ;
        }
        i = i + 1;
    }
    footers.push(LoadedFooter { identity, footer });
    proof {
        assert(footers@.drop_last() =~= was);
        lemma_footer_none(was, identity);
    }
}

proof fn lemma_footer_update(
    footers: Seq<LoadedFooter>,
    at: int,
    item: LoadedFooter,
    other: ObjectIdentity,
)
    requires
        0 <= at < footers.len(),
        footers[at].identity == item.identity,
        item.identity != other,
    ensures
        footer_of(footers.update(at, item), other) == footer_of(footers, other),
    decreases footers.len(),
{
    let now = footers.update(at, item);
    if at < footers.len() - 1 {
        assert(now.drop_last() =~= footers.drop_last().update(at, item));
        lemma_footer_update(footers.drop_last(), at, item, other);
    } else {
        assert(now.drop_last() =~= footers.drop_last());
    }
}

/// The copy of `key` in one object, if its footer is loaded and has one.
pub open spec fn copy_in(
    object: ObjectRef,
    footers: Seq<LoadedFooter>,
    volume: u64,
    key: BlockKey,
) -> Option<BlockCopy> {
    if !object.covers(key) {
        None
    } else {
        match footer_of(footers, object.identity) {
            Some(footer) => match footer.entry_for(key) {
                Some(entry) => Some(
                    BlockCopy { entry, own: object.identity.of_volume(volume), object },
                ),
                None => None,
            },
            None => None,
        }
    }
}

/// The copy of `key` that counts.
pub open spec fn best_copy(
    objects: Seq<ObjectRef>,
    footers: Seq<LoadedFooter>,
    volume: u64,
    key: BlockKey,
) -> Option<BlockCopy>
    decreases objects.len(),
{
    if objects.len() == 0 {
        None
    } else {
        let rest = best_copy(objects.drop_last(), footers, volume, key);
        match copy_in(objects.last(), footers, volume, key) {
            Some(copy) => match rest {
                Some(best) => if copy.newer(best) {
                    Some(copy)
                } else {
                    Some(best)
                },
                None => Some(copy),
            },
            None => rest,
        }
    }
}

fn find_best_copy(
    objects: &Vec<ObjectRef>,
    footers: &Vec<LoadedFooter>,
    volume: u64,
    key: BlockKey,
) -> (best: Option<BlockCopy>)
    ensures
        best == best_copy(objects@, footers@, volume, key),
{
    let mut best: Option<BlockCopy> = None;
    let mut i: usize = 0;
    while i < objects.len()
        invariant
            i <= objects@.len(),
            best == best_copy(objects@.take(i as int), footers@, volume, key),
        decreases objects@.len() - i,
    {
        proof {
            assert(objects@.take(i + 1).drop_last() =~= objects@.take(i as int));
        }
        let object: ObjectRef = objects[i];
        if object.covers(key) {
            if let Some(at) = find_footer(footers, object.identity) {
                if let Some(entry) = footers[at].footer.find(key) {
                    let copy = BlockCopy { entry, own: object.identity.of_volume(volume), object };
                    let replace: bool = match best {
                        Some(old_best) => copy.newer(old_best),
                        None => true,
                    };
                    if replace {
                        best = Some(copy);
                    }
                }
            }
        }
        i = i + 1;
    }
    proof {
        assert(objects@.take(i as int) =~= objects@);
    }
    best
}

/// The copy that counts is one of the archive's, and no other is newer.
pub proof fn the_newest_copy_counts(
    objects: Seq<ObjectRef>,
    footers: Seq<LoadedFooter>,
    volume: u64,
    key: BlockKey,
    i: int,
    copy: BlockCopy,
)
    requires
        0 <= i < objects.len(),
        copy_in(objects[i], footers, volume, key) == Some(copy),
    ensures
        best_copy(objects, footers, volume, key) matches Some(best) && !copy.newer(best),
    decreases objects.len(),
{
    let front = objects.drop_last();
    if i < objects.len() - 1 {
        the_newest_copy_counts(front, footers, volume, key, i, copy);
        let best = best_copy(front, footers, volume, key)->0;
        if let Some(last) = copy_in(objects.last(), footers, volume, key) {
            lemma_newer_order(last, best, copy);
        }
    } else {
        lemma_newer_order(copy, copy, copy);
        if let Some(best) = best_copy(front, footers, volume, key) {
            lemma_newer_order(best, copy, copy);
        }
    }
}

proof fn lemma_newer_order(a: BlockCopy, b: BlockCopy, c: BlockCopy)
    ensures
        !a.newer(a),
        a.newer(b) && !c.newer(b) ==> !c.newer(a),
{
    lemma_identity_order(a.object.identity, b.object.identity, c.object.identity);
    lemma_identity_order(c.object.identity, b.object.identity, a.object.identity);
    lemma_identity_order(b.object.identity, c.object.identity, a.object.identity);
}

/// Where an archived copy lies, as a page location.
pub open spec fn copy_location(copy: BlockCopy) -> PageEntry {
    PageEntry {
        generation: copy.entry.generation,
        loc: PageFileLoc {
            base: (if copy.own {
                0
            } else {
                copy.object.identity.namespace_id
            }),
            fence: copy.object.identity.writer_fence,
            object: copy.object.identity.object_id,
            offset: copy.entry.offset,
            len: copy.entry.length,
        },
    }
}

/// The larger of `next` and one more than `generation`.
pub open spec fn past(next: u64, generation: u64) -> u64 {
    if next > sat_add(generation, 1) {
        next
    } else {
        sat_add(generation, 1)
    }
}

/// `after` is `before` with the location of `page` resolved.
pub open spec fn page_resolved(
    before: VolumeState,
    after: VolumeState,
    volume: u64,
    page: u32,
) -> bool {
    let key = before.config.key(page);
    let skip = !before.archived_memory_usable && before.config.is_memory();
    let best = if skip {
        None
    } else {
        best_copy(before.archive_objects@, before.archive_footers@, volume, key)
    };
    &&& after.archive_resolved@ == before.archive_resolved@.insert(page as u64)
    &&& match best {
        None => after == (VolumeState { archive_resolved: after.archive_resolved, ..before }),
        Some(copy) => {
            &&& after == (VolumeState {
                archive_resolved: after.archive_resolved,
                next_gen: past(before.next_gen, copy.entry.generation),
                blocks: after.blocks,
                page_locs: after.page_locs,
                ..before
            })
            &&& if copy.entry.kind == EntryKind::Data {
                &&& after.blocks@ == before.blocks@.insert(
                    key.code(),
                    BlockSum {
                        generation: copy.entry.generation,
                        contribution: copy.entry.contribution,
                    },
                )
                &&& after.page_locs@ == before.page_locs@.insert(page as u64, copy_location(copy))
            } else {
                &&& after.blocks@ == before.blocks@.remove(key.code())
                &&& after.page_locs@ == before.page_locs@.remove(page as u64)
            }
        },
    }
}

/// Resolves the location of a page once every footer that matters is loaded.
/// Memory that must not be used is taken as never written.
pub fn resolve_page(state: &mut VolumeState, volume: u64, page: u32)
    requires
        archive_step_spec(*old(state), page) == ArchiveStep::Resolve,
    ensures
        page_resolved(*old(state), *final(state), volume, page),
{
    let number: u64 = page as u64;
    if !state.archived_memory_usable && state.config.is_memory() {
        state.archive_resolved.insert(number);
        return ;
    }
    let key = state.config.key(page);
    let best = find_best_copy(&state.archive_objects, &state.archive_footers, volume, key);
    state.archive_resolved.insert(number);
    if let Some(copy) = best {
        let after: u64 = copy.entry.generation.saturating_add(1);
        if state.next_gen <= after {
            state.next_gen = after;
        }
        match copy.entry.kind {
            EntryKind::Data => {
                state.blocks.insert(
                    key.code(),
                    BlockSum {
                        generation: copy.entry.generation,
                        contribution: copy.entry.contribution,
                    },
                );
                let base: u64 = if copy.own {
                    0
                } else {
                    copy.object.identity.namespace_id
                };
                let loc = PageFileLoc {
                    base,
                    fence: copy.object.identity.writer_fence,
                    object: copy.object.identity.object_id,
                    offset: copy.entry.offset,
                    len: copy.entry.length,
                };
                state.page_locs.insert(
                    number,
                    PageEntry { generation: copy.entry.generation, loc },
                );
            },
            EntryKind::Tombstone => {
                state.blocks.remove(&key.code());
                state.page_locs.remove(&number);
            },
        }
    }
}

// ---------------------------------------------------------------------------
// Forgetting archived memory
// ---------------------------------------------------------------------------

pub open spec fn is_data_only(object: ObjectRef) -> bool {
    object.first_key.space == BlockSpace::Data && object.last_key.space == BlockSpace::Data
}

/// The object's footer has to be loaded before archived memory and device state
/// can be forgotten.
pub open spec fn needs_footer(object: ObjectRef, footers: Seq<LoadedFooter>) -> bool {
    !is_data_only(object) && footer_of(footers, object.identity) is None
}

/// The first object from `from` on whose footer has to be loaded; their number if
/// there is none.
pub open spec fn next_missing(objects: Seq<ObjectRef>, footers: Seq<LoadedFooter>, from: int) -> int
    decreases objects.len() - from,
{
    if from >= objects.len() {
        objects.len() as int
    } else if needs_footer(objects[from], footers) {
        from
    } else {
        next_missing(objects, footers, from + 1)
    }
}

pub fn find_next_missing(objects: &Vec<ObjectRef>, footers: &Vec<LoadedFooter>, from: usize) -> (at:
    usize)
    requires
        from <= objects@.len(),
    ensures
        at == next_missing(objects@, footers@, from as int),
        from <= at <= objects@.len(),
{
    let mut at: usize = from;
    while at < objects.len()
        invariant
            from <= at <= objects@.len(),
            next_missing(objects@, footers@, at as int) == next_missing(
                objects@,
                footers@,
                from as int,
            ),
        decreases objects@.len() - at,
    {
        let object: ObjectRef = objects[at];
        let data_only: bool = object.first_key.space == BlockSpace::Data && object.last_key.space
            == BlockSpace::Data;
        if !data_only && find_footer(footers, object.identity).is_none() {
            return at;
        }
        at = at + 1;
    }
    at
}

/// The same footers of the same objects, in the same order.
pub open spec fn same_footers(a: Seq<LoadedFooter>, b: Seq<LoadedFooter>) -> bool {
    &&& a.len() == b.len()
    &&& forall|i: int|
        0 <= i < a.len() ==> (#[trigger] a[i]).identity == b[i].identity
            && a[i].footer.entries@ == b[i].footer.entries@
}

pub fn copy_footers(footers: &Vec<LoadedFooter>) -> (copy: Vec<LoadedFooter>)
    ensures
        same_footers(copy@, footers@),
{
    let mut copy: Vec<LoadedFooter> = Vec::new();
    let mut i: usize = 0;
    while i < footers.len()
        invariant
            i <= footers@.len(),
            copy@.len() == i,
            forall|a: int|
                0 <= a < i ==> (#[trigger] copy@[a]).identity == footers@[a].identity
                    && copy@[a].footer.entries@ == footers@[a].footer.entries@,
        decreases footers@.len() - i,
    {
        let listed: &Vec<FooterEntry> = &footers[i].footer.entries;
        let mut entries: Vec<FooterEntry> = Vec::new();
        let mut j: usize = 0;
        while j < listed.len()
            invariant
                j <= listed@.len(),
                entries@ == listed@.take(j as int),
            decreases listed@.len() - j,
        {
            entries.push(listed[j]);
            j = j + 1;
        }
        assert(listed@.take(j as int) =~= listed@);
        copy.push(
            LoadedFooter { identity: footers[i].identity, footer: BlxFooter { entries } },
        );
        i = i + 1;
    }
    copy
}

/// The best copies known so far after one more entry.
pub open spec fn with_copy(best: Map<u64, BlockCopy>, copy: BlockCopy) -> Map<u64, BlockCopy> {
    let code = copy.entry.key.code();
    if copy.entry.key.space == BlockSpace::Data {
        best
    } else if best.contains_key(code) && !copy.newer(best[code]) {
        best
    } else {
        best.insert(code, copy)
    }
}

/// After the first `n` entries of one footer.
pub open spec fn with_entries_of(
    best: Map<u64, BlockCopy>,
    entries: Seq<FooterEntry>,
    own: bool,
    object: ObjectRef,
) -> Map<u64, BlockCopy>
    decreases entries.len(),
{
    if entries.len() == 0 {
        best
    } else {
        with_copy(
            with_entries_of(best, entries.drop_last(), own, object),
            BlockCopy { entry: entries.last(), own, object },
        )
    }
}

/// The best copies of all blocks outside the data space.
pub open spec fn best_non_data(
    objects: Seq<ObjectRef>,
    footers: Seq<LoadedFooter>,
    volume: u64,
) -> Map<u64, BlockCopy>
    decreases objects.len(),
{
    if objects.len() == 0 {
        Map::empty()
    } else {
        let rest = best_non_data(objects.drop_last(), footers, volume);
        match footer_of(footers, objects.last().identity) {
            Some(footer) => with_entries_of(
                rest,
                footer.entries@,
                objects.last().identity.of_volume(volume),
                objects.last(),
            ),
            None => rest,
        }
    }
}

fn add_entries(best: &mut BTreeMap<u64, BlockCopy>, footer: &BlxFooter, own: bool, object: ObjectRef)
    ensures
        final(best)@ == with_entries_of(old(best)@, footer.entries@, own, object),
{
    let mut i: usize = 0;
    while i < footer.entries.len()
        invariant
            i <= footer.entries@.len(),
            best@ == with_entries_of(old(best)@, footer.entries@.take(i as int), own, object),
        decreases footer.entries@.len() - i,
    {
        proof {
            assert(footer.entries@.take(i + 1).drop_last() =~= footer.entries@.take(i as int));
        }
        let copy = BlockCopy { entry: footer.entries[i], own, object };
        let data: bool = match copy.entry.key.space {
            BlockSpace::Data => true,
            _ => false,
        };
        if !data {
            let code: u64 = copy.entry.key.code();
            let replace: bool = match best.get(&code) {
                Some(current) => copy.newer(*current),
                None => true,
            };
            if replace {
                best.insert(code, copy);
            }
        }
        i = i + 1;
    }
    proof {
        assert(footer.entries@.take(i as int) =~= footer.entries@);
    }
}

fn find_best_non_data(objects: &Vec<ObjectRef>, footers: &Vec<LoadedFooter>, volume: u64) -> (best:
    BTreeMap<u64, BlockCopy>)
    ensures
        best@ == best_non_data(objects@, footers@, volume),
{
    let mut best: BTreeMap<u64, BlockCopy> = BTreeMap::new();
    let mut i: usize = 0;
    while i < objects.len()
        invariant
            i <= objects@.len(),
            best@ == best_non_data(objects@.take(i as int), footers@, volume),
        decreases objects@.len() - i,
    {
        proof {
            assert(objects@.take(i + 1).drop_last() =~= objects@.take(i as int));
        }
        let object: ObjectRef = objects[i];
        if let Some(at) = find_footer(footers, object.identity) {
            add_entries(&mut best, &footers[at].footer, object.identity.of_volume(volume), object);
        }
        i = i + 1;
    }
    proof {
        assert(objects@.take(i as int) =~= objects@);
    }
    best
}

/// The checksum without the listed blocks.
pub open spec fn checksum_without(checksum: u64, keys: Seq<u64>, best: Map<u64, BlockCopy>) -> u64
    decreases keys.len(),
{
    if keys.len() == 0 {
        checksum
    } else {
        let rest = checksum_without(checksum, keys.drop_last(), best);
        if best[keys.last()].entry.kind == EntryKind::Data {
            rest ^ best[keys.last()].entry.contribution
        } else {
            rest
        }
    }
}

/// A generation past all of the listed blocks.
pub open spec fn generation_past(next: u64, keys: Seq<u64>, best: Map<u64, BlockCopy>) -> u64
    decreases keys.len(),
{
    if keys.len() == 0 {
        next
    } else {
        past(
            generation_past(next, keys.drop_last(), best),
            best[keys.last()].entry.generation,
        )
    }
}

/// `after` is `before` with archived memory and device state forgotten. It goes by
/// these archived files and these footers, which are the known ones from then on.
pub open spec fn non_data_reset(
    before: VolumeState,
    after: VolumeState,
    volume: u64,
    objects: Seq<ObjectRef>,
    footers: Seq<LoadedFooter>,
) -> bool {
    if before.archived_non_data_reset {
        after == before
    } else {
        let best = best_non_data(objects, footers, volume);
        exists|keys: Seq<u64>| #[trigger]
            lists_keys(keys, best) && after == (VolumeState {
                next_gen: generation_past(before.next_gen, keys, best),
                state_checksum: checksum_without(before.state_checksum, keys, best),
                archive_footers: after.archive_footers,
                archived_non_data_reset: true,
                ..before
            }) && after.archive_footers@ == footers
    }
}

/// Forgets archived memory and device state: what they add to the checksum is
/// taken out, and every later generation supersedes them.
pub fn reset_archived_non_data(
    state: &mut VolumeState,
    volume: u64,
    objects: &Vec<ObjectRef>,
    footers: Vec<LoadedFooter>,
)
    ensures
        non_data_reset(*old(state), *final(state), volume, objects@, footers@),
{
    if state.archived_non_data_reset {
        return ;
    }
    let best: BTreeMap<u64, BlockCopy> = find_best_non_data(objects, &footers, volume);
    let keys: Vec<u64> = sorted_keys(&best);
    let mut next_gen: u64 = state.next_gen;
    let mut checksum: u64 = state.state_checksum;
    let mut i: usize = 0;
    while i < keys.len()
        invariant
            i <= keys@.len(),
            lists_keys(keys@, best@),
            next_gen == generation_past(state.next_gen, keys@.take(i as int), best@),
            checksum == checksum_without(state.state_checksum, keys@.take(i as int), best@),
        decreases keys@.len() - i,
    {
        let code: u64 = keys[i];
        proof {
            assert(keys@.take(i + 1).drop_last() =~= keys@.take(i as int));
            assert(keys@.contains(code));
        }
        if let Some(copy) = best.get(&code) {
            let after: u64 = copy.entry.generation.saturating_add(1);
            if next_gen <= after {
                next_gen = after;
            }
            match copy.entry.kind {
                EntryKind::Data => {
                    checksum = checksum ^ copy.entry.contribution;
                },
                EntryKind::Tombstone => {},
            }
        }
        i = i + 1;
    }
    proof {
        assert(keys@.take(i as int) =~= keys@);
    }
    state.next_gen = next_gen;
    state.state_checksum = checksum;
    state.archive_footers = footers;
    state.archived_non_data_reset = true;
}

} // verus!
