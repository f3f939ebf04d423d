//! What the archive is for: a page is found wherever its newest copy lies.

use super::super::archive::{
    archive_step_spec, best_copy, best_non_data, checksum_without, copy_in, footer_installed,
    footer_of, generation_past, missing_footer, next_missing, non_data_reset, page_resolved,
    the_newest_copy_counts, with_entries_of, ArchiveStep,
};
use super::super::checksum::{
    contributions, lemma_contributions_split, lemma_xor, nothing_contributes_nothing,
};
use super::super::maps::lists_keys;
use super::super::volume::{BlockSum, LoadedFooter, VolumeKind, VolumeState};
use crate::objects::{
    BlockCopy, BlockKey, BlockSpace, BlxFooter, EntryKind, FooterEntry, NamespaceKind,
    ObjectIdentity, ObjectRef,
};
use vstd::prelude::*;

verus! {

/// The footer of an object is the first one loaded for it.
pub proof fn the_first_footer_of_an_object_counts(
    footers: Seq<LoadedFooter>,
    identity: ObjectIdentity,
    i: int,
)
    requires
        0 <= i < footers.len(),
        footers[i].identity == identity,
        forall|j: int| 0 <= j < i ==> (#[trigger] footers[j]).identity != identity,
    ensures
        footer_of(footers, identity) == Some(footers[i].footer),
    decreases footers.len(),
{
    let front = footers.drop_last();
    assert forall|j: int| 0 <= j < i implies (#[trigger] front[j]).identity != identity by {
        assert(footers[j].identity != identity);
    }
    if i < front.len() {
        the_first_footer_of_an_object_counts(front, identity, i);
    } else {
        an_object_without_a_footer_has_none(front, identity);
    }
}

/// An object for which none was loaded has no footer.
pub proof fn an_object_without_a_footer_has_none(
    footers: Seq<LoadedFooter>,
    identity: ObjectIdentity,
)
    requires
        forall|j: int| 0 <= j < footers.len() ==> (#[trigger] footers[j]).identity != identity,
    ensures
        footer_of(footers, identity) is None,
    decreases footers.len(),
{
    if footers.len() > 0 {
        let front = footers.drop_last();
        assert forall|j: int| 0 <= j < front.len() implies (#[trigger] front[j]).identity
            != identity by {
            assert(footers[j].identity != identity);
        }
        an_object_without_a_footer_has_none(front, identity);
        assert(footers[footers.len() - 1].identity != identity);
    }
}

/// The footer to fetch next for a key is that of the first object that may hold
/// it and whose footer is not loaded.
pub proof fn the_next_footer_may_hold_the_key(
    objects: Seq<ObjectRef>,
    footers: Seq<LoadedFooter>,
    key: BlockKey,
    i: int,
)
    requires
        0 <= i < objects.len(),
        objects[i].first_key.code() <= key.code() <= objects[i].last_key.code(),
        footer_of(footers, objects[i].identity) is None,
        forall|j: int|
            0 <= j < i ==> {
                let other = #[trigger] objects[j];
                ||| key.code() < other.first_key.code()
                ||| key.code() > other.last_key.code()
                ||| footer_of(footers, other.identity) is Some
            },
    ensures
        missing_footer(objects, footers, key) == Some(objects[i]),
    decreases objects.len(),
{
    let front = objects.drop_last();
    assert forall|j: int| 0 <= j < i implies {
        let other = #[trigger] front[j];
        ||| key.code() < other.first_key.code()
        ||| key.code() > other.last_key.code()
        ||| footer_of(footers, other.identity) is Some
    } by {
        assert(front[j] == objects[j]);
    }
    if i < front.len() {
        assert(front[i] == objects[i]);
        the_next_footer_may_hold_the_key(front, footers, key, i);
    } else {
        no_footer_is_missing_once_all_are_there(front, footers, key);
        assert(objects.last() == objects[i]);
    }
}

/// Once the footers of all objects that may hold a key are loaded, none is missing.
pub proof fn no_footer_is_missing_once_all_are_there(
    objects: Seq<ObjectRef>,
    footers: Seq<LoadedFooter>,
    key: BlockKey,
)
    requires
        forall|j: int|
            0 <= j < objects.len() ==> {
                let other = #[trigger] objects[j];
                ||| key.code() < other.first_key.code()
                ||| key.code() > other.last_key.code()
                ||| footer_of(footers, other.identity) is Some
            },
    ensures
        missing_footer(objects, footers, key) is None,
    decreases objects.len(),
{
    if objects.len() > 0 {
        let front = objects.drop_last();
        assert forall|j: int| 0 <= j < front.len() implies {
            let other = #[trigger] front[j];
            ||| key.code() < other.first_key.code()
            ||| key.code() > other.last_key.code()
            ||| footer_of(footers, other.identity) is Some
        } by {
            assert(front[j] == objects[j]);
        }
        no_footer_is_missing_once_all_are_there(front, footers, key);
        assert(objects.last() == objects[objects.len() - 1]);
    }
}

/// What has to be done before a page's archived location is known.
pub proof fn a_page_is_resolved_once_all_footers_are_there(state: VolumeState, page: u32)
    ensures
        ({
            let step = archive_step_spec(state, page);
            let known = state.page_locs@.contains_key(page as u64)
                || state.archive_resolved@.contains(page as u64);
            let unusable = !state.archived_memory_usable && state.config.kind == VolumeKind::Memory;
            let missing = missing_footer(
                state.archive_objects@,
                state.archive_footers@,
                state.config.key(page),
            );
            &&& step is Ready <==> known
            &&& step is Resolve <==> !known && (unusable || missing is None)
            &&& step is Fetch <==> !known && !unusable && missing is Some
            &&& step is Fetch ==> step == ArchiveStep::Fetch(missing->0)
        }),
{
}

/// A footer is taken if it is the object's own, and then it is the object's footer;
/// no other object's changes, and nothing else.
pub proof fn a_footer_is_taken_for_its_object(
    before: VolumeState,
    after: VolumeState,
    object: ObjectRef,
    footer: BlxFooter,
    valid: bool,
    other: ObjectIdentity,
)
    requires
        footer_installed(before, after, object, footer, valid),
        other != object.identity,
    ensures
        valid <==> {
            &&& footer.entries@.len() > 0
            &&& footer.entries@[0].key == object.first_key
            &&& footer.entries@[footer.entries@.len() - 1].key == object.last_key
            &&& forall|i: int|
                0 <= i < footer.entries@.len() ==> (#[trigger] footer.entries@[i]).offset
                    + footer.entries@[i].length <= object.footer_offset
        },
        valid && before.archive_objects@.contains(object) ==> footer_of(
            after.archive_footers@,
            object.identity,
        ) == Some(footer),
        !valid ==> after == before,
        footer_of(after.archive_footers@, other) == footer_of(before.archive_footers@, other),
        after.page_locs == before.page_locs,
        after.blocks == before.blocks,
        after.archive_objects == before.archive_objects,
{
}

/// A footer tells of a key by its first entry for it.
pub proof fn a_footer_tells_of_a_key(footer: BlxFooter, key: BlockKey)
    ensures
        footer.entry_for(key) is None <==> forall|i: int|
            0 <= i < footer.entries@.len() ==> (#[trigger] footer.entries@[i]).key != key,
        forall|i: int|
            0 <= i < footer.entries@.len() && (#[trigger] footer.entries@[i]).key == key && (forall|
                j: int,
            |
                0 <= j < i ==> (#[trigger] footer.entries@[j]).key != key) ==> footer.entry_for(key)
                == Some(footer.entries@[i]),
{
    let entries = footer.entries@;
    assert forall|i: int|
        0 <= i < entries.len() && (#[trigger] entries[i]).key == key && (forall|j: int|
            0 <= j < i ==> (#[trigger] entries[j]).key != key) implies footer.entry_for(key)
        == Some(entries[i]) by {
        assert(footer.first_at(key, i));
        let c = choose|c: int| footer.first_at(key, c);
        assert(c == i);
    }
    if exists|i: int| 0 <= i < entries.len() && (#[trigger] entries[i]).key == key {
        let i = choose|i: int| 0 <= i < entries.len() && (#[trigger] entries[i]).key == key;
        lemma_first_of(footer, key, i);
    }
}

proof fn lemma_first_of(footer: BlxFooter, key: BlockKey, i: int) -> (first: int)
    requires
        0 <= i < footer.entries@.len(),
        footer.entries@[i].key == key,
    ensures
        footer.first_at(key, first),
    decreases i,
{
    if exists|j: int| 0 <= j < i && (#[trigger] footer.entries@[j]).key == key {
        let j = choose|j: int| 0 <= j < i && (#[trigger] footer.entries@[j]).key == key;
        lemma_first_of(footer, key, j)
    } else {
        i
    }
}

/// The copy of a block that an object has: what its footer says, if the object may
/// hold the block at all.
pub proof fn an_object_has_the_copy_its_footer_tells_of(
    object: ObjectRef,
    footers: Seq<LoadedFooter>,
    volume: u64,
    key: BlockKey,
)
    ensures
        ({
            let covers = object.first_key.code() <= key.code() <= object.last_key.code();
            let footer = footer_of(footers, object.identity);
            let copy = copy_in(object, footers, volume, key);
            &&& copy is Some <==> covers && footer is Some && footer->0.entry_for(key) is Some
            &&& copy is Some ==> {
                &&& copy->0.entry == footer->0.entry_for(key)->0
                &&& copy->0.object == object
                &&& copy->0.own <==> object.identity.namespace_kind == NamespaceKind::Volume
                    && object.identity.namespace_id == volume
            }
        }),
{
}

proof fn lemma_best_is_a_copy(
    objects: Seq<ObjectRef>,
    footers: Seq<LoadedFooter>,
    volume: u64,
    key: BlockKey,
) -> (i: int)
    requires
        best_copy(objects, footers, volume, key) is Some,
    ensures
        0 <= i < objects.len(),
        copy_in(objects[i], footers, volume, key) == best_copy(objects, footers, volume, key),
    decreases objects.len(),
{
    let front = objects.drop_last();
    if copy_in(objects.last(), footers, volume, key) == best_copy(objects, footers, volume, key) {
        objects.len() - 1
    } else {
        lemma_best_is_a_copy(front, footers, volume, key)
    }
}

/// Of all copies of a block the one with the highest generation counts; of equal
/// ones the volume's own, and of those the one whose object was named last. What
/// counts is always one of the copies.
pub proof fn the_highest_generation_counts(
    objects: Seq<ObjectRef>,
    footers: Seq<LoadedFooter>,
    volume: u64,
    key: BlockKey,
    i: int,
)
    requires
        0 <= i < objects.len(),
        copy_in(objects[i], footers, volume, key) is Some,
    ensures
        best_copy(objects, footers, volume, key) is Some,
        ({
            let best = best_copy(objects, footers, volume, key)->0;
            let copy = copy_in(objects[i], footers, volume, key)->0;
            &&& best.entry.generation >= copy.entry.generation
            &&& best.entry.generation == copy.entry.generation && copy.own ==> best.own
            &&& best.entry.generation == copy.entry.generation && copy.own == best.own ==> !(
            best.object.identity.before(copy.object.identity))
        }),
        exists|k: int|
            0 <= k < objects.len() && copy_in(#[trigger] objects[k], footers, volume, key)
                == best_copy(objects, footers, volume, key),
{
    let copy = copy_in(objects[i], footers, volume, key)->0;
    the_newest_copy_counts(objects, footers, volume, key, i, copy);
    let k = lemma_best_is_a_copy(objects, footers, volume, key);
    assert(copy_in(objects[k], footers, volume, key) == best_copy(objects, footers, volume, key));
}

/// Without any copy a block is not archived.
pub proof fn a_block_without_copies_is_not_archived(
    objects: Seq<ObjectRef>,
    footers: Seq<LoadedFooter>,
    volume: u64,
    key: BlockKey,
)
    requires
        forall|i: int|
            0 <= i < objects.len() ==> copy_in(#[trigger] objects[i], footers, volume, key) is None,
    ensures
        best_copy(objects, footers, volume, key) is None,
{
    if best_copy(objects, footers, volume, key) is Some {
        let k = lemma_best_is_a_copy(objects, footers, volume, key);
        assert(copy_in(objects[k], footers, volume, key) is None);
    }
}

/// A page that is resolved lies where its newest archived copy does; it is gone if
/// that says so, and has no archived content if there is none or if archived
/// memory cannot be used. New generations come after it. No other page changes.
pub proof fn a_resolved_page_lies_where_its_newest_copy_does(
    before: VolumeState,
    after: VolumeState,
    volume: u64,
    page: u32,
    other: u64,
)
    requires
        page_resolved(before, after, volume, page),
        other != page,
    ensures
        ({
            let at = page as u64;
            let key = before.config.key(page);
            let unusable = !before.archived_memory_usable && before.config.kind
                == VolumeKind::Memory;
            let best = best_copy(before.archive_objects@, before.archive_footers@, volume, key);
            &&& after.archive_resolved@.contains(at)
            &&& after.archive_resolved@.contains(other) == before.archive_resolved@.contains(other)
            &&& after.page_locs@.contains_key(other) == before.page_locs@.contains_key(other)
            &&& before.page_locs@.contains_key(other) ==> after.page_locs@[other]
                == before.page_locs@[other]
            &&& unusable || best is None ==> {
                &&& after.page_locs == before.page_locs
                &&& after.blocks == before.blocks
                &&& after.next_gen == before.next_gen
            }
            &&& !unusable && best is Some ==> {
                let copy = best->0;
                &&& after.next_gen >= before.next_gen
                &&& copy.entry.generation < u64::MAX ==> after.next_gen > copy.entry.generation
                &&& copy.entry.kind == EntryKind::Data ==> {
                    let entry = after.page_locs@[at];
                    &&& after.page_locs@.contains_key(at)
                    &&& entry.generation == copy.entry.generation
                    &&& entry.loc.fence == copy.object.identity.writer_fence
                    &&& entry.loc.object == copy.object.identity.object_id
                    &&& entry.loc.offset == copy.entry.offset
                    &&& entry.loc.len == copy.entry.length
                    &&& copy.own ==> entry.loc.base == 0
                    &&& !copy.own ==> entry.loc.base == copy.object.identity.namespace_id
                    &&& after.blocks@.contains_key(key.code())
                    &&& after.blocks@[key.code()] == (BlockSum {
                        generation: copy.entry.generation,
                        contribution: copy.entry.contribution,
                    })
                }
                &&& copy.entry.kind == EntryKind::Tombstone ==> {
                    &&& !after.page_locs@.contains_key(at)
                    &&& !after.blocks@.contains_key(key.code())
                }
            }
            &&& after.state_checksum == before.state_checksum
            &&& after.pages == before.pages
            &&& after.mutation_seq == before.mutation_seq
        }),
{
}

/// The next object whose footer is needed before memory and device state can be
/// left out: the first from `from` on that holds more than data.
pub proof fn the_next_missing_footer_is_the_first(
    objects: Seq<ObjectRef>,
    footers: Seq<LoadedFooter>,
    from: int,
    i: int,
)
    requires
        0 <= from <= objects.len(),
    ensures
        ({
            let found = next_missing(objects, footers, from);
            &&& from <= found <= objects.len()
            &&& found < objects.len() ==> {
                &&& objects[found].first_key.space != BlockSpace::Data
                    || objects[found].last_key.space != BlockSpace::Data
                &&& footer_of(footers, objects[found].identity) is None
            }
            &&& from <= i < found ==> {
                ||| objects[i].first_key.space == BlockSpace::Data && objects[i].last_key.space
                    == BlockSpace::Data
                ||| footer_of(footers, objects[i].identity) is Some
            }
        }),
    decreases objects.len() - from,
{
    if from < objects.len() {
        let first = objects[from];
        let needed = !(first.first_key.space == BlockSpace::Data && first.last_key.space
            == BlockSpace::Data) && footer_of(footers, first.identity) is None;
        if needed {
            assert(next_missing(objects, footers, from) == from);
        } else {
            the_next_missing_footer_is_the_first(objects, footers, from + 1, i);
            assert(next_missing(objects, footers, from) == next_missing(
                objects,
                footers,
                from + 1,
            ));
        }
    }
}

proof fn lemma_entries(
    best: Map<u64, BlockCopy>,
    entries: Seq<FooterEntry>,
    own: bool,
    object: ObjectRef,
    code: u64,
)
    ensures
        best.contains_key(code) ==> with_entries_of(best, entries, own, object).contains_key(code)
            && with_entries_of(best, entries, own, object)[code].entry.generation
            >= best[code].entry.generation,
        forall|i: int|
            0 <= i < entries.len() && (#[trigger] entries[i]).key.code() == code
                && entries[i].key.space != BlockSpace::Data ==> with_entries_of(
                best,
                entries,
                own,
                object,
            ).contains_key(code) && with_entries_of(best, entries, own, object)[code].entry.generation
                >= entries[i].generation,
        with_entries_of(best, entries, own, object).contains_key(code) ==> (best.contains_key(code)
            && with_entries_of(best, entries, own, object)[code] == best[code]) || (exists|i: int|
            {
                &&& 0 <= i < entries.len()
                &&& (#[trigger] entries[i]).key.code() == code
                &&& entries[i].key.space != BlockSpace::Data
                &&& with_entries_of(best, entries, own, object)[code] == (BlockCopy {
                    entry: entries[i],
                    own,
                    object,
                })
            }),
    decreases entries.len(),
{
    if entries.len() > 0 {
        let front = entries.drop_last();
        let end = entries.len() - 1;
        lemma_entries(best, front, own, object, code);
        let rest = with_entries_of(best, front, own, object);
        let all = with_entries_of(best, entries, own, object);
        assert(entries[end] == entries.last());
        assert forall|i: int|
            0 <= i < entries.len() && (#[trigger] entries[i]).key.code() == code
                && entries[i].key.space != BlockSpace::Data implies all.contains_key(code)
            && all[code].entry.generation >= entries[i].generation by {
            if i < end {
                assert(front[i] == entries[i]);
            }
        }
        if all.contains_key(code) && !(best.contains_key(code) && all[code] == best[code]) {
            if rest.contains_key(code) && all[code] == rest[code] {
                let i = choose|i: int|
                    {
                        &&& 0 <= i < front.len()
                        &&& (#[trigger] front[i]).key.code() == code
                        &&& front[i].key.space != BlockSpace::Data
                        &&& rest[code] == (BlockCopy { entry: front[i], own, object })
                    };
                assert(entries[i] == front[i]);
            } else {
                assert(entries[end].key.code() == code);
            }
        }
    }
}

/// Of memory and device state too the highest generation counts, and every block
/// of them that any footer tells of is known.
pub proof fn the_highest_generation_counts_beside_data(
    objects: Seq<ObjectRef>,
    footers: Seq<LoadedFooter>,
    volume: u64,
    code: u64,
    i: int,
    e: int,
)
    requires
        0 <= i < objects.len(),
        footer_of(footers, objects[i].identity) is Some,
        0 <= e < footer_of(footers, objects[i].identity)->0.entries@.len(),
        footer_of(footers, objects[i].identity)->0.entries@[e].key.code() == code,
        footer_of(footers, objects[i].identity)->0.entries@[e].key.space != BlockSpace::Data,
    ensures
        best_non_data(objects, footers, volume).contains_key(code),
        best_non_data(objects, footers, volume)[code].entry.generation >= footer_of(
            footers,
            objects[i].identity,
        )->0.entries@[e].generation,
    decreases objects.len(),
{
    let front = objects.drop_last();
    let last = objects.last();
    let rest = best_non_data(front, footers, volume);
    if let Some(footer) = footer_of(footers, last.identity) {
        lemma_entries(rest, footer.entries@, last.identity.of_volume(volume), last, code);
    }
    if i < front.len() {
        assert(front[i] == objects[i]);
        the_highest_generation_counts_beside_data(front, footers, volume, code, i, e);
    } else {
        assert(footer_of(footers, last.identity)->0.entries@[e].key.code() == code);
    }
}

/// What counts of memory and device state is what a footer tells of, and never
/// data.
pub proof fn only_archived_blocks_count_beside_data(
    objects: Seq<ObjectRef>,
    footers: Seq<LoadedFooter>,
    volume: u64,
    code: u64,
)
    requires
        best_non_data(objects, footers, volume).contains_key(code),
    ensures
        ({
            let copy = best_non_data(objects, footers, volume)[code];
            &&& copy.entry.key.space != BlockSpace::Data
            &&& copy.entry.key.code() == code
            &&& exists|i: int|
                {
                    &&& 0 <= i < objects.len()
                    &&& #[trigger] objects[i] == copy.object
                    &&& footer_of(footers, objects[i].identity) is Some
                    &&& footer_of(footers, objects[i].identity)->0.entries@.contains(copy.entry)
                }
        }),
    decreases objects.len(),
{
    let front = objects.drop_last();
    let last = objects.last();
    let end = objects.len() - 1;
    let rest = best_non_data(front, footers, volume);
    let all = best_non_data(objects, footers, volume);
    if let Some(footer) = footer_of(footers, last.identity) {
        lemma_entries(rest, footer.entries@, last.identity.of_volume(volume), last, code);
    }
    if rest.contains_key(code) && all[code] == rest[code] {
        only_archived_blocks_count_beside_data(front, footers, volume, code);
        let i = choose|i: int|
            {
                &&& 0 <= i < front.len()
                &&& #[trigger] front[i] == all[code].object
                &&& footer_of(footers, front[i].identity) is Some
                &&& footer_of(footers, front[i].identity)->0.entries@.contains(all[code].entry)
            };
        assert(objects[i] == all[code].object);
    } else {
        assert(objects[end] == all[code].object);
    }
}

proof fn lemma_checksum_without(
    checksum: u64,
    keys: Seq<u64>,
    best: Map<u64, BlockCopy>,
    blocks: Map<u64, BlockSum>,
)
    requires
        keys.no_duplicates(),
        blocks.dom().finite(),
        forall|k: u64| #[trigger]
            blocks.contains_key(k) <==> keys.contains(k) && best[k].entry.kind == EntryKind::Data,
        forall|k: u64| #[trigger]
            blocks.contains_key(k) ==> blocks[k].contribution == best[k].entry.contribution,
    ensures
        checksum_without(checksum, keys, best) == checksum ^ contributions(blocks),
    decreases keys.len(),
{
    if keys.len() == 0 {
        assert(blocks =~= Map::<u64, BlockSum>::empty());
        nothing_contributes_nothing();
        lemma_xor(checksum, 0, 0);
    } else {
        let front = keys.drop_last();
        let last = keys.last();
        let fewer = blocks.remove(last);
        assert forall|k: u64| #[trigger] fewer.contains_key(k) <==> front.contains(k)
            && best[k].entry.kind == EntryKind::Data by {
            if keys.contains(k) && k != last {
                let i = choose|i: int| 0 <= i < keys.len() && keys[i] == k;
                assert(front[i] == k);
            }
            if front.contains(k) {
                let i = choose|i: int| 0 <= i < front.len() && front[i] == k;
                assert(keys[i] == k);
                assert(keys[keys.len() - 1] == last);
            }
            assert(fewer.contains_key(k) <==> blocks.contains_key(k) && k != last);
        }
        assert forall|k: u64| #[trigger] fewer.contains_key(k) implies fewer[k].contribution
            == best[k].entry.contribution by {
            assert(blocks.contains_key(k));
        }
        lemma_checksum_without(checksum, front, best, fewer);
        assert(keys[keys.len() - 1] == last);
        assert(keys.contains(last));
        let has = blocks.contains_key(last);
        if has {
            lemma_contributions_split(blocks, last);
            let rest = contributions(fewer);
            let one = blocks[last].contribution;
            lemma_xor(checksum, rest, one);
            lemma_xor(one, rest, 0);
        } else {
            assert(fewer =~= blocks);
        }
    }
}

proof fn lemma_generation_past(next: u64, keys: Seq<u64>, best: Map<u64, BlockCopy>)
    ensures
        generation_past(next, keys, best) >= next,
        forall|i: int|
            0 <= i < keys.len() && best[#[trigger] keys[i]].entry.generation < u64::MAX
                ==> generation_past(next, keys, best) > best[keys[i]].entry.generation,
    decreases keys.len(),
{
    if keys.len() > 0 {
        let front = keys.drop_last();
        lemma_generation_past(next, front, best);
        assert forall|i: int|
            0 <= i < keys.len() && best[#[trigger] keys[i]].entry.generation < u64::MAX implies
            generation_past(next, keys, best) > best[keys[i]].entry.generation by {
            if i < front.len() {
                assert(front[i] == keys[i]);
            }
        }
    }
}

/// Leaving memory and device state out of an archived state leaves the checksum of
/// its data: what every block of them contributes is taken out, once. Generations
/// given out later come after all of theirs. It is done once.
pub proof fn leaving_memory_out_leaves_the_data(
    before: VolumeState,
    after: VolumeState,
    volume: u64,
    objects: Seq<ObjectRef>,
    footers: Seq<LoadedFooter>,
    blocks: Map<u64, BlockSum>,
    code: u64,
)
    requires
        non_data_reset(before, after, volume, objects, footers),
        blocks.dom().finite(),
        forall|k: u64| #[trigger]
            blocks.contains_key(k) <==> best_non_data(objects, footers, volume).contains_key(k)
                && best_non_data(objects, footers, volume)[k].entry.kind == EntryKind::Data,
        forall|k: u64| #[trigger]
            blocks.contains_key(k) ==> blocks[k].contribution == best_non_data(
                objects,
                footers,
                volume,
            )[k].entry.contribution,
    ensures
        after.archived_non_data_reset,
        before.archived_non_data_reset ==> after == before,
        !before.archived_non_data_reset ==> {
            &&& after.state_checksum == before.state_checksum ^ contributions(blocks)
            &&& after.archive_footers@ == footers
            &&& best_non_data(objects, footers, volume).contains_key(code) && best_non_data(
                objects,
                footers,
                volume,
            )[code].entry.generation < u64::MAX ==> after.next_gen > best_non_data(
                objects,
                footers,
                volume,
            )[code].entry.generation
        },
        after.next_gen >= before.next_gen,
        after.page_locs == before.page_locs,
        after.blocks == before.blocks,
        after.mutation_seq == before.mutation_seq,
{
    if !before.archived_non_data_reset {
        let best = best_non_data(objects, footers, volume);
        let keys = choose|keys: Seq<u64>| #[trigger]
            lists_keys(keys, best) && after == (VolumeState {
                next_gen: generation_past(before.next_gen, keys, best),
                state_checksum: checksum_without(before.state_checksum, keys, best),
                archive_footers: after.archive_footers,
                archived_non_data_reset: true,
                ..before
            }) && after.archive_footers@ == footers;
        assert(keys.no_duplicates()) by {
            assert forall|i: int, j: int| 0 <= i < keys.len() && 0 <= j < keys.len() && i
                != j implies keys[i] != keys[j] by {
                if i < j {
                    assert(keys[i] < keys[j]);
                } else {
                    assert(keys[j] < keys[i]);
                }
            }
        }
        lemma_checksum_without(before.state_checksum, keys, best, blocks);
        lemma_generation_past(before.next_gen, keys, best);
        if best.contains_key(code) {
            assert(keys.contains(code));
            let i = choose|i: int| 0 <= i < keys.len() && keys[i] == code;
            assert(best[keys[i]] == best[code]);
        }
    }
}

} // verus!
