//! How a change of a database vset becomes a committed record.
//!
//! A commit is planned against the vset as it is, staged beside it, written
//! out by the runtime, and only then takes effect. Whatever fails before that
//! leaves the vset as it was.

use super::maps::{insert_each, lists_keys, members, remove_all, remove_each, sorted_keys};
use super::state::{
    follows, BlobLedger, Counters, HostState, LeafBlob, MutationOwner, Operations, SegmentBlob,
    VsetState,
};
use crate::database::DatabaseFile;
use crate::journal::{
    key_page, key_span, key_volume, page_key, span_of, BlobName, DatabaseMeta, JournalRecord,
    LeafPointer, MigrationSource, PageLoc, RecordKind, VsetConfig,
};
use crate::types::VsetId;
use std::collections::{BTreeMap, BTreeSet};
use vstd::prelude::*;

verus! {

broadcast use vstd::std_specs::btree::group_btree_axioms;

#[derive(Clone, Copy, Debug, PartialEq, Eq, Structural)]
pub enum DatabasePersistError {
    Stale,
    Busy,
    Overflow,
    Capacity,
    Fatal,
}

// ---------------------------------------------------------------------------
// Cutting a file
// ---------------------------------------------------------------------------

/// The page map of a vset, apart from it.
pub struct PageMap {
    pub page_locs: BTreeMap<u64, PageLoc>,
    /// Pages that no leaf holds yet.
    pub overlay: BTreeMap<u64, PageLoc>,
    pub leaf_table: BTreeMap<u64, LeafPointer>,
    pub hydrated_spans: BTreeSet<u64>,
    pub failed_spans: BTreeSet<u64>,
}

/// First and last leaf that can cover pages of `file` from `first_removed` on.
pub open spec fn cut_spans(config: VsetConfig, file: DatabaseFile, first_removed: u64) -> (u64, u64) {
    let first_page = if first_removed <= u32::MAX {
        first_removed as u32
    } else {
        u32::MAX
    };
    let last_page = if config.pages_per_volume == 0 {
        0u32
    } else {
        (config.pages_per_volume - 1) as u32
    };
    (
        key_span(page_key(file.page(VsetId(0), first_page))),
        key_span(page_key(file.page(VsetId(0), last_page))),
    )
}

fn cut_range(config: VsetConfig, file: DatabaseFile, first_removed: u64) -> (spans: (u64, u64))
    ensures
        spans == cut_spans(config, file, first_removed),
{
    let first_page: u32 = if first_removed <= u32::MAX as u64 {
        first_removed as u32
    } else {
        u32::MAX
    };
    let last_page: u32 = config.pages_per_volume.saturating_sub(1);
    (span_of(file.page(VsetId(0), first_page)), span_of(file.page(VsetId(0), last_page)))
}

/// Leaves that have to be loaded before `file` can be cut at `first_removed`,
/// in order.
pub fn prune_spans(state: &VsetState, file: DatabaseFile, first_removed: u64) -> (spans: Vec<u64>)
    ensures
        forall|i: int, j: int| 0 <= i < j < spans@.len() ==> spans@[i] < spans@[j],
        forall|span: u64| #[trigger]
            spans@.contains(span) <==> {
                &&& state.leaf_table@.contains_key(span)
                &&& cut_spans(state.config, file, first_removed).0 <= span
                &&& span <= cut_spans(state.config, file, first_removed).1
            },
{
    let (first, last) = cut_range(state.config, file, first_removed);
    spans_between(&state.leaf_table, first, last)
}

/// Leaves numbered from `first` to `last`, in order.
fn spans_between(leaves: &BTreeMap<u64, LeafPointer>, first: u64, last: u64) -> (spans: Vec<u64>)
    ensures
        forall|i: int, j: int| 0 <= i < j < spans@.len() ==> spans@[i] < spans@[j],
        forall|span: u64| #[trigger]
            spans@.contains(span) <==> leaves@.contains_key(span) && first <= span <= last,
{
    let keys: Vec<u64> = sorted_keys(leaves);
    let mut spans: Vec<u64> = Vec::new();
    let mut i: usize = 0;
    while i < keys.len()
        invariant
            i <= keys@.len(),
            lists_keys(keys@, leaves@),
            forall|a: int, b: int| 0 <= a < b < spans@.len() ==> spans@[a] < spans@[b],
            forall|a: int| 0 <= a < spans@.len() && i < keys@.len() ==> spans@[a] < keys@[i as int],
            forall|a: int|
                0 <= a < spans@.len() ==> leaves@.contains_key(#[trigger] spans@[a]) && first
                    <= spans@[a] <= last,
            forall|a: int|
                0 <= a < i && first <= #[trigger] keys@[a] <= last ==> spans@.contains(keys@[a]),
        decreases keys@.len() - i,
    {
        let span: u64 = keys[i];
        let ghost had = spans@;
        if first <= span && span <= last {
            spans.push(span);
            proof {
                assert(keys@.contains(span));
                assert forall|a: int|
                    0 <= a < i + 1 && first <= #[trigger] keys@[a] <= last implies spans@.contains(
                    keys@[a],
                ) by {
                    if a < i {
                        let b = choose|b: int| 0 <= b < had.len() && had[b] == keys@[a];
                        assert(spans@[b] == keys@[a]);
                    } else {
                        assert(spans@[had.len() as int] == span);
                    }
                }
            }
        }
        i = i + 1;
    }
    proof {
        assert forall|span: u64| #[trigger] spans@.contains(span) <==> leaves@.contains_key(span)
            && first <= span <= last by {
            if leaves@.contains_key(span) && first <= span <= last {
                assert(keys@.contains(span));
                let a = choose|a: int| 0 <= a < keys@.len() && keys@[a] == span;
            }
        }
    }
    spans
}

/// Whether cutting `file` at `first_removed` removes the page at `key`.
pub open spec fn is_cut(file: DatabaseFile, first_removed: u64, key: u64) -> bool {
    key_volume(key) == file.volume_index().0 && key_page(key) >= first_removed
}

/// Leaves that no longer describe their pages once the file is cut.
pub open spec fn is_affected(
    map: PageMap,
    config: VsetConfig,
    file: DatabaseFile,
    first_removed: u64,
    span: u64,
) -> bool {
    ||| exists|key: u64| #[trigger]
        map.page_locs@.contains_key(key) && is_cut(file, first_removed, key) && key_span(key)
            == span
    ||| map.leaf_table@.contains_key(span) && cut_spans(config, file, first_removed).0 <= span
        && span <= cut_spans(config, file, first_removed).1
}

/// `after` is `before` with `file` cut at `first_removed`: the cut pages are
/// gone, and every leaf that described one is replaced by what is left of it.
pub open spec fn pruned(
    before: PageMap,
    after: PageMap,
    config: VsetConfig,
    file: DatabaseFile,
    first_removed: u64,
) -> bool {
    let hit = |span: u64| is_affected(before, config, file, first_removed, span);
    &&& forall|key: u64| #[trigger]
        after.page_locs@.contains_key(key) <==> before.page_locs@.contains_key(key) && !is_cut(
            file,
            first_removed,
            key,
        )
    &&& forall|key: u64| #[trigger]
        after.page_locs@.contains_key(key) ==> after.page_locs@[key] == before.page_locs@[key]
    &&& forall|key: u64| #[trigger]
        after.overlay@.contains_key(key) <==> if hit(key_span(key)) {
            after.page_locs@.contains_key(key)
        } else {
            before.overlay@.contains_key(key) && !(before.page_locs@.contains_key(key) && is_cut(
                file,
                first_removed,
                key,
            ))
        }
    &&& forall|key: u64| #[trigger]
        after.overlay@.contains_key(key) ==> after.overlay@[key] == if hit(key_span(key)) {
            before.page_locs@[key]
        } else {
            before.overlay@[key]
        }
    &&& forall|span: u64| #[trigger]
        after.leaf_table@.contains_key(span) <==> before.leaf_table@.contains_key(span) && !hit(
            span,
        )
    &&& forall|span: u64| #[trigger]
        after.leaf_table@.contains_key(span) ==> after.leaf_table@[span] == before.leaf_table@[span]
    &&& forall|span: u64| #[trigger]
        after.hydrated_spans@.contains(span) <==> before.hydrated_spans@.contains(span) || hit(span)
    &&& forall|span: u64| #[trigger]
        after.failed_spans@.contains(span) <==> before.failed_spans@.contains(span) && !hit(span)
}

/// Keys of `locs` that cutting `file` removes.
fn cut_keys(locs: &BTreeMap<u64, PageLoc>, file: DatabaseFile, first_removed: u64) -> (keys: Vec<
    u64,
>)
    ensures
        forall|key: u64| #[trigger]
            keys@.contains(key) <==> locs@.contains_key(key) && is_cut(file, first_removed, key),
{
    let all: Vec<u64> = sorted_keys(locs);
    let idx: u64 = file.volume_index().0 as u64;
    let mut keys: Vec<u64> = Vec::new();
    let mut i: usize = 0;
    while i < all.len()
        invariant
            i <= all@.len(),
            idx == file.volume_index().0,
            lists_keys(all@, locs@),
            forall|a: int|
                0 <= a < keys@.len() ==> locs@.contains_key(#[trigger] keys@[a]) && is_cut(
                    file,
                    first_removed,
                    keys@[a],
                ),
            forall|a: int|
                0 <= a < i && is_cut(file, first_removed, #[trigger] all@[a]) ==> keys@.contains(
                    all@[a],
                ),
        decreases all@.len() - i,
    {
        let key: u64 = all[i];
        let ghost had = keys@;
        if key_volume(key) == idx && key_page(key) >= first_removed {
            keys.push(key);
            proof {
                assert(all@.contains(key));
            }
        }
        proof {
            assert forall|a: int|
                0 <= a < i + 1 && is_cut(file, first_removed, #[trigger] all@[a]) implies keys@.contains(
            all@[a]) by {
                if a < i {
                    let b = choose|b: int| 0 <= b < had.len() && had[b] == all@[a];
                    assert(keys@[b] == all@[a]);
                } else {
                    assert(keys@[had.len() as int] == key);
                }
            }
        }
        i = i + 1;
    }
    proof {
        assert forall|key: u64| #[trigger] keys@.contains(key) <==> locs@.contains_key(key)
            && is_cut(file, first_removed, key) by {
            if locs@.contains_key(key) && is_cut(file, first_removed, key) {
                assert(all@.contains(key));
                let a = choose|a: int| 0 <= a < all@.len() && all@[a] == key;
            }
        }
    }
    keys
}

/// The leaves that the keys of `removed` lie in, and the listed ones.
fn hit_spans(removed: &Vec<u64>, listed: &Vec<u64>) -> (spans: BTreeSet<u64>)
    ensures
        forall|span: u64| #[trigger]
            spans@.contains(span) <==> (exists|i: int|
                0 <= i < removed@.len() && key_span(#[trigger] removed@[i]) == span)
                || listed@.contains(span),
{
    let mut spans: BTreeSet<u64> = BTreeSet::new();
    let mut i: usize = 0;
    while i < removed.len()
        invariant
            i <= removed@.len(),
            forall|span: u64| #[trigger]
                spans@.contains(span) <==> exists|a: int|
                    0 <= a < i && key_span(#[trigger] removed@[a]) == span,
        decreases removed@.len() - i,
    {
        let span: u64 = key_span(removed[i]);
        let ghost had = spans@;
        spans.insert(span);
        proof {
            assert forall|s: u64| #[trigger] spans@.contains(s) <==> exists|a: int|
                0 <= a < i + 1 && key_span(#[trigger] removed@[a]) == s by {
                if had.contains(s) {
                    let a = choose|a: int| 0 <= a < i && key_span(#[trigger] removed@[a]) == s;
                    assert(key_span(removed@[a]) == s);
                }
                if s == span {
                    assert(key_span(removed@[i as int]) == s);
                }
            }
        }
        i = i + 1;
    }
    let mut j: usize = 0;
    while j < listed.len()
        invariant
            i == removed@.len(),
            j <= listed@.len(),
            forall|span: u64| #[trigger]
                spans@.contains(span) <==> (exists|a: int|
                    0 <= a < i && key_span(#[trigger] removed@[a]) == span) || exists|b: int|
                    0 <= b < j && #[trigger] listed@[b] == span,
        decreases listed@.len() - j,
    {
        let span: u64 = listed[j];
        let ghost had = spans@;
        spans.insert(span);
        proof {
            assert forall|s: u64| #[trigger] spans@.contains(s) <==> (exists|a: int|
                0 <= a < i && key_span(#[trigger] removed@[a]) == s) || exists|b: int|
                0 <= b < j + 1 && #[trigger] listed@[b] == s by {
                if s == span {
                    assert(listed@[j as int] == s);
                }
                if had.contains(s) {
                    if exists|b: int| 0 <= b < j && #[trigger] listed@[b] == s {
                        let b = choose|b: int| 0 <= b < j && #[trigger] listed@[b] == s;
                        assert(listed@[b] == s);
                    }
                }
            }
        }
        j = j + 1;
    }
    spans
}

/// The overlay once the leaves in `hit` are dropped: their remaining pages
/// move into it.
fn rebuilt_overlay(
    overlay: &BTreeMap<u64, PageLoc>,
    page_locs: &BTreeMap<u64, PageLoc>,
    hit: &BTreeSet<u64>,
) -> (rebuilt: BTreeMap<u64, PageLoc>)
    ensures
        forall|key: u64| #[trigger]
            rebuilt@.contains_key(key) <==> if hit@.contains(key_span(key)) {
                page_locs@.contains_key(key)
            } else {
                overlay@.contains_key(key)
            },
        forall|key: u64| #[trigger]
            rebuilt@.contains_key(key) ==> rebuilt@[key] == if hit@.contains(key_span(key)) {
                page_locs@[key]
            } else {
                overlay@[key]
            },
{
    let mut rebuilt: BTreeMap<u64, PageLoc> = BTreeMap::new();
    let old_keys: Vec<u64> = sorted_keys(overlay);
    let mut i: usize = 0;
    while i < old_keys.len()
        invariant
            i <= old_keys@.len(),
            lists_keys(old_keys@, overlay@),
            forall|key: u64| #[trigger]
                rebuilt@.contains_key(key) <==> !hit@.contains(key_span(key)) && exists|a: int|
                    0 <= a < i && #[trigger] old_keys@[a] == key,
            forall|key: u64| #[trigger]
                rebuilt@.contains_key(key) ==> rebuilt@[key] == overlay@[key],
        decreases old_keys@.len() - i,
    {
        let key: u64 = old_keys[i];
        let ghost had = rebuilt@;
        proof {
            assert(old_keys@.contains(key));
        }
        if !hit.contains(&key_span(key)) {
            if let Some(loc) = overlay.get(&key) {
                rebuilt.insert(key, *loc);
            }
        }
        proof {
            assert forall|k: u64| #[trigger] rebuilt@.contains_key(k) <==> !hit@.contains(
                key_span(k),
            ) && exists|a: int| 0 <= a < i + 1 && #[trigger] old_keys@[a] == k by {
                if k == key {
                    assert(old_keys@[i as int] == k);
                }
                if exists|a: int| 0 <= a < i && #[trigger] old_keys@[a] == k {
                    let a = choose|a: int| 0 <= a < i && #[trigger] old_keys@[a] == k;
                    assert(old_keys@[a] == k);
                }
            }
        }
        i = i + 1;
    }
    let new_keys: Vec<u64> = sorted_keys(page_locs);
    let mut j: usize = 0;
    proof {
        assert forall|key: u64| #[trigger] rebuilt@.contains_key(key) <==> if hit@.contains(
            key_span(key),
        ) {
            exists|b: int| 0 <= b < 0 && #[trigger] new_keys@[b] == key
        } else {
            overlay@.contains_key(key)
        } by {
            if overlay@.contains_key(key) {
                assert(old_keys@.contains(key));
                let a = choose|a: int| 0 <= a < old_keys@.len() && old_keys@[a] == key;
                assert(old_keys@[a] == key);
            }
            if rebuilt@.contains_key(key) {
                let a = choose|a: int| 0 <= a < i && #[trigger] old_keys@[a] == key;
                assert(old_keys@.contains(key));
            }
        }
    }
    while j < new_keys.len()
        invariant
            j <= new_keys@.len(),
            lists_keys(new_keys@, page_locs@),
            forall|key: u64| #[trigger]
                rebuilt@.contains_key(key) <==> if hit@.contains(key_span(key)) {
                    exists|b: int| 0 <= b < j && #[trigger] new_keys@[b] == key
                } else {
                    overlay@.contains_key(key)
                },
            forall|key: u64| #[trigger]
                rebuilt@.contains_key(key) ==> rebuilt@[key] == if hit@.contains(key_span(key)) {
                    page_locs@[key]
                } else {
                    overlay@[key]
                },
        decreases new_keys@.len() - j,
    {
        let key: u64 = new_keys[j];
        let ghost had = rebuilt@;
        proof {
            assert(new_keys@.contains(key));
        }
        if hit.contains(&key_span(key)) {
            if let Some(loc) = page_locs.get(&key) {
                rebuilt.insert(key, *loc);
            }
        }
        proof {
            assert forall|k: u64| #[trigger] rebuilt@.contains_key(k) <==> if hit@.contains(
                key_span(k),
            ) {
                exists|b: int| 0 <= b < j + 1 && #[trigger] new_keys@[b] == k
            } else {
                overlay@.contains_key(k)
            } by {
                if k == key {
                    assert(new_keys@[j as int] == k);
                }
                if exists|b: int| 0 <= b < j && #[trigger] new_keys@[b] == k {
                    let b = choose|b: int| 0 <= b < j && #[trigger] new_keys@[b] == k;
                    assert(new_keys@[b] == k);
                }
                assert(had.contains_key(k) ==> rebuilt@.contains_key(k));
            }
        }
        j = j + 1;
    }
    proof {
        assert forall|key: u64| #[trigger] rebuilt@.contains_key(key) <==> if hit@.contains(
            key_span(key),
        ) {
            page_locs@.contains_key(key)
        } else {
            overlay@.contains_key(key)
        } by {
            if page_locs@.contains_key(key) {
                assert(new_keys@.contains(key));
                let b = choose|b: int| 0 <= b < new_keys@.len() && new_keys@[b] == key;
                assert(new_keys@[b] == key);
            }
            if exists|b: int| 0 <= b < j && #[trigger] new_keys@[b] == key {
                let b = choose|b: int| 0 <= b < j && #[trigger] new_keys@[b] == key;
                assert(new_keys@.contains(key));
            }
        }
    }
    rebuilt
}

/// Cuts `file` at page `first_removed`.
fn prune_file(map: &mut PageMap, config: VsetConfig, file: DatabaseFile, first_removed: u64)
    ensures
        pruned(*old(map), *final(map), config, file, first_removed),
{
    let ghost before = *map;
    let removed: Vec<u64> = cut_keys(&map.page_locs, file, first_removed);
    let (first, last) = cut_range(config, file, first_removed);
    let listed: Vec<u64> = spans_between(&map.leaf_table, first, last);
    let hit: BTreeSet<u64> = hit_spans(&removed, &listed);
    proof {
        assert forall|span: u64| #[trigger] hit@.contains(span) <==> is_affected(
            before,
            config,
            file,
            first_removed,
            span,
        ) by {
            if exists|i: int| 0 <= i < removed@.len() && key_span(#[trigger] removed@[i]) == span {
                let i = choose|i: int|
                    0 <= i < removed@.len() && key_span(#[trigger] removed@[i]) == span;
                assert(removed@.contains(removed@[i]));
            }
            if exists|key: u64| #[trigger]
                before.page_locs@.contains_key(key) && is_cut(file, first_removed, key)
                    && key_span(key) == span {
                let key = choose|key: u64| #[trigger]
                    before.page_locs@.contains_key(key) && is_cut(file, first_removed, key)
                        && key_span(key) == span;
                assert(removed@.contains(key));
                let i = choose|i: int| 0 <= i < removed@.len() && removed@[i] == key;
                assert(key_span(removed@[i]) == span);
            }
        }
    }
    remove_all(&mut map.page_locs, &removed);
    remove_all(&mut map.overlay, &removed);
    proof {
        assert forall|key: u64| #[trigger] removed@.to_set().contains(key) <==> removed@.contains(
            key,
        ) by {}
    }
    let overlay: BTreeMap<u64, PageLoc> = rebuilt_overlay(&map.overlay, &map.page_locs, &hit);
    map.overlay = overlay;
    let spans: Vec<u64> = members(&hit);
    remove_all(&mut map.leaf_table, &spans);
    insert_each(&mut map.hydrated_spans, &spans);
    remove_each(&mut map.failed_spans, &spans);
    proof {
        assert forall|span: u64| #[trigger] spans@.to_set().contains(span) <==> spans@.contains(
            span,
        ) by {}
        assert forall|key: u64| #[trigger] map.overlay@.contains_key(key) <==> if hit@.contains(
            key_span(key),
        ) {
            map.page_locs@.contains_key(key)
        } else {
            before.overlay@.contains_key(key) && !(before.page_locs@.contains_key(key) && is_cut(
                file,
                first_removed,
                key,
            ))
        } by {
            assert(removed@.contains(key) <==> before.page_locs@.contains_key(key) && is_cut(
                file,
                first_removed,
                key,
            ));
        }
    }
}

/// The overlay never disagrees with the page map.
pub open spec fn overlay_agrees(map: PageMap) -> bool {
    forall|key: u64| #[trigger]
        map.overlay@.contains_key(key) ==> map.page_locs@.contains_key(key) && map.page_locs@[key]
            == map.overlay@[key]
}

/// Cutting a file takes exactly its pages from `first_removed` on: no other
/// page moves, and an overlay that agreed with the map still does.
pub proof fn cutting_touches_only_its_file(
    before: PageMap,
    after: PageMap,
    config: VsetConfig,
    file: DatabaseFile,
    first_removed: u64,
)
    requires
        pruned(before, after, config, file, first_removed),
        overlay_agrees(before),
    ensures
        overlay_agrees(after),
        after.page_locs@ == before.page_locs@.remove_keys(
            Set::new(|key: u64| is_cut(file, first_removed, key)),
        ),
{
    assert forall|key: u64| #[trigger] after.overlay@.contains_key(key) implies
        after.page_locs@.contains_key(key) && after.page_locs@[key] == after.overlay@[key] by {
        assert(after.page_locs@.contains_key(key) <==> before.page_locs@.contains_key(key)
            && !is_cut(file, first_removed, key));
    }
}

// ---------------------------------------------------------------------------
// Planning and staging
// ---------------------------------------------------------------------------

/// The numbers a commit takes, and what it carries over from the vset.
#[derive(Clone, Copy, PartialEq, Eq, Debug, Structural)]
pub struct PersistPlan {
    pub incarnation: u64,
    pub config: VsetConfig,
    pub fence: u64,
    pub seq: u64,
    pub capture_seq: u64,
    pub first_segment: u64,
    /// Generation of the first updated page; the others follow.
    pub first_generation: u64,
    pub sequence_after: u64,
    pub generation_after: u64,
    pub covered: u64,
    pub migrated_from: Option<MigrationSource>,
}

pub open spec fn persist_plan(
    state: VsetState,
    updates: nat,
    mutation: bool,
    sync_barrier: Option<u64>,
) -> Result<PersistPlan, DatabasePersistError> {
    if !state.ready {
        Err(DatabasePersistError::Stale)
    } else if state.operations.mutation_blocked() {
        Err(DatabasePersistError::Busy)
    } else if (mutation && state.mutation_seq == u64::MAX) || state.next_seq == u64::MAX
        || state.next_gen + updates > u64::MAX {
        Err(DatabasePersistError::Overflow)
    } else {
        Ok(
            PersistPlan {
                incarnation: state.incarnation,
                config: state.config,
                fence: state.fence,
                seq: state.next_seq,
                capture_seq: (state.mutation_seq + if mutation {
                    1int
                } else {
                    0
                }) as u64,
                first_segment: state.next_seg,
                first_generation: state.next_gen,
                sequence_after: (state.next_seq + 1) as u64,
                generation_after: (state.next_gen + updates) as u64,
                covered: match sync_barrier {
                    Some(barrier) => if state.local_covered_through >= barrier {
                        state.local_covered_through
                    } else {
                        barrier
                    },
                    None => state.local_covered_through,
                },
                migrated_from: match state.peer_source {
                    Some(host) => Some(
                        MigrationSource { host, offer_fence: state.peer_source_offer_fence },
                    ),
                    None => None,
                },
            },
        )
    }
}

/// Plans a commit of `updates` pages. A commit that is no mutation only raises
/// what is covered.
pub fn plan_persist(
    state: Option<&VsetState>,
    updates: usize,
    mutation: bool,
    sync_barrier: Option<u64>,
) -> (plan: Result<PersistPlan, DatabasePersistError>)
    ensures
        plan == (match state {
            Some(v) => persist_plan(*v, updates as nat, mutation, sync_barrier),
            None => Err(DatabasePersistError::Stale),
        }),
{
    let v: &VsetState = match state {
        Some(v) => v,
        None => {
            return Err(DatabasePersistError::Stale);
        },
    };
    if !v.ready {
        return Err(DatabasePersistError::Stale);
    }
    if v.operations.mutation_blocked() {
        return Err(DatabasePersistError::Busy);
    }
    if mutation && v.mutation_seq == u64::MAX {
        return Err(DatabasePersistError::Overflow);
    }
    let capture_seq: u64 = if mutation {
        v.mutation_seq + 1
    } else {
        v.mutation_seq
    };
    if v.next_seq == u64::MAX {
        return Err(DatabasePersistError::Overflow);
    }
    let generation_after: u64 = match v.next_gen.checked_add(updates as u64) {
        Some(after) => after,
        None => {
            return Err(DatabasePersistError::Overflow);
        },
    };
    let covered: u64 = match sync_barrier {
        Some(barrier) => if v.local_covered_through >= barrier {
            v.local_covered_through
        } else {
            barrier
        },
        None => v.local_covered_through,
    };
    let migrated_from = match v.peer_source {
        Some(host) => Some(MigrationSource { host, offer_fence: v.peer_source_offer_fence }),
        None => None,
    };
    Ok(
        PersistPlan {
            incarnation: v.incarnation,
            config: v.config,
            fence: v.fence,
            seq: v.next_seq,
            capture_seq,
            first_segment: v.next_seg,
            first_generation: v.next_gen,
            sequence_after: v.next_seq + 1,
            generation_after,
            covered,
            migrated_from,
        },
    )
}

/// A segment ready to be written: its length, and where its pages lie.
pub struct BuiltSegment {
    pub id: u64,
    pub bytes: u64,
    pub entries: Vec<(u64, PageLoc)>,
}

/// `map` with `entries` inserted in order.
pub open spec fn with_entries(map: Map<u64, PageLoc>, entries: Seq<(u64, PageLoc)>) -> Map<
    u64,
    PageLoc,
>
    decreases entries.len(),
{
    if entries.len() == 0 {
        map
    } else {
        with_entries(map, entries.drop_last()).insert(entries.last().0, entries.last().1)
    }
}

/// `map` with the entries of all `segments` inserted in order.
pub open spec fn with_segments(map: Map<u64, PageLoc>, segments: Seq<BuiltSegment>) -> Map<
    u64,
    PageLoc,
>
    decreases segments.len(),
{
    if segments.len() == 0 {
        map
    } else {
        with_entries(with_segments(map, segments.drop_last()), segments.last().entries@)
    }
}

fn insert_entries(map: &mut BTreeMap<u64, PageLoc>, entries: &Vec<(u64, PageLoc)>)
    ensures
        final(map)@ == with_entries(old(map)@, entries@),
{
    let mut i: usize = 0;
    while i < entries.len()
        invariant
            i <= entries@.len(),
            map@ == with_entries(old(map)@, entries@.take(i as int)),
        decreases entries@.len() - i,
    {
        map.insert(entries[i].0, entries[i].1);
        proof {
            assert(entries@.take(i + 1).drop_last() =~= entries@.take(i as int));
        }
        i = i + 1;
    }
    proof {
        assert(entries@.take(i as int) =~= entries@);
    }
}

fn insert_segments(map: &mut BTreeMap<u64, PageLoc>, segments: &Vec<BuiltSegment>)
    ensures
        final(map)@ == with_segments(old(map)@, segments@),
{
    let mut i: usize = 0;
    while i < segments.len()
        invariant
            i <= segments@.len(),
            map@ == with_segments(old(map)@, segments@.take(i as int)),
        decreases segments@.len() - i,
    {
        insert_entries(map, &segments[i].entries);
        proof {
            assert(segments@.take(i + 1).drop_last() =~= segments@.take(i as int));
        }
        i = i + 1;
    }
    proof {
        assert(segments@.take(i as int) =~= segments@);
    }
}

/// The page map as the commit will leave it, before it is rolled into leaves.
pub struct Staged {
    pub map: PageMap,
    pub segment_after: u64,
}

/// `map` is the page map of `state` with the new segments in it.
pub open spec fn extended(state: VsetState, map: PageMap, segments: Seq<BuiltSegment>) -> bool {
    &&& map.page_locs@ == with_segments(state.page_locs@, segments)
    &&& map.overlay@ == with_segments(state.overlay@, segments)
    &&& map.leaf_table@ == state.leaf_table@
}

/// Stages the commit's page map beside the vset: the new pages are added, then
/// the file is cut.
pub fn stage_persist(
    state: &VsetState,
    plan: &PersistPlan,
    segments: &Vec<BuiltSegment>,
    prune: Option<(DatabaseFile, u64)>,
) -> (staged: Result<Staged, DatabasePersistError>)
    ensures
        staged is Err <==> plan.first_segment + segments@.len() > u64::MAX,
        staged matches Err(error) ==> error == DatabasePersistError::Overflow,
        staged matches Ok(s) ==> {
            &&& s.segment_after == plan.first_segment + segments@.len()
            &&& match prune {
                None => extended(*state, s.map, segments@),
                Some((file, first_removed)) => exists|full: PageMap| #[trigger]
                    extended(*state, full, segments@) && pruned(
                        full,
                        s.map,
                        plan.config,
                        file,
                        first_removed,
                    ),
            }
        },
{
    let segment_after: u64 = match plan.first_segment.checked_add(segments.len() as u64) {
        Some(after) => after,
        None => {
            return Err(DatabasePersistError::Overflow);
        },
    };
    let mut map = PageMap {
        page_locs: state.page_locs.clone(),
        overlay: state.overlay.clone(),
        leaf_table: state.leaf_table.clone(),
        hydrated_spans: BTreeSet::new(),
        failed_spans: BTreeSet::new(),
    };
    insert_segments(&mut map.page_locs, segments);
    insert_segments(&mut map.overlay, segments);
    let ghost full = map;
    if let Some((file, first_removed)) = prune {
        proof {
            assert(extended(*state, full, segments@));
        }
        prune_file(&mut map, plan.config, file, first_removed);
    }
    Ok(Staged { map, segment_after })
}

/// What is written before the record: segments, then leaves.
pub open spec fn blob_writes(
    vset: VsetId,
    fence: u64,
    segments: Seq<BuiltSegment>,
    leaves: Seq<LeafBlob>,
) -> Seq<(BlobName, u64)> {
    segments.map_values(
        |s: BuiltSegment| (BlobName::Segment { vset, fence, segment: s.id }, s.bytes),
    ) + leaves.map_values(
        |l: LeafBlob|
            (BlobName::Leaf { vset, fence: l.pointer.fence, leaf: l.pointer.id }, l.bytes),
    )
}

pub fn plan_blobs(vset: VsetId, fence: u64, segments: &Vec<BuiltSegment>, leaves: &Vec<LeafBlob>)
    -> (blobs: Vec<(BlobName, u64)>)
    ensures
        blobs@ == blob_writes(vset, fence, segments@, leaves@),
{
    let mut blobs: Vec<(BlobName, u64)> = Vec::new();
    let mut i: usize = 0;
    let ghost all = blob_writes(vset, fence, segments@, leaves@);
    while i < segments.len()
        invariant
            i <= segments@.len(),
            all == blob_writes(vset, fence, segments@, leaves@),
            blobs@ == all.take(i as int),
        decreases segments@.len() - i,
    {
        blobs.push((BlobName::Segment { vset, fence, segment: segments[i].id }, segments[i].bytes));
        i = i + 1;
    }
    let mut j: usize = 0;
    while j < leaves.len()
        invariant
            i == segments@.len(),
            j <= leaves@.len(),
            all == blob_writes(vset, fence, segments@, leaves@),
            blobs@ == all.take(i + j),
        decreases leaves@.len() - j,
    {
        blobs.push(
            (
                BlobName::Leaf {
                    vset,
                    fence: leaves[j].pointer.fence,
                    leaf: leaves[j].pointer.id,
                },
                leaves[j].bytes,
            ),
        );
        j = j + 1;
    }
    blobs
}

/// Bytes in all of `blobs`.
pub open spec fn total_bytes(blobs: Seq<(BlobName, u64)>) -> nat
    decreases blobs.len(),
{
    if blobs.len() == 0 {
        0
    } else {
        total_bytes(blobs.drop_last()) + blobs.last().1 as nat
    }
}

fn sum_bytes(blobs: &Vec<(BlobName, u64)>) -> (sum: Option<u64>)
    ensures
        sum == (if total_bytes(blobs@) <= u64::MAX {
            Some(total_bytes(blobs@) as u64)
        } else {
            None
        }),
{
    let mut sum: u64 = 0;
    let mut i: usize = 0;
    while i < blobs.len()
        invariant
            i <= blobs@.len(),
            sum == total_bytes(blobs@.take(i as int)),
        decreases blobs@.len() - i,
    {
        proof {
            assert(blobs@.take(i + 1).drop_last() =~= blobs@.take(i as int));
        }
        match sum.checked_add(blobs[i].1) {
            Some(next) => {
                sum = next;
            },
            None => {
                proof {
                    lemma_total_grows(blobs@, i + 1);
                }
                return None;
            },
        }
        i = i + 1;
    }
    proof {
        assert(blobs@.take(i as int) =~= blobs@);
    }
    Some(sum)
}

proof fn lemma_total_grows(blobs: Seq<(BlobName, u64)>, n: int)
    requires
        0 <= n <= blobs.len(),
    ensures
        total_bytes(blobs.take(n)) <= total_bytes(blobs),
    decreases blobs.len() - n,
{
    if n < blobs.len() {
        assert(blobs.take(n + 1).drop_last() =~= blobs.take(n));
        lemma_total_grows(blobs, n + 1);
    } else {
        assert(blobs.take(n) =~= blobs);
    }
}

// ---------------------------------------------------------------------------
// Claiming and committing
// ---------------------------------------------------------------------------

/// Whether the commit may go ahead.
pub open spec fn claim_refusal(
    host: HostState,
    vset: VsetId,
    incarnation: u64,
    blobs: Seq<(BlobName, u64)>,
) -> Option<DatabasePersistError> {
    if !host.vsets@.contains_key(vset.0) || host.vsets@[vset.0].incarnation != incarnation {
        Some(DatabasePersistError::Stale)
    } else if host.vsets@[vset.0].operations.mutation_blocked() {
        Some(DatabasePersistError::Busy)
    } else if host.ledger.reserved + total_bytes(blobs) > u64::MAX || !host.ledger.fits(
        total_bytes(blobs) as int,
    ) {
        Some(DatabasePersistError::Capacity)
    } else {
        None
    }
}

/// Takes the right to change the vset and sets room aside for what will be
/// written. A refusal leaves everything as it was.
pub fn claim_persist(
    host: &mut HostState,
    vset: VsetId,
    incarnation: u64,
    blobs: &Vec<(BlobName, u64)>,
) -> (claimed: Result<(), DatabasePersistError>)
    ensures
        match claim_refusal(*old(host), vset, incarnation, blobs@) {
            Some(error) => claimed == Err::<(), DatabasePersistError>(error) && *final(host)
                == *old(host),
            None => {
                &&& claimed is Ok
                &&& *final(host) == (HostState {
                    vsets: final(host).vsets,
                    ledger: BlobLedger {
                        reserved: (old(host).ledger.reserved + total_bytes(blobs@)) as u64,
                        ..old(host).ledger
                    },
                    ..*old(host)
                })
                &&& final(host).vsets@ == old(host).vsets@.insert(
                    vset.0,
                    VsetState {
                        operations: Operations {
                            mutation: Some(MutationOwner::Database),
                            ..old(host).vsets@[vset.0].operations
                        },
                        ..old(host).vsets@[vset.0]
                    },
                )
            },
        },
        follows(*old(host), *final(host)),
{
    match host.vsets.get(&vset.0) {
        Some(v) => {
            if v.incarnation != incarnation {
                return Err(DatabasePersistError::Stale);
            }
            if v.operations.mutation_blocked() {
                return Err(DatabasePersistError::Busy);
            }
        },
        None => {
            return Err(DatabasePersistError::Stale);
        },
    }
    let bytes: u64 = match sum_bytes(blobs) {
        Some(bytes) => bytes,
        None => {
            return Err(DatabasePersistError::Capacity);
        },
    };
    if !host.ledger.try_reserve(bytes) {
        return Err(DatabasePersistError::Capacity);
    }
    let ghost before = host.vsets@;
    if let Some(mut v) = host.vsets.remove(&vset.0) {
        v.operations.try_start_mutation(MutationOwner::Database);
        host.vsets.insert(vset.0, v);
        proof {
            assert(before.remove(vset.0).insert(vset.0, v) =~= before.insert(vset.0, v));
        }
    }
    Ok(())
}

/// Gives the right to change the vset back after a write failed.
pub fn abandon_persist(state: &mut VsetState)
    ensures
        *final(state) == (VsetState {
            operations: (if old(state).operations.mutation == Some(MutationOwner::Database) {
                Operations { mutation: None, ..old(state).operations }
            } else {
                old(state).operations
            }),
            ..*old(state)
        }),
{
    state.operations.finish_mutation(MutationOwner::Database);
}

/// The page map after it was rolled into leaves.
pub struct Rolled {
    pub overlay: BTreeMap<u64, PageLoc>,
    pub leaves: BTreeMap<u64, LeafPointer>,
    /// Leaves to be written.
    pub writes: Vec<LeafBlob>,
    pub next_leaf: u64,
}

/// The record that a commit writes.
pub open spec fn is_record(
    record: JournalRecord,
    plan: PersistPlan,
    database: DatabaseMeta,
    rolled: Rolled,
) -> bool {
    &&& record.config == plan.config
    &&& record.seq == plan.seq
    &&& record.fence == plan.fence
    &&& record.kind == RecordKind::Commit
    &&& record.capture_seq == plan.capture_seq
    &&& record.sync_covered_through == plan.covered
    &&& record.database == database
    &&& record.overlay@ == rolled.overlay@
    &&& record.leaves@ == rolled.leaves@
    &&& record.migrated_from == plan.migrated_from
}

pub fn commit_record(plan: &PersistPlan, database: DatabaseMeta, rolled: &Rolled) -> (record:
    JournalRecord)
    ensures
        is_record(record, *plan, database, *rolled),
{
    JournalRecord {
        config: plan.config,
        seq: plan.seq,
        fence: plan.fence,
        kind: RecordKind::Commit,
        capture_seq: plan.capture_seq,
        sync_covered_through: plan.covered,
        database,
        overlay: rolled.overlay.clone(),
        leaves: rolled.leaves.clone(),
        migrated_from: plan.migrated_from,
    }
}

/// Blobs of the new segments.
pub open spec fn segment_sizes(fence: u64, segments: Seq<BuiltSegment>) -> Seq<SegmentBlob> {
    segments.map_values(|s: BuiltSegment| SegmentBlob { fence, id: s.id, bytes: s.bytes })
}

/// `after` is `before` with the commit in effect.
pub open spec fn committed(
    before: VsetState,
    after: VsetState,
    plan: PersistPlan,
    staged: Staged,
    rolled: Rolled,
    record: JournalRecord,
    database: DatabaseMeta,
    segments: Seq<BuiltSegment>,
) -> bool {
    &&& after == (VsetState {
        mutation_seq: plan.capture_seq,
        next_seq: plan.sequence_after,
        next_seg: staged.segment_after,
        next_gen: plan.generation_after,
        next_leaf: rolled.next_leaf,
        page_locs: staged.map.page_locs,
        overlay: rolled.overlay,
        leaf_table: rolled.leaves,
        database,
        best_record: Some(record),
        local_covered_through: record.sync_covered_through,
        record_writes: after.record_writes,
        segment_blobs: after.segment_blobs,
        leaf_blobs: after.leaf_blobs,
        mutation_waiters: after.mutation_waiters,
        operations: (if before.operations.mutation == Some(MutationOwner::Database) {
            Operations { mutation: None, ..before.operations }
        } else {
            before.operations
        }),
        ..before
    })
    &&& after.record_writes@ == before.record_writes@.insert(
        plan.seq,
        (plan.fence, record.sync_covered_through),
    )
    &&& after.segment_blobs@ == before.segment_blobs@ + segment_sizes(plan.fence, segments)
    &&& after.leaf_blobs@ == before.leaf_blobs@ + rolled.writes@
    &&& after.mutation_waiters@ == Seq::<u64>::empty()
}

/// Puts a commit into effect once everything it refers to is on disk. Returns
/// the requests that waited for it.
pub fn commit_persist(
    host: &mut HostState,
    vset: VsetId,
    plan: PersistPlan,
    staged: Staged,
    rolled: Rolled,
    record: JournalRecord,
    database: DatabaseMeta,
    segments: &Vec<BuiltSegment>,
    updates: usize,
) -> (waiters: Result<Vec<u64>, DatabasePersistError>)
    requires
        old(host).counters.pages_flushed + updates <= u64::MAX,
        old(host).counters.records_written < u64::MAX,
        old(host).counters.leaf_rolls + rolled.writes@.len() <= u64::MAX,
    ensures
        if old(host).vsets@.contains_key(vset.0) && old(host).vsets@[vset.0].incarnation
            == plan.incarnation {
            &&& waiters matches Ok(w) && w@ == old(host).vsets@[vset.0].mutation_waiters@
            &&& *final(host) == (HostState {
                vsets: final(host).vsets,
                counters: Counters {
                    pages_flushed: (old(host).counters.pages_flushed + updates) as u64,
                    records_written: (old(host).counters.records_written + 1) as u64,
                    leaf_rolls: (old(host).counters.leaf_rolls + rolled.writes@.len()) as u64,
                    ..old(host).counters
                },
                ..*old(host)
            })
            &&& final(host).vsets@ == old(host).vsets@.insert(vset.0, final(host).vsets@[vset.0])
            &&& committed(
                old(host).vsets@[vset.0],
                final(host).vsets@[vset.0],
                plan,
                staged,
                rolled,
                record,
                database,
                segments@,
            )
        } else {
            waiters == Err::<Vec<u64>, DatabasePersistError>(DatabasePersistError::Stale)
                && *final(host) == *old(host)
        },
        follows(*old(host), *final(host)),
{
    let current: bool = match host.vsets.get(&vset.0) {
        Some(v) => v.incarnation == plan.incarnation,
        None => false,
    };
    if !current {
        return Err(DatabasePersistError::Stale);
    }
    let ghost before = host.vsets@;
    let mut waiters: Vec<u64> = Vec::new();
    if let Some(mut v) = host.vsets.remove(&vset.0) {
        let covered: u64 = record.sync_covered_through;
        v.mutation_seq = plan.capture_seq;
        v.next_seq = plan.sequence_after;
        v.next_seg = staged.segment_after;
        v.next_gen = plan.generation_after;
        v.next_leaf = rolled.next_leaf;
        v.page_locs = staged.map.page_locs;
        v.database = database;
        extend_segments(&mut v.segment_blobs, plan.fence, segments);
        host.counters.pages_flushed = host.counters.pages_flushed + updates as u64;
        host.counters.records_written = host.counters.records_written + 1;
        host.counters.leaf_rolls = host.counters.leaf_rolls + rolled.writes.len() as u64;
        let mut writes: Vec<LeafBlob> = rolled.writes;
        v.leaf_blobs.append(&mut writes);
        v.overlay = rolled.overlay;
        v.leaf_table = rolled.leaves;
        v.best_record = Some(record);
        v.local_covered_through = covered;
        v.record_writes.insert(plan.seq, (plan.fence, covered));
        v.operations.finish_mutation(MutationOwner::Database);
        waiters.append(&mut v.mutation_waiters);
        host.vsets.insert(vset.0, v);
        proof {
            assert(before.remove(vset.0).insert(vset.0, v) =~= before.insert(vset.0, v));
            assert(waiters@ =~= before[vset.0].mutation_waiters@);
        }
    }
    Ok(waiters)
}

fn extend_segments(blobs: &mut Vec<SegmentBlob>, fence: u64, segments: &Vec<BuiltSegment>)
    ensures
        final(blobs)@ == old(blobs)@ + segment_sizes(fence, segments@),
{
    let mut i: usize = 0;
    let ghost new = segment_sizes(fence, segments@);
    while i < segments.len()
        invariant
            i <= segments@.len(),
            new == segment_sizes(fence, segments@),
            blobs@ == old(blobs)@ + new.take(i as int),
        decreases segments@.len() - i,
    {
        blobs.push(SegmentBlob { fence, id: segments[i].id, bytes: segments[i].bytes });
        i = i + 1;
    }
}

/// A commit moves every number of the vset forward and nothing back: the
/// record gets the number that was next, a mutation counts one up, and what
/// was covered stays covered.
pub proof fn commits_only_move_forward(
    before: VsetState,
    after: VsetState,
    updates: nat,
    mutation: bool,
    sync_barrier: Option<u64>,
    plan: PersistPlan,
    staged: Staged,
    rolled: Rolled,
    record: JournalRecord,
    database: DatabaseMeta,
    segments: Seq<BuiltSegment>,
)
    requires
        persist_plan(before, updates, mutation, sync_barrier) == Ok::<
            PersistPlan,
            DatabasePersistError,
        >(plan),
        staged.segment_after == plan.first_segment + segments.len(),
        is_record(record, plan, database, rolled),
        committed(before, after, plan, staged, rolled, record, database, segments),
    ensures
        after.next_seq == before.next_seq + 1,
        after.next_gen == before.next_gen + updates,
        after.next_seg == before.next_seg + segments.len(),
        after.mutation_seq == before.mutation_seq + (if mutation {
            1int
        } else {
            0
        }),
        after.local_covered_through >= before.local_covered_through,
        sync_barrier matches Some(barrier) ==> after.local_covered_through >= barrier,
        after.sync_ack_through == before.sync_ack_through,
        after.best_record matches Some(r) && r.seq == before.next_seq && r.sync_covered_through
            == after.local_covered_through,
        after.operations.mutation is None,
{
}

} // verus!
