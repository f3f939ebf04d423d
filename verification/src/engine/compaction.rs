//! Choosing sparse local files whose live pages are worth moving, so that the
//! files can be given up.

use super::capture::{ascending, loc_identity, PreparedRescue, RescueEntry};
use super::maps::{lists_keys, sorted_keys};
use super::state::HostState;
use super::volume::{LocalFile, PageEntry, VolumeState};
use crate::arith::sat_mul;
use crate::objects::{lemma_identity_order, ObjectIdentity};
use std::collections::BTreeMap;
use vstd::prelude::*;

verus! {

broadcast use vstd::std_specs::btree::group_btree_axioms;

/// A volume with fewer pages than this is not worth compacting.
pub const ROLL_THRESHOLD: usize = 256;

/// Files compacted in one capture.
pub const COMPACT_BATCH: usize = 8;

/// Bytes a page keeps alive in the file `identity`.
pub open spec fn live_in(entry: PageEntry, volume: u64, identity: ObjectIdentity) -> nat {
    if entry.loc.base == 0 && loc_identity(volume, entry.loc) == identity {
        entry.loc.len as nat
    } else {
        0
    }
}

/// Bytes of the file `identity` that pages still lie in.
pub closed spec fn live_bytes(
    locs: Map<u64, PageEntry>,
    volume: u64,
    identity: ObjectIdentity,
) -> nat
    decreases locs.dom().len(),
    when locs.dom().finite()
{
    if locs.dom().len() == 0 {
        0
    } else {
        let page = locs.dom().choose();
        live_in(locs[page], volume, identity) + live_bytes(locs.remove(page), volume, identity)
    }
}

/// Any one page's bytes can be split off.
pub proof fn lemma_live_bytes_split(
    locs: Map<u64, PageEntry>,
    volume: u64,
    identity: ObjectIdentity,
    page: u64,
)
    requires
        locs.dom().finite(),
        locs.contains_key(page),
    ensures
        live_bytes(locs, volume, identity) == live_in(locs[page], volume, identity) + live_bytes(
            locs.remove(page),
            volume,
            identity,
        ),
    decreases locs.dom().len(),
{
    vstd::set_lib::lemma_set_empty_equivalency_len(locs.dom());
    let pick = locs.dom().choose();
    if pick != page {
        lemma_live_bytes_split(locs.remove(pick), volume, identity, page);
        lemma_live_bytes_split(locs.remove(page), volume, identity, pick);
        assert(locs.remove(pick).remove(page) =~= locs.remove(page).remove(pick));
    }
}

proof fn lemma_live_bytes_bound(locs: Map<u64, PageEntry>, volume: u64, identity: ObjectIdentity)
    requires
        locs.dom().finite(),
    ensures
        live_bytes(locs, volume, identity) <= locs.dom().len() * u32::MAX,
    decreases locs.dom().len(),
{
    if locs.dom().len() > 0 {
        vstd::set_lib::lemma_set_empty_equivalency_len(locs.dom());
        let pick = locs.dom().choose();
        lemma_live_bytes_bound(locs.remove(pick), volume, identity);
        assert(locs.dom().len() * u32::MAX == (locs.dom().len() - 1) * u32::MAX + u32::MAX)
            by (nonlinear_arith);
    }
}

fn count_live(locs: &BTreeMap<u64, PageEntry>, volume: u64, identity: ObjectIdentity) -> (live: u64)
    requires
        locs@.dom().len() <= 0x1_0000_0000,
    ensures
        live == live_bytes(locs@, volume, identity),
{
    let keys: Vec<u64> = sorted_keys(locs);
    let ghost mut rest = locs@;
    let mut live: u64 = 0;
    let mut i: usize = 0;
    proof {
        lemma_live_bytes_bound(locs@, volume, identity);
        assert(locs@.dom().len() * u32::MAX <= u64::MAX) by (nonlinear_arith)
            requires
                locs@.dom().len() <= 0x1_0000_0000,
        ;
        assert forall|k: u64| #[trigger] rest.contains_key(k) <==> exists|a: int|
            0 <= a < keys@.len() && keys@[a] == k by {
            assert(keys@.contains(k) <==> locs@.contains_key(k));
        }
    }
    while i < keys.len()
        invariant
            i <= keys@.len(),
            lists_keys(keys@, locs@),
            live_bytes(locs@, volume, identity) <= u64::MAX,
            rest.dom().finite(),
            live + live_bytes(rest, volume, identity) == live_bytes(locs@, volume, identity),
            forall|k: u64| #[trigger]
                rest.contains_key(k) <==> exists|a: int| i <= a < keys@.len() && keys@[a] == k,
            forall|k: u64| #[trigger] rest.contains_key(k) ==> rest[k] == locs@[k],
        decreases keys@.len() - i,
    {
        let page: u64 = keys[i];
        proof {
            assert(keys@.contains(page));
            lemma_live_bytes_split(rest, volume, identity, page);
        }
        if let Some(entry) = locs.get(&page) {
            if entry.loc.base == 0 && ObjectIdentity::volume(
                volume,
                entry.loc.fence,
                entry.loc.object,
            ) == identity {
                live = live + entry.loc.len as u64;
            }
        }
        proof {
            let old_rest = rest;
            rest = rest.remove(page);
            assert forall|k: u64| #[trigger] rest.contains_key(k) <==> exists|a: int|
                i + 1 <= a < keys@.len() && keys@[a] == k by {
                if old_rest.contains_key(k) && k != page {
                    let a = choose|a: int| i <= a < keys@.len() && keys@[a] == k;
                }
                if exists|a: int| i + 1 <= a < keys@.len() && keys@[a] == k {
                    let a = choose|a: int| i + 1 <= a < keys@.len() && keys@[a] == k;
                }
            }
        }
        i = i + 1;
    }
    proof {
        assert(rest =~= Map::<u64, PageEntry>::empty());
    }
    live
}

/// A file worth compacting, and how much of it is live, in millionths.
#[derive(Clone, Copy, PartialEq, Eq, Debug, Structural)]
pub struct Candidate {
    pub ratio: u64,
    pub identity: ObjectIdentity,
}

impl Candidate {
    pub open spec fn before_spec(self, other: Candidate) -> bool {
        self.ratio < other.ratio || (self.ratio == other.ratio && self.identity.before(
            other.identity,
        ))
    }

    /// Sparsest first, then by name.
    #[verifier::when_used_as_spec(before_spec)]
    pub fn before(self, other: Candidate) -> (less: bool)
        ensures
            less == self.before_spec(other),
    {
        self.ratio < other.ratio || (self.ratio == other.ratio && self.identity.before(
            other.identity,
        ))
    }
}

fn saturating_product(a: u64, b: u64) -> (product: u64)
    ensures
        product == sat_mul(a, b),
{
    match a.checked_mul(b) {
        Some(product) => product,
        None => u64::MAX,
    }
}

/// Half of the file or less is live, but not nothing.
pub open spec fn candidate(file: LocalFile, live: u64) -> Option<Candidate> {
    if live > 0 && sat_mul(live, 2) <= file.bytes {
        Some(
            Candidate {
                ratio: sat_mul(live, 1_000_000) / file.bytes,
                identity: file.identity,
            },
        )
    } else {
        None
    }
}

/// The files worth compacting, in the order they were written.
pub open spec fn candidates(
    files: Seq<LocalFile>,
    locs: Map<u64, PageEntry>,
    volume: u64,
) -> Seq<Candidate>
    decreases files.len(),
{
    if files.len() == 0 {
        Seq::empty()
    } else {
        let rest = candidates(files.drop_last(), locs, volume);
        match candidate(
            files.last(),
            live_bytes(locs, volume, files.last().identity) as u64,
        ) {
            Some(c) => rest.push(c),
            None => rest,
        }
    }
}

/// No element comes before an earlier one.
pub open spec fn in_order(list: Seq<Candidate>) -> bool {
    forall|i: int, j: int| 0 <= i < j < list.len() ==> !list[j].before(list[i])
}

fn insert_in_order(list: &mut Vec<Candidate>, item: Candidate)
    requires
        in_order(old(list)@),
    ensures
        in_order(final(list)@),
        final(list)@.to_multiset() == old(list)@.to_multiset().insert(item),
{
    let ghost was = list@;
    let mut at: usize = 0;
    while at < list.len() && !item.before(list[at])
        invariant
            at <= list@.len(),
            list@ == was,
            forall|a: int| 0 <= a < at ==> !item.before(#[trigger] list@[a]),
        decreases list@.len() - at,
    {
        at = at + 1;
    }
    list.insert(at, item);
    proof {
        vstd::seq_lib::to_multiset_insert(was, at as int, item);
        let now = list@;
        assert(now =~= was.insert(at as int, item));
        assert forall|i: int, j: int| 0 <= i < j < now.len() implies !now[j].before(now[i]) by {
            if j < at {
                assert(!was[j].before(was[i]));
            } else if j == at {
                assert(!item.before(was[i]));
            } else if i > at {
                assert(!was[j - 1].before(was[i - 1]));
            } else if i == at {
                // `item` comes before `was[at]`, which nothing later precedes.
                assert(item.before(was[at as int]));
                if j - 1 > at {
                    assert(!was[j - 1].before(was[at as int]));
                }
                lemma_candidate_order(item, was[at as int], was[j - 1]);
            } else {
                assert(!was[j - 1].before(was[i]));
            }
        }
    }
}

proof fn lemma_candidate_order(a: Candidate, b: Candidate, c: Candidate)
    ensures
        !a.before(a),
        a.before(b) && !c.before(b) ==> !c.before(a),
{
    lemma_identity_order(a.identity, b.identity, c.identity);
    lemma_identity_order(c.identity, a.identity, b.identity);
    lemma_identity_order(a.identity, c.identity, b.identity);
}

/// Whether a volume is compacted at all.
pub open spec fn compactable(state: VolumeState) -> bool {
    &&& state.ready
    &&& !state.outbound
    &&& !state.operations.migration
    &&& state.page_locs@.dom().len() >= ROLL_THRESHOLD
}

/// `chosen` is the beginning of `all`, put in order.
pub open spec fn first_in_order(chosen: Seq<Candidate>, all: Seq<Candidate>) -> bool {
    exists|ordered: Seq<Candidate>|
        {
            &&& #[trigger] in_order(ordered)
            &&& ordered.to_multiset() == all.to_multiset()
            &&& chosen == ordered.take(
                if ordered.len() <= COMPACT_BATCH {
                    ordered.len() as int
                } else {
                    COMPACT_BATCH as int
                },
            )
        }
}

/// The sparsest local files of a volume, at most a batch of them.
pub fn compaction_candidates(state: &VolumeState, volume: u64) -> (chosen: Vec<Candidate>)
    requires
        state.page_locs@.dom().len() <= 0x1_0000_0000,
    ensures
        compactable(*state) ==> first_in_order(
            chosen@,
            candidates(state.files@, state.page_locs@, volume),
        ),
        !compactable(*state) ==> chosen@ == Seq::<Candidate>::empty(),
{
    if !state.ready || state.outbound || state.operations.migration || state.page_locs.len()
        < ROLL_THRESHOLD {
        return Vec::new();
    }
    let mut ordered: Vec<Candidate> = Vec::new();
    let mut i: usize = 0;
    while i < state.files.len()
        invariant
            i <= state.files@.len(),
            state.page_locs@.dom().len() <= 0x1_0000_0000,
            in_order(ordered@),
            ordered@.to_multiset() == candidates(
                state.files@.take(i as int),
                state.page_locs@,
                volume,
            ).to_multiset(),
        decreases state.files@.len() - i,
    {
        proof {
            assert(state.files@.take(i + 1).drop_last() =~= state.files@.take(i as int));
        }
        let file: LocalFile = state.files[i];
        let live: u64 = count_live(&state.page_locs, volume, file.identity);
        let double: u64 = saturating_product(live, 2);
        if live > 0 && double <= file.bytes {
            let scaled: u64 = saturating_product(live, 1_000_000);
            let item = Candidate { ratio: scaled / file.bytes, identity: file.identity };
            proof {
                vstd::seq_lib::to_multiset_build(
                    candidates(state.files@.take(i as int), state.page_locs@, volume),
                    item,
                );
            }
            insert_in_order(&mut ordered, item);
        }
        i = i + 1;
    }
    proof {
        assert(state.files@.take(i as int) =~= state.files@);
    }
    let ghost full = ordered@;
    if ordered.len() > COMPACT_BATCH {
        ordered.truncate(COMPACT_BATCH);
    } else {
        proof {
            assert(ordered@ =~= full.take(full.len() as int));
        }
    }
    ordered
}

/// The page lies in the file `identity`.
pub open spec fn lies_in(
    locs: Map<u64, PageEntry>,
    volume: u64,
    identity: ObjectIdentity,
    page: u64,
) -> bool {
    locs.contains_key(page) && locs[page].loc.base == 0 && loc_identity(volume, locs[page].loc)
        == identity
}

/// Pages that still lie in the file `identity`, in order.
pub fn live_pages(state: &VolumeState, volume: u64, identity: ObjectIdentity) -> (pages: Vec<u64>)
    ensures
        ascending(pages@),
        forall|page: u64| #[trigger]
            pages@.contains(page) <==> lies_in(state.page_locs@, volume, identity, page),
{
    let keys: Vec<u64> = sorted_keys(&state.page_locs);
    let mut pages: Vec<u64> = Vec::new();
    let mut i: usize = 0;
    while i < keys.len()
        invariant
            i <= keys@.len(),
            lists_keys(keys@, state.page_locs@),
            ascending(pages@),
            forall|a: int|
                0 <= a < pages@.len() && i < keys@.len() ==> pages@[a] < keys@[i as int],
            forall|a: int|
                0 <= a < pages@.len() ==> lies_in(
                    state.page_locs@,
                    volume,
                    identity,
                    #[trigger] pages@[a],
                ),
            forall|a: int|
                0 <= a < i && lies_in(state.page_locs@, volume, identity, #[trigger] keys@[a])
                    ==> pages@.contains(keys@[a]),
        decreases keys@.len() - i,
    {
        let page: u64 = keys[i];
        let ghost had = pages@;
        if let Some(entry) = state.page_locs.get(&page) {
            if entry.loc.base == 0 && ObjectIdentity::volume(
                volume,
                entry.loc.fence,
                entry.loc.object,
            ) == identity {
                pages.push(page);
            }
        }
        proof {
            assert forall|a: int|
                0 <= a < i + 1 && lies_in(state.page_locs@, volume, identity, #[trigger] keys@[a])
                    implies pages@.contains(keys@[a]) by {
                if a < i {
                    let b = choose|b: int| 0 <= b < had.len() && had[b] == keys@[a];
                    assert(pages@[b] == keys@[a]);
                } else {
                    assert(pages@[had.len() as int] == page);
                }
            }
        }
        i = i + 1;
    }
    proof {
        assert forall|page: u64| #[trigger] pages@.contains(page) <==> lies_in(
            state.page_locs@,
            volume,
            identity,
            page,
        ) by {
            if lies_in(state.page_locs@, volume, identity, page) {
                assert(keys@.contains(page));
                let a = choose|a: int| 0 <= a < keys@.len() && keys@[a] == page;
            }
        }
    }
    pages
}

/// A chosen file really is at most half live, so giving it up frees at least as
/// much as moving its pages takes.
pub proof fn compaction_pays_off(
    files: Seq<LocalFile>,
    locs: Map<u64, PageEntry>,
    volume: u64,
    i: int,
)
    requires
        0 <= i < candidates(files, locs, volume).len(),
        locs.dom().finite(),
        locs.dom().len() <= 0x1_0000_0000,
        forall|k: int| 0 <= k < files.len() ==> (#[trigger] files[k]).bytes < u64::MAX,
    ensures
        exists|k: int|
            {
                &&& 0 <= k < files.len()
                &&& (#[trigger] files[k]).identity == candidates(files, locs, volume)[i].identity
                &&& 0 < live_bytes(locs, volume, files[k].identity)
                &&& 2 * live_bytes(locs, volume, files[k].identity) <= files[k].bytes
            },
    decreases files.len(),
{
    lemma_live_bytes_bound(locs, volume, files.last().identity);
    assert(locs.dom().len() * u32::MAX <= 0xFFFF_FFFF_0000_0000) by (nonlinear_arith)
        requires
            locs.dom().len() <= 0x1_0000_0000,
    ;
    let rest = candidates(files.drop_last(), locs, volume);
    let live = live_bytes(locs, volume, files.last().identity) as u64;
    if i < rest.len() {
        assert forall|k: int| 0 <= k < files.drop_last().len() implies (
        #[trigger] files.drop_last()[k]).bytes < u64::MAX by {
            assert(files[k].bytes < u64::MAX);
        }
        compaction_pays_off(files.drop_last(), locs, volume, i);
        let k = choose|k: int|
            {
                &&& 0 <= k < files.drop_last().len()
                &&& (#[trigger] files.drop_last()[k]).identity == rest[i].identity
                &&& 0 < live_bytes(locs, volume, files.drop_last()[k].identity)
                &&& 2 * live_bytes(locs, volume, files.drop_last()[k].identity)
                    <= files.drop_last()[k].bytes
            };
        assert(files[k].identity == rest[i].identity);
    } else {
        assert(sat_mul(live, 2) <= files.last().bytes);
        assert(files[files.len() - 1].bytes < u64::MAX);
        assert(files[files.len() - 1].identity == candidates(files, locs, volume)[i].identity);
    }
}

// ---------------------------------------------------------------------------
// Reading a sparse file
// ---------------------------------------------------------------------------

/// A frame of a file, opened.
pub struct OpenedFrame {
    pub page: u64,
    pub generation: u64,
    pub bytes: Vec<u8>,
}

/// A page a file says it holds, and its frame if that could be opened.
pub struct ScannedEntry {
    pub page: u64,
    pub entry: PageEntry,
    pub frame: Option<OpenedFrame>,
}

/// A file as it was read.
pub struct ScannedFile {
    pub volume: u64,
    pub fence: u64,
    pub object: u64,
    pub entries: Vec<ScannedEntry>,
}

/// The file's entry is the page's newest.
pub open spec fn is_current_entry(
    state: VolumeState,
    volume: u64,
    identity: ObjectIdentity,
    scanned: ScannedEntry,
) -> bool {
    lies_in(state.page_locs@, volume, identity, scanned.page)
        && state.page_locs@[scanned.page] == scanned.entry
}

/// The frame holds the page it should.
pub open spec fn is_sound(scanned: ScannedEntry) -> bool {
    match scanned.frame {
        Some(frame) => frame.page == scanned.page && frame.generation == scanned.entry.generation,
        None => false,
    }
}

pub open spec fn current_entries(
    state: VolumeState,
    volume: u64,
    identity: ObjectIdentity,
    entries: Seq<ScannedEntry>,
) -> Seq<ScannedEntry> {
    entries.filter(|e: ScannedEntry| is_current_entry(state, volume, identity, e))
}

pub open spec fn all_sound(entries: Seq<ScannedEntry>) -> bool {
    forall|i: int| 0 <= i < entries.len() ==> is_sound(#[trigger] entries[i])
}

/// What is kept of an entry.
pub open spec fn rescued_view(entry: RescueEntry) -> (u64, PageEntry, Seq<u8>) {
    (entry.page, entry.entry, entry.bytes@)
}

pub open spec fn scanned_view(scanned: ScannedEntry) -> (u64, PageEntry, Seq<u8>) {
    (scanned.page, scanned.entry, scanned.frame->0.bytes@)
}

/// The file can be given up: it is the file it should be, every live page was
/// found in it, and every frame is sound.
pub open spec fn can_rescue(
    state: VolumeState,
    volume: u64,
    identity: ObjectIdentity,
    file: ScannedFile,
) -> bool {
    let current = current_entries(state, volume, identity, file.entries@);
    &&& ObjectIdentity::volume(file.volume, file.fence, file.object) == identity
    &&& file.volume == volume
    &&& all_sound(current)
    &&& current.len() == live_set(state.page_locs@, volume, identity).len()
}

/// The pages that lie in the file.
pub open spec fn live_set(locs: Map<u64, PageEntry>, volume: u64, identity: ObjectIdentity) -> Set<
    u64,
> {
    Set::new(|page: u64| lies_in(locs, volume, identity, page))
}

/// Takes the live pages out of a sparse file, so that the file can be given up.
/// A file that is damaged or incomplete is kept.
pub fn prepare_rescue(
    state: &VolumeState,
    volume: u64,
    fence: u64,
    object: u64,
    file: &ScannedFile,
) -> (rescue: Option<PreparedRescue>)
    ensures
        rescue is Some <==> can_rescue(
            *state,
            volume,
            ObjectIdentity::volume(volume, fence, object),
            *file,
        ),
        match rescue {
            Some(prepared) => {
                &&& prepared.victim_fence == fence
                &&& prepared.victim_object == object
                &&& prepared.entries@.map_values(
                    |e: RescueEntry| rescued_view(e),
                ) == current_entries(
                    *state,
                    volume,
                    ObjectIdentity::volume(volume, fence, object),
                    file.entries@,
                ).map_values(|e: ScannedEntry| scanned_view(e))
            },
            None => true,
        },
{
    let identity = ObjectIdentity::volume(volume, fence, object);
    let live: Vec<u64> = live_pages(state, volume, identity);
    let ghost current = current_entries(*state, volume, identity, file.entries@);
    proof {
        assert(live@.no_duplicates());
        live@.unique_seq_to_set();
        assert(live@.to_set() =~= live_set(state.page_locs@, volume, identity));
    }
    if file.volume != volume || file.fence != fence || file.object != object {
        proof {
            assert(!can_rescue(*state, volume, identity, *file));
        }
        return None;
    }
    let mut entries: Vec<RescueEntry> = Vec::new();
    let mut i: usize = 0;
    proof {
        reveal(Seq::filter);
        assert(file.entries@.take(0) =~= Seq::<ScannedEntry>::empty());
        assert(entries@.map_values(|e: RescueEntry| rescued_view(e))
            =~= current_entries(
            *state,
            volume,
            identity,
            file.entries@.take(0),
        ).map_values(|e: ScannedEntry| scanned_view(e)));
    }
    while i < file.entries.len()
        invariant
            i <= file.entries@.len(),
            identity == ObjectIdentity::volume(volume, fence, object),
            current == current_entries(*state, volume, identity, file.entries@),
            all_sound(current_entries(*state, volume, identity, file.entries@.take(i as int))),
            entries@.map_values(|e: RescueEntry| rescued_view(e))
                == current_entries(
                *state,
                volume,
                identity,
                file.entries@.take(i as int),
            ).map_values(|e: ScannedEntry| scanned_view(e)),
        decreases file.entries@.len() - i,
    {
        let scanned: &ScannedEntry = &file.entries[i];
        let ghost shorter = current_entries(
            *state,
            volume,
            identity,
            file.entries@.take(i as int),
        );
        let ghost longer = current_entries(*state, volume, identity, file.entries@.take(i + 1));
        proof {
            reveal(Seq::filter);
            assert(file.entries@.take(i + 1).drop_last() =~= file.entries@.take(i as int));
        }
        let found: bool = match state.page_locs.get(&scanned.page) {
            Some(entry) => entry.loc.base == 0 && entry.loc.fence == fence && entry.loc.object
                == object && *entry == scanned.entry,
            None => false,
        };
        if found {
            let mut sound: bool = false;
            if let Some(frame) = &scanned.frame {
                if frame.page == scanned.page && frame.generation == scanned.entry.generation {
                    sound = true;
                    let ghost before = entries@;
                    let bytes: Vec<u8> = frame.bytes.clone();
                    entries.push(
                        RescueEntry {
                            page: scanned.page,
                            entry: scanned.entry,
                            bytes,
                        },
                    );
                    proof {
                        assert(bytes@ =~= frame.bytes@);
                        assert(longer == shorter.push(*scanned));
                        assert(entries@.map_values(
                            |e: RescueEntry| rescued_view(e),
                        ) =~= before.map_values(
                            |e: RescueEntry| rescued_view(e),
                        ).push(scanned_view(*scanned)));
                        assert(longer.map_values(|e: ScannedEntry| scanned_view(e))
                            =~= shorter.map_values(|e: ScannedEntry| scanned_view(e)).push(
                            scanned_view(*scanned),
                        ));
                        assert(all_sound(longer));
                    }
                }
            }
            if !sound {
                proof {
                    assert(longer == shorter.push(*scanned));
                    lemma_current_grows(*state, volume, identity, file.entries@, i + 1);
                    assert(longer[shorter.len() as int] == *scanned);
                    assert(current[shorter.len() as int] == *scanned);
                    assert(!all_sound(current));
                    assert(!can_rescue(*state, volume, identity, *file));
                }
                return None;
            }
        }
        i = i + 1;
    }
    proof {
        assert(file.entries@.take(i as int) =~= file.entries@);
        assert(entries@.len() == entries@.map_values(
            |e: RescueEntry| rescued_view(e),
        ).len());
        assert(current.len() == current.map_values(|e: ScannedEntry| scanned_view(e)).len());
        assert(can_rescue(*state, volume, identity, *file) <==> entries@.len()
            == live@.len());
    }
    if entries.len() == live.len() {
        Some(
            PreparedRescue {
                victim_fence: fence,
                victim_object: object,
                entries,
            },
        )
    } else {
        None
    }
}

proof fn lemma_current_grows(
    state: VolumeState,
    volume: u64,
    identity: ObjectIdentity,
    entries: Seq<ScannedEntry>,
    n: int,
)
    requires
        0 <= n <= entries.len(),
    ensures
        current_entries(state, volume, identity, entries.take(n)).len() <= current_entries(
            state,
            volume,
            identity,
            entries,
        ).len(),
        forall|k: int|
            0 <= k < current_entries(state, volume, identity, entries.take(n)).len()
                ==> #[trigger] current_entries(state, volume, identity, entries)[k]
                == current_entries(state, volume, identity, entries.take(n))[k],
    decreases entries.len() - n,
{
    reveal(Seq::filter);
    if n < entries.len() {
        assert(entries.take(n + 1).drop_last() =~= entries.take(n));
        lemma_current_grows(state, volume, identity, entries, n + 1);
    } else {
        assert(entries.take(n) =~= entries);
    }
}

// ---------------------------------------------------------------------------
// The course of a compaction
// ---------------------------------------------------------------------------

/// Sparse files that are being read.
pub struct CompactionJob {
    pub volume: u64,
    pub candidates: Vec<Candidate>,
    /// How many have been read.
    pub done: usize,
    pub prepared: Vec<PreparedRescue>,
}

pub enum CompactionStep {
    /// Read and open the next file.
    Scan(CompactionJob),
    /// What can be taken over by the next capture.
    Ready(Vec<PreparedRescue>),
}

fn next_scan(job: CompactionJob) -> (step: CompactionStep)
    ensures
        step == (if job.done < job.candidates@.len() {
            CompactionStep::Scan(job)
        } else {
            CompactionStep::Ready(job.prepared)
        }),
{
    if job.done < job.candidates.len() {
        CompactionStep::Scan(job)
    } else {
        CompactionStep::Ready(job.prepared)
    }
}

/// Starts reading the sparsest files of a volume.
pub fn start_compaction(host: &HostState, volume: u64) -> (step: CompactionStep)
    requires
        host.volumes@.contains_key(volume) ==> host.volumes@[volume].page_locs@.dom().len()
            <= 0x1_0000_0000,
    ensures
        if host.volumes@.contains_key(volume) && compactable(host.volumes@[volume]) {
            let state = host.volumes@[volume];
            exists|chosen: Seq<Candidate>|
                {
                    &&& #[trigger] first_in_order(
                        chosen,
                        candidates(state.files@, state.page_locs@, volume),
                    )
                    &&& match step {
                        CompactionStep::Scan(job) => {
                            &&& chosen.len() > 0
                            &&& job.volume == volume
                            &&& job.candidates@ == chosen
                            &&& job.done == 0
                            &&& job.prepared@ == Seq::<PreparedRescue>::empty()
                        },
                        CompactionStep::Ready(prepared) => chosen.len() == 0 && prepared@
                            == Seq::<PreparedRescue>::empty(),
                    }
                }
        } else {
            step matches CompactionStep::Ready(prepared) && prepared@ == Seq::<
                PreparedRescue,
            >::empty()
        },
{
    let prepared: Vec<PreparedRescue> = Vec::new();
    match host.volumes.get(&volume) {
        None => CompactionStep::Ready(prepared),
        Some(state) => {
            let chosen: Vec<Candidate> = compaction_candidates(state, volume);
            next_scan(CompactionJob { volume, candidates: chosen, done: 0, prepared })
        },
    }
}

/// What follows once a file was read, or could not be opened. A file that cannot
/// be taken over whole is left alone.
pub fn file_scanned(
    host: &HostState,
    job: CompactionJob,
    scanned: Option<ScannedFile>,
) -> (step: CompactionStep)
    requires
        job.done < job.candidates@.len(),
    ensures
        if !host.volumes@.contains_key(job.volume) {
            step == CompactionStep::Ready(job.prepared)
        } else {
            let state = host.volumes@[job.volume];
            let wanted = job.candidates@[job.done as int].identity;
            let identity = ObjectIdentity::volume(
                job.volume,
                wanted.writer_fence,
                wanted.object_id,
            );
            let rescued = scanned is Some && can_rescue(state, job.volume, identity, scanned->0);
            let prepared = match step {
                CompactionStep::Scan(next) => next.prepared,
                CompactionStep::Ready(prepared) => prepared,
            };
            &&& step == (if job.done + 1 < job.candidates@.len() {
                CompactionStep::Scan(
                    CompactionJob { done: (job.done + 1) as usize, prepared, ..job },
                )
            } else {
                CompactionStep::Ready(prepared)
            })
            &&& prepared@.len() == job.prepared@.len() + if rescued {
                1int
            } else {
                0
            }
            &&& prepared@.take(job.prepared@.len() as int) == job.prepared@
            &&& rescued ==> {
                let last = prepared@.last();
                &&& last.victim_fence == wanted.writer_fence
                &&& last.victim_object == wanted.object_id
                &&& last.entries@.map_values(|e: RescueEntry| rescued_view(e))
                    == current_entries(
                    state,
                    job.volume,
                    identity,
                    scanned->0.entries@,
                ).map_values(|e: ScannedEntry| scanned_view(e))
            }
        },
{
    let state = match host.volumes.get(&job.volume) {
        Some(state) => state,
        None => {
            return CompactionStep::Ready(job.prepared);
        },
    };
    let count: usize = job.candidates.len();
    let wanted: ObjectIdentity = job.candidates[job.done].identity;
    let done: usize = job.done + 1;
    let mut prepared: Vec<PreparedRescue> = job.prepared;
    if let Some(file) = &scanned {
        if let Some(rescue) = prepare_rescue(
            state,
            job.volume,
            wanted.writer_fence,
            wanted.object_id,
            file,
        ) {
            prepared.push(rescue);
        }
    }
    next_scan(CompactionJob { volume: job.volume, candidates: job.candidates, done, prepared })
}

} // verus!
