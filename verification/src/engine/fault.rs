//! Guest page faults: which are served, from where, and what they change.

use super::state::{follows, with_scheduled, BaseKey, Counters, HostState};
use super::volume::{BlockSum, PageEntry, PageState, VolumeState};
use crate::objects::{ObjectIdentity, ObjectRef};
use crate::types::HostId;
use vstd::prelude::*;

verus! {

broadcast use vstd::std_specs::btree::group_btree_axioms;

// ---------------------------------------------------------------------------
// Admission
// ---------------------------------------------------------------------------

/// The volume is open and has such a page.
pub open spec fn servable(host: HostState, volume: u64, page: u32) -> bool {
    host.volumes@.contains_key(volume) && host.volumes@[volume].ready && page
        < host.volumes@[volume].config.pages
}

/// Admits a fault, or counts it as rejected.
pub fn admit_fault(host: &mut HostState, volume: u64, page: u32) -> (incarnation: Option<u64>)
    requires
        old(host).counters.room(1),
    ensures
        if servable(*old(host), volume, page) {
            incarnation == Some(old(host).volumes@[volume].incarnation) && *final(host) == *old(
                host,
            )
        } else {
            incarnation is None && *final(host) == (HostState {
                counters: Counters {
                    guest_rejected: (old(host).counters.guest_rejected + 1) as u64,
                    ..old(host).counters
                },
                ..*old(host)
            })
        },
        follows(*old(host), *final(host)),
{
    if let Some(state) = host.volumes.get(&volume) {
        if state.ready && page < state.config.pages {
            return Some(state.incarnation);
        }
    }
    host.counters.guest_rejected = host.counters.guest_rejected + 1;
    None
}

/// Who serves an admitted fault.
#[derive(Clone, Copy, PartialEq, Eq, Debug, Structural)]
pub enum FaultRoute {
    /// The page is resident and only its mapping is gone.
    Remap,
    /// The page is resident.
    Resident,
    /// The page has to be brought in.
    Missing,
}

/// Tells who serves an admitted fault.
pub fn route_fault(host: &HostState, volume: u64, page: u64, minor: bool) -> (route: FaultRoute)
    ensures
        route == (if !(host.volumes@.contains_key(volume)
            && host.volumes@[volume].pages@.contains_key(page)) {
            FaultRoute::Missing
        } else if minor {
            FaultRoute::Remap
        } else {
            FaultRoute::Resident
        }),
{
    if let Some(state) = host.volumes.get(&volume) {
        if state.pages.contains_key(&page) {
            return if minor {
                FaultRoute::Remap
            } else {
                FaultRoute::Resident
            };
        }
    }
    FaultRoute::Missing
}

/// The volume is still the one the fault was admitted for.
pub open spec fn current(host: HostState, volume: u64, incarnation: u64) -> bool {
    host.volumes@.contains_key(volume) && host.volumes@[volume].incarnation == incarnation
        && host.volumes@[volume].ready
}

fn is_current(host: &HostState, volume: u64, incarnation: u64) -> (yes: bool)
    ensures
        yes == current(*host, volume, incarnation),
{
    match host.volumes.get(&volume) {
        Some(state) => state.incarnation == incarnation && state.ready,
        None => false,
    }
}

// ---------------------------------------------------------------------------
// Resident pages
// ---------------------------------------------------------------------------

/// How a resident page is mapped again: writable if it may be changed without
/// notice. Nothing if the page or the volume has gone meanwhile.
pub fn remap_resident(host: &HostState, volume: u64, incarnation: u64, page: u64) -> (writable:
    Option<bool>)
    ensures
        writable == (if current(*host, volume, incarnation)
            && host.volumes@[volume].pages@.contains_key(page) {
            Some(host.volumes@[volume].pages@[page].dirty)
        } else {
            None
        }),
{
    match host.volumes.get(&volume) {
        Some(state) => if state.incarnation == incarnation && state.ready {
            match state.pages.get(&page) {
                Some(resident) => Some(resident.dirty),
                None => None,
            }
        } else {
            None
        },
        None => None,
    }
}

/// Whether a page has to be saved before a guest write may change it.
pub fn must_save(host: &HostState, volume: u64, incarnation: u64, page: u64, write: bool) -> (save:
    bool)
    ensures
        save == (write && (match host.volume_at_spec(volume, incarnation) {
            Some(state) => match state.operations.drain {
                Some(drain) => drain.unread@.contains_key(page),
                None => false,
            },
            None => false,
        })),
{
    if !write {
        return false;
    }
    match host.volume_at(volume, incarnation) {
        Some(state) => match &state.operations.drain {
            Some(drain) => drain.unread.contains_key(&page),
            None => false,
        },
        None => false,
    }
}

/// The numbers a guest write counts up are not at their limit.
pub open spec fn can_dirty(host: HostState, volume: u64) -> bool {
    &&& host.counters.room(1)
    &&& host.volumes@.contains_key(volume) ==> {
        &&& host.volumes@[volume].mutation_seq < u64::MAX
        &&& host.volumes@[volume].pages_dirtied < u64::MAX
        &&& host.volumes@[volume].fills < u64::MAX
    }
}

/// `state` after a guest made `page` dirty.
pub open spec fn dirtied(before: VolumeState, after: VolumeState, page: u64) -> bool {
    &&& after == (VolumeState {
        pages: after.pages,
        mutation_seq: (before.mutation_seq + 1) as u64,
        pages_dirtied: (before.pages_dirtied + 1) as u64,
        ..before
    })
    &&& after.pages@ == before.pages@.insert(
        page,
        PageState {
            dirty: true,
            flushing: before.pages@.contains_key(page) && before.pages@[page].flushing,
        },
    )
}

/// `after` is `before` once a guest may write to the resident page.
pub open spec fn resident_written(
    before: HostState,
    after: HostState,
    volume: u64,
    incarnation: u64,
    page: u64,
    allowed: bool,
) -> bool {
    &&& allowed == (current(before, volume, incarnation)
        && before.volumes@[volume].pages@.contains_key(page))
    &&& !allowed ==> after == before
    &&& allowed ==> after.scheduled@ == with_scheduled(before.scheduled@, volume)
    &&& allowed && before.volumes@[volume].pages@[page].dirty ==> after == (HostState {
        scheduled: after.scheduled,
        ..before
    })
    &&& allowed && !before.volumes@[volume].pages@[page].dirty ==> {
        &&& after == (HostState {
            scheduled: after.scheduled,
            volumes: after.volumes,
            counters: Counters {
                wp_faults: (before.counters.wp_faults + 1) as u64,
                guest_pages_dirtied: (before.counters.guest_pages_dirtied + 1) as u64,
                ..before.counters
            },
            ..before
        })
        &&& after.volumes@ == before.volumes@.insert(
            volume,
            after.volumes@[volume],
        )
        &&& dirtied(before.volumes@[volume], after.volumes@[volume], page)
    }
}

/// Lets a guest write to a resident page. The first write since the page was
/// captured counts as a mutation. Returns whether the page may be unprotected.
pub fn write_resident(host: &mut HostState, volume: u64, incarnation: u64, page: u64) -> (allowed:
    bool)
    requires
        can_dirty(*old(host), volume),
    ensures
        resident_written(
            *old(host),
            *final(host),
            volume,
            incarnation,
            page,
            allowed,
        ),
        follows(*old(host), *final(host)),
{
    let dirty: bool = match remap_resident(host, volume, incarnation, page) {
        Some(dirty) => dirty,
        None => {
            return false;
        },
    };
    if !dirty {
        let ghost was = host.volumes@;
        if let Some(mut state) = host.volumes.remove(&volume) {
            if let Some(resident) = state.pages.remove(&page) {
                let ghost pages = state.pages@;
                state.pages.insert(page, PageState { dirty: true, flushing: resident.flushing });
                proof {
                    assert(state.pages@ =~= was[volume].pages@.insert(
                        page,
                        PageState { dirty: true, flushing: resident.flushing },
                    ));
                }
            }
            state.mutation_seq = state.mutation_seq + 1;
            state.pages_dirtied = state.pages_dirtied + 1;
            host.volumes.insert(volume, state);
            proof {
                assert(was.remove(volume).insert(volume, state) =~= was.insert(volume, state));
            }
        }
        host.counters.wp_faults = host.counters.wp_faults + 1;
        host.counters.guest_pages_dirtied = host.counters.guest_pages_dirtied + 1;
    }
    host.schedule_volume(volume);
    true
}

// ---------------------------------------------------------------------------
// Missing pages
// ---------------------------------------------------------------------------

/// How a missing page is brought in.
#[derive(Clone, Copy, PartialEq, Eq, Debug, Structural)]
pub enum FillPlan {
    /// The volume has gone; nobody waits for the page.
    Gone,
    /// Another fault is bringing the page in.
    Filling,
    /// Only a mapped page can be write-protected.
    InvalidWriteProtect,
    /// Every slot of the cache is taken.
    Wait,
    /// Map the resident page of a base; a write copies it into a slot.
    Shared { share: BaseKey, slot: bool },
    /// Bring the page into a slot, from its location or as a zero page.
    Ready { entry: Option<PageEntry>, memory: bool, source: Option<HostId> },
}

pub open spec fn base_key_spec(entry: PageEntry) -> BaseKey {
    BaseKey {
        base: entry.loc.base,
        fence: entry.loc.fence,
        object: entry.loc.object,
        offset: entry.loc.offset,
    }
}

#[verifier::when_used_as_spec(base_key_spec)]
fn base_key(entry: PageEntry) -> (key: BaseKey)
    ensures
        key == base_key_spec(entry),
{
    BaseKey {
        base: entry.loc.base,
        fence: entry.loc.fence,
        object: entry.loc.object,
        offset: entry.loc.offset,
    }
}

/// The resident page of a base that `entry` refers to.
pub open spec fn resident_base(bases: Seq<BaseKey>, entry: Option<PageEntry>) -> Option<BaseKey> {
    match entry {
        Some(e) => if e.loc.base != 0 && bases.contains(base_key_spec(e)) {
            Some(base_key_spec(e))
        } else {
            None
        },
        None => None,
    }
}

fn base_is_resident(bases: &Vec<BaseKey>, key: BaseKey) -> (found: bool)
    ensures
        found == bases@.contains(key),
{
    let mut i: usize = 0;
    while i < bases.len()
        invariant
            i <= bases@.len(),
            forall|a: int| 0 <= a < i ==> bases@[a] != key,
        decreases bases@.len() - i,
    {
        if bases[i] == key {
            return true;
        }
        i = i + 1;
    }
    false
}

/// The durable location of a page.
pub open spec fn location(state: VolumeState, page: u64) -> Option<PageEntry> {
    if state.page_locs@.contains_key(page) {
        Some(state.page_locs@[page])
    } else {
        None
    }
}

fn find_location(state: &VolumeState, page: u64) -> (entry: Option<PageEntry>)
    ensures
        entry == location(*state, page),
{
    match state.page_locs.get(&page) {
        Some(entry) => Some(*entry),
        None => None,
    }
}

pub open spec fn fill_plan(
    host: HostState,
    volume: u64,
    incarnation: u64,
    page: u64,
    write: bool,
    write_protected: bool,
    slot_free: bool,
) -> FillPlan {
    if !current(host, volume, incarnation) {
        FillPlan::Gone
    } else {
        let state = host.volumes@[volume];
        let entry = location(state, page);
        let share = resident_base(host.bases@, entry);
        if state.filling@.contains(page) {
            FillPlan::Filling
        } else if share is Some && !write {
            FillPlan::Shared { share: share->0, slot: false }
        } else if write_protected && share is None {
            FillPlan::InvalidWriteProtect
        } else if !slot_free {
            FillPlan::Wait
        } else if share is Some {
            FillPlan::Shared { share: share->0, slot: true }
        } else {
            FillPlan::Ready {
                entry,
                memory: state.config.is_memory(),
                source: state.peer_source,
            }
        }
    }
}

fn plan_fill(
    host: &HostState,
    volume: u64,
    incarnation: u64,
    page: u64,
    write: bool,
    write_protected: bool,
    slot_free: bool,
) -> (plan: FillPlan)
    ensures
        plan == fill_plan(*host, volume, incarnation, page, write, write_protected, slot_free),
{
    let state: &VolumeState = match host.volumes.get(&volume) {
        Some(state) => state,
        None => {
            return FillPlan::Gone;
        },
    };
    if state.incarnation != incarnation || !state.ready {
        return FillPlan::Gone;
    }
    let entry = find_location(state, page);
    let share: Option<BaseKey> = match entry {
        Some(e) => if e.loc.base != 0 && base_is_resident(&host.bases, base_key(e)) {
            Some(base_key(e))
        } else {
            None
        },
        None => None,
    };
    if state.filling.contains(&page) {
        return FillPlan::Filling;
    }
    match share {
        Some(share) => if !write {
            FillPlan::Shared { share, slot: false }
        } else if slot_free {
            FillPlan::Shared { share, slot: true }
        } else {
            FillPlan::Wait
        },
        None => if write_protected {
            FillPlan::InvalidWriteProtect
        } else if slot_free {
            FillPlan::Ready {
                entry,
                memory: state.config.is_memory(),
                source: state.peer_source,
            }
        } else {
            FillPlan::Wait
        },
    }
}

/// `after` is `before` once it is decided how the page is brought in.
pub open spec fn fill_begun(
    before: HostState,
    after: HostState,
    volume: u64,
    incarnation: u64,
    page: u64,
    write: bool,
    write_protected: bool,
    slot_free: bool,
    plan: FillPlan,
) -> bool {
    &&& plan == fill_plan(before, volume, incarnation, page, write, write_protected, slot_free)
    &&& match plan {
        FillPlan::Gone | FillPlan::Filling => after == before,
        FillPlan::InvalidWriteProtect => after == (HostState {
            counters: Counters {
                faults_unservable: (before.counters.faults_unservable + 1) as u64,
                ..before.counters
            },
            ..before
        }),
        FillPlan::Wait => after == (HostState {
            counters: Counters {
                pressure_waits: (before.counters.pressure_waits + 1) as u64,
                ..before.counters
            },
            ..before
        }),
        _ => {
            let was = before.volumes@[volume];
            let now = after.volumes@[volume];
            &&& after == (HostState { volumes: after.volumes, ..before })
            &&& after.volumes@ == before.volumes@.insert(volume, now)
            &&& now == (VolumeState { filling: now.filling, ..was })
            &&& now.filling@ == was.filling@.insert(page)
        },
    }
}

/// Decides how a missing page is brought in, and notes that it is being brought
/// in, so that no second fault does it too. A fault that finds no slot is counted
/// and waits; one on an unmapped page that claims write protection cannot be
/// served.
pub fn begin_fill(
    host: &mut HostState,
    volume: u64,
    incarnation: u64,
    page: u64,
    write: bool,
    write_protected: bool,
    slot_free: bool,
) -> (plan: FillPlan)
    requires
        old(host).counters.room(1),
    ensures
        fill_begun(
            *old(host),
            *final(host),
            volume,
            incarnation,
            page,
            write,
            write_protected,
            slot_free,
            plan,
        ),
        follows(*old(host), *final(host)),
{
    let plan = plan_fill(host, volume, incarnation, page, write, write_protected, slot_free);
    match plan {
        FillPlan::Gone | FillPlan::Filling => {},
        FillPlan::InvalidWriteProtect => {
            host.counters.faults_unservable = host.counters.faults_unservable + 1;
        },
        FillPlan::Wait => {
            host.counters.pressure_waits = host.counters.pressure_waits + 1;
        },
        _ => {
            let ghost was = host.volumes@;
            if let Some(mut state) = host.volumes.remove(&volume) {
                state.filling.insert(page);
                host.volumes.insert(volume, state);
                proof {
                    assert(was.remove(volume).insert(volume, state) =~= was.insert(volume, state));
                }
            }
        },
    }
    plan
}

/// Notes that the page is in, or could not be brought in.
pub fn end_fill(state: &mut VolumeState, page: u64)
    ensures
        *final(state) == (VolumeState { filling: final(state).filling, ..*old(state) }),
        final(state).filling@ == old(state).filling@.remove(page),
{
    state.filling.remove(&page);
}

/// While a page is being brought in, every other fault on it waits.
pub proof fn one_fill_at_a_time(
    host: HostState,
    volume: u64,
    incarnation: u64,
    page: u64,
    write: bool,
    write_protected: bool,
    slot_free: bool,
)
    requires
        current(host, volume, incarnation),
        host.volumes@[volume].filling@.contains(page),
    ensures
        fill_plan(host, volume, incarnation, page, write, write_protected, slot_free)
            == FillPlan::Filling,
{
}

/// `after` is `before` with `page` resident in a slot of its own.
pub open spec fn slot_filled(
    before: VolumeState,
    after: VolumeState,
    page: u64,
    write: bool,
    fills: int,
) -> bool {
    &&& after == (VolumeState {
        pages: after.pages,
        mutation_seq: (before.mutation_seq + if write {
            1int
        } else {
            0
        }) as u64,
        pages_dirtied: (before.pages_dirtied + if write {
            1int
        } else {
            0
        }) as u64,
        fills: (before.fills + fills) as u64,
        ..before
    })
    &&& after.pages@ == before.pages@.insert(page, PageState { dirty: write, flushing: false })
}

/// `after` is `before` with a zero page brought in.
pub open spec fn zero_filled(
    before: HostState,
    after: HostState,
    volume: u64,
    incarnation: u64,
    page: u64,
    write: bool,
    filled: bool,
) -> bool {
    &&& filled == current(before, volume, incarnation)
    &&& !filled ==> after == before
    &&& filled ==> {
        &&& after == (HostState {
            volumes: after.volumes,
            scheduled: after.scheduled,
            counters: Counters {
                zero_fills: (before.counters.zero_fills + 1) as u64,
                guest_pages_dirtied: (before.counters.guest_pages_dirtied + if write {
                    1int
                } else {
                    0
                }) as u64,
                ..before.counters
            },
            ..before
        })
        &&& after.scheduled@ == (if write {
            with_scheduled(before.scheduled@, volume)
        } else {
            before.scheduled@
        })
        &&& after.volumes@ == before.volumes@.insert(
            volume,
            after.volumes@[volume],
        )
        &&& slot_filled(before.volumes@[volume], after.volumes@[volume], page, write, 1)
    }
}

/// Brings a page in that was never written: a zero page. Returns whether the
/// volume still waits for it.
pub fn finish_zero_fill(host: &mut HostState, volume: u64, incarnation: u64, page: u64, write: bool)
    -> (filled: bool)
    requires
        can_dirty(*old(host), volume),
    ensures
        zero_filled(
            *old(host),
            *final(host),
            volume,
            incarnation,
            page,
            write,
            filled,
        ),
        follows(*old(host), *final(host)),
{
    if !is_current(host, volume, incarnation) {
        return false;
    }
    let ghost was = host.volumes@;
    if let Some(mut state) = host.volumes.remove(&volume) {
        fill_slot(&mut state, page, write);
        host.volumes.insert(volume, state);
        proof {
            assert(was.remove(volume).insert(volume, state) =~= was.insert(volume, state));
        }
    }
    host.counters.zero_fills = host.counters.zero_fills + 1;
    if write {
        host.counters.guest_pages_dirtied = host.counters.guest_pages_dirtied + 1;
        host.schedule_volume(volume);
    }
    true
}

fn fill_slot(state: &mut VolumeState, page: u64, write: bool)
    requires
        old(state).mutation_seq < u64::MAX,
        old(state).pages_dirtied < u64::MAX,
        old(state).fills < u64::MAX,
    ensures
        slot_filled(*old(state), *final(state), page, write, 1),
{
    state.pages.insert(page, PageState { dirty: write, flushing: false });
    if write {
        state.mutation_seq = state.mutation_seq + 1;
        state.pages_dirtied = state.pages_dirtied + 1;
    }
    state.fills = state.fills + 1;
}

/// What becomes of a page that was fetched.
#[derive(Clone, Copy, PartialEq, Eq, Debug, Structural)]
pub enum FetchOutcome {
    /// Nobody waits for the page any more.
    Gone,
    /// The page has moved meanwhile; look again.
    Moved,
    /// In a slot of its own.
    Filled,
    /// As a page of a base that others may share.
    Shared(BaseKey),
}

pub open spec fn fetch_outcome(
    host: HostState,
    volume: u64,
    incarnation: u64,
    page: u64,
    entry: PageEntry,
    write: bool,
) -> FetchOutcome {
    if !current(host, volume, incarnation) {
        FetchOutcome::Gone
    } else if location(host.volumes@[volume], page) != Some(entry) {
        FetchOutcome::Moved
    } else if entry.loc.base != 0 && !write {
        FetchOutcome::Shared(base_key_spec(entry))
    } else {
        FetchOutcome::Filled
    }
}

/// `after` is `before` with the fetched page brought in.
pub open spec fn fetch_finished(
    before: HostState,
    after: HostState,
    volume: u64,
    incarnation: u64,
    page: u32,
    entry: PageEntry,
    write: bool,
    contribution: u64,
    outcome: FetchOutcome,
) -> bool {
    &&& outcome == fetch_outcome(before, volume, incarnation, page as u64, entry, write)
    &&& outcome is Gone || outcome is Moved ==> after == before
    &&& outcome is Filled || outcome is Shared ==> {
        let was = before.volumes@[volume];
        let now = after.volumes@[volume];
        let shared = outcome is Shared;
        &&& after == (HostState {
            volumes: after.volumes,
            scheduled: after.scheduled,
            bases: after.bases,
            counters: Counters {
                fills: (before.counters.fills + 1) as u64,
                shared_fills: (before.counters.shared_fills + if shared {
                    1int
                } else {
                    0
                }) as u64,
                guest_pages_dirtied: (before.counters.guest_pages_dirtied + if write {
                    1int
                } else {
                    0
                }) as u64,
                ..before.counters
            },
            ..before
        })
        &&& after.scheduled@ == (if write {
            with_scheduled(before.scheduled@, volume)
        } else {
            before.scheduled@
        })
        &&& after.bases@ == (if shared && !before.bases@.contains(
            base_key_spec(entry),
        ) {
            before.bases@.push(base_key_spec(entry))
        } else {
            before.bases@
        })
        &&& after.volumes@ == before.volumes@.insert(volume, now)
        &&& now.blocks@ == was.blocks@.insert(
            was.config.key(page).code(),
            BlockSum { generation: entry.generation, contribution },
        )
        &&& if shared {
            now == (VolumeState {
                blocks: now.blocks,
                fills: (was.fills + 1) as u64,
                ..was
            })
        } else {
            slot_filled(
                was,
                VolumeState { blocks: was.blocks, ..now },
                page as u64,
                write,
                1,
            )
        }
    }
}

/// Brings a fetched page in, unless it has moved since the fetch began. Its
/// checksum joins the known blocks.
pub fn finish_fetch(
    host: &mut HostState,
    volume: u64,
    incarnation: u64,
    page: u32,
    entry: PageEntry,
    write: bool,
    contribution: u64,
) -> (outcome: FetchOutcome)
    requires
        can_dirty(*old(host), volume),
    ensures
        fetch_finished(
            *old(host),
            *final(host),
            volume,
            incarnation,
            page,
            entry,
            write,
            contribution,
            outcome,
        ),
        follows(*old(host), *final(host)),
{
    let number: u64 = page as u64;
    if !is_current(host, volume, incarnation) {
        return FetchOutcome::Gone;
    }
    let unmoved: bool = match host.volumes.get(&volume) {
        Some(state) => match find_location(state, number) {
            Some(found) => found == entry,
            None => false,
        },
        None => false,
    };
    if !unmoved {
        return FetchOutcome::Moved;
    }
    let shared: bool = entry.loc.base != 0 && !write;
    let key: BaseKey = base_key(entry);
    let ghost was = host.volumes@;
    if let Some(mut state) = host.volumes.remove(&volume) {
        if shared {
            state.fills = state.fills + 1;
        } else {
            fill_slot(&mut state, number, write);
        }
        state.blocks.insert(
            state.config.key(page).code(),
            BlockSum { generation: entry.generation, contribution },
        );
        host.volumes.insert(volume, state);
        proof {
            assert(was.remove(volume).insert(volume, state) =~= was.insert(volume, state));
        }
    }
    host.counters.fills = host.counters.fills + 1;
    if shared {
        host.counters.shared_fills = host.counters.shared_fills + 1;
        if !base_is_resident(&host.bases, key) {
            host.bases.push(key);
        }
    }
    if write {
        host.counters.guest_pages_dirtied = host.counters.guest_pages_dirtied + 1;
        host.schedule_volume(volume);
    }
    if shared {
        FetchOutcome::Shared(key)
    } else {
        FetchOutcome::Filled
    }
}

/// `after` is `before` with the shared page brought in.
pub open spec fn shared_filled(
    before: HostState,
    after: HostState,
    volume: u64,
    incarnation: u64,
    page: u64,
    write: bool,
    write_protected: bool,
    filled: bool,
) -> bool {
    &&& filled == current(before, volume, incarnation)
    &&& !filled ==> after == before
    &&& filled ==> {
        let was = before.volumes@[volume];
        let now = after.volumes@[volume];
        let mapped = if write_protected {
            0int
        } else {
            1
        };
        &&& after == (HostState {
            volumes: after.volumes,
            scheduled: after.scheduled,
            counters: Counters {
                shared_fills: (before.counters.shared_fills + mapped) as u64,
                wp_faults: (before.counters.wp_faults + if write && write_protected {
                    1int
                } else {
                    0
                }) as u64,
                guest_pages_dirtied: (before.counters.guest_pages_dirtied + if write {
                    1int
                } else {
                    0
                }) as u64,
                ..before.counters
            },
            ..before
        })
        &&& after.scheduled@ == (if write {
            with_scheduled(before.scheduled@, volume)
        } else {
            before.scheduled@
        })
        &&& after.volumes@ == before.volumes@.insert(volume, now)
        &&& if write {
            slot_filled(was, now, page, true, mapped)
        } else {
            now == (VolumeState { fills: (was.fills + mapped) as u64, ..was })
        }
    }
}

/// Brings in a page that a resident page of a base stands for. A write takes a
/// copy into a slot. Returns whether the volume still waits for it.
pub fn finish_shared_fill(
    host: &mut HostState,
    volume: u64,
    incarnation: u64,
    page: u64,
    write: bool,
    write_protected: bool,
) -> (filled: bool)
    requires
        can_dirty(*old(host), volume),
    ensures
        shared_filled(
            *old(host),
            *final(host),
            volume,
            incarnation,
            page,
            write,
            write_protected,
            filled,
        ),
        follows(*old(host), *final(host)),
{
    if !is_current(host, volume, incarnation) {
        return false;
    }
    let ghost was = host.volumes@;
    if let Some(mut state) = host.volumes.remove(&volume) {
        if write {
            state.pages.insert(page, PageState { dirty: true, flushing: false });
            state.mutation_seq = state.mutation_seq + 1;
            state.pages_dirtied = state.pages_dirtied + 1;
        }
        if !write_protected {
            state.fills = state.fills + 1;
        }
        host.volumes.insert(volume, state);
        proof {
            assert(was.remove(volume).insert(volume, state) =~= was.insert(volume, state));
        }
    }
    if write {
        host.counters.guest_pages_dirtied = host.counters.guest_pages_dirtied + 1;
        if write_protected {
            host.counters.wp_faults = host.counters.wp_faults + 1;
        }
        host.schedule_volume(volume);
    }
    if !write_protected {
        host.counters.shared_fills = host.counters.shared_fills + 1;
    }
    true
}

/// The page is durable somewhere else than at `entry` by now.
pub open spec fn moved_since(host: HostState, volume: u64, incarnation: u64, page: u64, entry: PageEntry)
    -> bool {
    match host.volume_at_spec(volume, incarnation) {
        Some(state) => location(state, page) is Some && location(state, page) != Some(entry),
        None => false,
    }
}

/// `after` is `before` once the fetch has failed.
pub open spec fn fetch_failed(
    before: HostState,
    after: HostState,
    volume: u64,
    incarnation: u64,
    page: u64,
    entry: PageEntry,
    again: bool,
) -> bool {
    &&& again == moved_since(before, volume, incarnation, page, entry)
    &&& again ==> after == before
    &&& !again ==> after == (HostState {
        counters: Counters {
            faults_unservable: (before.counters.faults_unservable + 1) as u64,
            ..before.counters
        },
        ..before
    })
}

/// Takes note of a failed fetch. If the page has moved meanwhile the fault is
/// worth another look; if not it cannot be served, and is counted.
pub fn fail_fetch(host: &mut HostState, volume: u64, incarnation: u64, page: u64, entry: PageEntry) -> (
again: bool)
    requires
        old(host).counters.room(1),
    ensures
        fetch_failed(
            *old(host),
            *final(host),
            volume,
            incarnation,
            page,
            entry,
            again,
        ),
        follows(*old(host), *final(host)),
{
    let again: bool = match host.volume_at(volume, incarnation) {
        Some(state) => match find_location(state, page) {
            Some(found) => found != entry,
            None => false,
        },
        None => false,
    };
    if !again {
        host.counters.faults_unservable = host.counters.faults_unservable + 1;
    }
    again
}

/// Every write a guest makes to a clean page is a mutation of its own: the
/// count of mutations grows by one, and by nothing else.
pub proof fn clean_writes_count_once(before: VolumeState, after: VolumeState, page: u64)
    requires
        dirtied(before, after, page),
        before.mutation_seq < u64::MAX,
    ensures
        after.mutation_seq == before.mutation_seq + 1,
        after.pages@[page].dirty,
        after.page_locs == before.page_locs,
{
}

// ---------------------------------------------------------------------------
// Where to fetch from
// ---------------------------------------------------------------------------

/// The archive object a page is fetched from, or the name to try.
#[derive(Clone, Copy, PartialEq, Eq, Debug, Structural)]
pub enum ArchiveName {
    Object(ObjectIdentity),
    File { origin: u64, fence: u64, object: u64 },
}

/// Where to look for a page, in this order: the local device, the host the
/// volume came from, the host that keeps its newest commits, the archive.
#[derive(Clone, Copy, PartialEq, Eq, Debug, Structural)]
pub struct FetchSources {
    pub local: bool,
    pub peer: Option<HostId>,
    pub replica: Option<ReplicaSource>,
    pub archive: ArchiveName,
}

#[derive(Clone, Copy, PartialEq, Eq, Debug, Structural)]
pub struct ReplicaSource {
    pub peer: HostId,
    pub assignment_epoch: u64,
}

/// The object holds the page at `entry`.
pub open spec fn holds_entry(object: ObjectRef, volume: u64, entry: PageEntry) -> bool {
    &&& object.identity.writer_fence == entry.loc.fence
    &&& object.identity.object_id == entry.loc.object
    &&& if entry.loc.base == 0 {
        object.identity.of_volume(volume)
    } else {
        object.identity.namespace_id == entry.loc.base
    }
}

/// The first archive object that holds the page.
pub open spec fn holding_object(objects: Seq<ObjectRef>, volume: u64, entry: PageEntry) -> Option<
    ObjectIdentity,
>
    decreases objects.len(),
{
    if objects.len() == 0 {
        None
    } else {
        match holding_object(objects.drop_last(), volume, entry) {
            Some(identity) => Some(identity),
            None => if holds_entry(objects.last(), volume, entry) {
                Some(objects.last().identity)
            } else {
                None
            },
        }
    }
}

proof fn lemma_holding_prefix(objects: Seq<ObjectRef>, volume: u64, entry: PageEntry, n: int)
    requires
        0 <= n <= objects.len(),
        holding_object(objects.take(n), volume, entry) is Some,
    ensures
        holding_object(objects, volume, entry) == holding_object(objects.take(n), volume, entry),
    decreases objects.len() - n,
{
    if n < objects.len() {
        assert(objects.take(n + 1).drop_last() =~= objects.take(n));
        lemma_holding_prefix(objects, volume, entry, n + 1);
    } else {
        assert(objects.take(n) =~= objects);
    }
}

fn find_holding(objects: &Vec<ObjectRef>, volume: u64, entry: PageEntry) -> (identity: Option<
    ObjectIdentity,
>)
    ensures
        identity == holding_object(objects@, volume, entry),
{
    let mut i: usize = 0;
    while i < objects.len()
        invariant
            i <= objects@.len(),
            holding_object(objects@.take(i as int), volume, entry) is None,
        decreases objects@.len() - i,
    {
        proof {
            assert(objects@.take(i + 1).drop_last() =~= objects@.take(i as int));
        }
        let object: ObjectRef = objects[i];
        let named: bool = object.identity.writer_fence == entry.loc.fence
            && object.identity.object_id == entry.loc.object;
        let owner: bool = if entry.loc.base == 0 {
            object.identity.of_volume(volume)
        } else {
            object.identity.namespace_id == entry.loc.base
        };
        if named && owner {
            proof {
                lemma_holding_prefix(objects@, volume, entry, i + 1);
            }
            return Some(object.identity);
        }
        i = i + 1;
    }
    proof {
        assert(objects@.take(i as int) =~= objects@);
    }
    None
}

/// A page of the volume itself that lies on the host it came from: written
/// under an earlier writer than this host.
pub open spec fn belongs_to_source(state: VolumeState, entry: PageEntry, source: Option<HostId>) ->
    bool {
    entry.loc.base == 0 && source is Some && entry.loc.fence < state.fence
}

pub open spec fn fetch_sources_spec(
    state: VolumeState,
    volume: u64,
    entry: PageEntry,
    source: Option<HostId>,
) -> FetchSources {
    let own = entry.loc.base == 0;
    FetchSources {
        local: !belongs_to_source(state, entry, source),
        peer: if own {
            source
        } else {
            None
        },
        replica: match state.stash_assignment {
            Some(stash) => if own {
                Some(
                    ReplicaSource {
                        peer: match stash.transition_peer {
                            Some(peer) => peer,
                            None => stash.active_peer,
                        },
                        assignment_epoch: stash.assignment_epoch,
                    },
                )
            } else {
                None
            },
            None => None,
        },
        archive: match holding_object(state.archive_objects@, volume, entry) {
            Some(identity) => ArchiveName::Object(identity),
            None => ArchiveName::File {
                origin: if own {
                    volume
                } else {
                    entry.loc.base
                },
                fence: entry.loc.fence,
                object: entry.loc.object,
            },
        },
    }
}

/// Decides where a page is looked for. Pages of a base are never asked of other
/// hosts.
pub fn fetch_sources(state: &VolumeState, volume: u64, entry: PageEntry, source: Option<HostId>) -> (
sources: FetchSources)
    ensures
        sources == fetch_sources_spec(*state, volume, entry, source),
{
    let own: bool = entry.loc.base == 0;
    let elsewhere: bool = own && source.is_some() && entry.loc.fence < state.fence;
    let peer: Option<HostId> = if own {
        source
    } else {
        None
    };
    let replica: Option<ReplicaSource> = match state.stash_assignment {
        Some(stash) => if own {
            let peer = match stash.transition_peer {
                Some(peer) => peer,
                None => stash.active_peer,
            };
            Some(ReplicaSource { peer, assignment_epoch: stash.assignment_epoch })
        } else {
            None
        },
        None => None,
    };
    let archive = match find_holding(&state.archive_objects, volume, entry) {
        Some(identity) => ArchiveName::Object(identity),
        None => {
            let origin: u64 = if own {
                volume
            } else {
                entry.loc.base
            };
            ArchiveName::File { origin, fence: entry.loc.fence, object: entry.loc.object }
        },
    };
    FetchSources { local: !elsewhere, peer, replica, archive }
}

/// What a fetched frame turned out to hold.
pub struct OpenedEntry {
    pub volume: u64,
    pub page: u64,
    pub generation: u64,
    pub bytes: Vec<u8>,
}

/// The page's content, if the frame holds this page of this generation.
pub fn verify_entry(volume: u64, page: u64, generation: u64, opened: Option<OpenedEntry>) -> (raw:
    Option<Vec<u8>>)
    ensures
        raw == (match opened {
            Some(found) => if found.volume == volume && found.page == page && found.generation
                == generation {
                Some(found.bytes)
            } else {
                None
            },
            None => None,
        }),
{
    match opened {
        Some(found) => if found.volume == volume && found.page == page && found.generation
            == generation {
            Some(found.bytes)
        } else {
            None
        },
        None => None,
    }
}

} // verus!
