//! What serving page faults is for: a write is never forgotten, and a page shows
//! what was last written to it.

use super::super::fault::{
    can_dirty, fetch_failed, fetch_finished, fetch_sources_spec, fill_begun, holding_object,
    resident_written, servable, shared_filled, zero_filled, ArchiveName, FetchOutcome, FillPlan,
};
use super::super::state::{with_scheduled, BaseKey, HostState};
use super::super::volume::{BlockSum, PageEntry, VolumeKind, VolumeState};
use crate::objects::{NamespaceKind, ObjectRef};
use crate::types::HostId;
use vstd::prelude::*;

verus! {

// ---------------------------------------------------------------------------
// Writes
// ---------------------------------------------------------------------------

/// A write to a resident page leaves it dirty, and a write to a page that was
/// clean is a new write of the volume. A capture under way is not disturbed. The
/// volume has its turn, and no other page and no other volume changes.
pub proof fn a_write_to_a_resident_page_counts(
    before: HostState,
    after: HostState,
    volume: u64,
    incarnation: u64,
    page: u64,
    allowed: bool,
    other: u64,
    elsewhere: u64,
)
    requires
        resident_written(before, after, volume, incarnation, page, allowed),
        before.volumes@.contains_key(volume),
        before.volumes@[volume].mutation_seq < u64::MAX,
        before.volumes@[volume].pages_dirtied < u64::MAX,
        before.counters.wp_faults < u64::MAX,
        before.counters.guest_pages_dirtied < u64::MAX,
        other != page,
        elsewhere != volume,
    ensures
        ({
            let was = before.volumes@[volume];
            let now = after.volumes@[volume];
            &&& allowed <==> was.incarnation == incarnation && was.ready
                && was.pages@.contains_key(page)
            &&& allowed ==> {
                let first = !was.pages@[page].dirty;
                let new = if first {
                    1int
                } else {
                    0
                };
                &&& after.volumes@.contains_key(volume)
                &&& now.pages@.contains_key(page)
                &&& now.pages@[page].dirty
                &&& now.pages@[page].flushing == was.pages@[page].flushing
                &&& now.mutation_seq == was.mutation_seq + new
                &&& now.pages_dirtied == was.pages_dirtied + new
                &&& after.counters.wp_faults == before.counters.wp_faults + new
                &&& after.counters.guest_pages_dirtied == before.counters.guest_pages_dirtied + new
                &&& after.scheduled@.contains(volume)
            }
            &&& !allowed ==> after == before
            &&& now.pages@.contains_key(other) == was.pages@.contains_key(other)
            &&& was.pages@.contains_key(other) ==> now.pages@[other] == was.pages@[other]
            &&& now.page_locs == was.page_locs
            &&& now.blocks == was.blocks
            &&& now.best_record == was.best_record
            &&& now.operations == was.operations
            &&& now.ready == was.ready
            &&& now.fence == was.fence
            &&& after.volumes@.contains_key(elsewhere) == before.volumes@.contains_key(elsewhere)
            &&& before.volumes@.contains_key(elsewhere) ==> after.volumes@[elsewhere]
                == before.volumes@[elsewhere]
        }),
{
    turns_are_kept(before.scheduled@, volume, volume);
}

/// A page that is brought in as zeros is resident afterwards. One that is brought
/// in to be written to is dirty, and a new write of the volume.
pub proof fn a_write_to_an_empty_page_counts(
    before: HostState,
    after: HostState,
    volume: u64,
    incarnation: u64,
    page: u64,
    write: bool,
    filled: bool,
    other: u64,
    elsewhere: u64,
)
    requires
        zero_filled(before, after, volume, incarnation, page, write, filled),
        before.volumes@.contains_key(volume),
        before.volumes@[volume].mutation_seq < u64::MAX,
        before.volumes@[volume].pages_dirtied < u64::MAX,
        before.volumes@[volume].fills < u64::MAX,
        before.counters.zero_fills < u64::MAX,
        before.counters.guest_pages_dirtied < u64::MAX,
        other != page,
        elsewhere != volume,
    ensures
        ({
            let was = before.volumes@[volume];
            let now = after.volumes@[volume];
            let new = if write {
                1int
            } else {
                0
            };
            &&& filled <==> was.incarnation == incarnation && was.ready
            &&& filled ==> {
                &&& after.volumes@.contains_key(volume)
                &&& now.pages@.contains_key(page)
                &&& now.pages@[page].dirty == write
                &&& !now.pages@[page].flushing
                &&& now.mutation_seq == was.mutation_seq + new
                &&& now.pages_dirtied == was.pages_dirtied + new
                &&& now.fills == was.fills + 1
                &&& after.counters.zero_fills == before.counters.zero_fills + 1
                &&& after.counters.guest_pages_dirtied == before.counters.guest_pages_dirtied + new
                &&& write ==> after.scheduled@.contains(volume)
                &&& !write ==> after.scheduled@ == before.scheduled@
            }
            &&& !filled ==> after == before
            &&& now.pages@.contains_key(other) == was.pages@.contains_key(other)
            &&& was.pages@.contains_key(other) ==> now.pages@[other] == was.pages@[other]
            &&& now.page_locs == was.page_locs
            &&& now.blocks == was.blocks
            &&& now.best_record == was.best_record
            &&& now.operations == was.operations
            &&& after.volumes@.contains_key(elsewhere) == before.volumes@.contains_key(elsewhere)
            &&& before.volumes@.contains_key(elsewhere) ==> after.volumes@[elsewhere]
                == before.volumes@[elsewhere]
        }),
{
    turns_are_kept(before.scheduled@, volume, volume);
}

/// A page whose content was fetched to be written to is resident and dirty
/// afterwards, and a new write of the volume; one fetched to be read is resident
/// and clean. What was fetched is used only if the page still lies there, and its
/// sum is known from then on.
pub proof fn a_write_to_a_fetched_page_counts(
    before: HostState,
    after: HostState,
    volume: u64,
    incarnation: u64,
    page: u32,
    entry: PageEntry,
    write: bool,
    contribution: u64,
    outcome: FetchOutcome,
    other: u64,
    elsewhere: u64,
)
    requires
        fetch_finished(
            before,
            after,
            volume,
            incarnation,
            page,
            entry,
            write,
            contribution,
            outcome,
        ),
        before.volumes@.contains_key(volume),
        before.volumes@[volume].mutation_seq < u64::MAX,
        before.volumes@[volume].pages_dirtied < u64::MAX,
        before.volumes@[volume].fills < u64::MAX,
        before.counters.fills < u64::MAX,
        before.counters.shared_fills < u64::MAX,
        before.counters.guest_pages_dirtied < u64::MAX,
        other != page,
        elsewhere != volume,
    ensures
        ({
            let was = before.volumes@[volume];
            let now = after.volumes@[volume];
            let new = if write {
                1int
            } else {
                0
            };
            let open = was.incarnation == incarnation && was.ready;
            let there = was.page_locs@.contains_key(page as u64) && was.page_locs@[page as u64]
                == entry;
            let key = BaseKey {
                base: entry.loc.base,
                fence: entry.loc.fence,
                object: entry.loc.object,
                offset: entry.loc.offset,
            };
            &&& outcome is Gone <==> !open
            &&& outcome is Moved <==> open && !there
            &&& outcome is Filled <==> open && there && (write || entry.loc.base == 0)
            &&& outcome is Shared <==> open && there && !write && entry.loc.base != 0
            &&& outcome is Gone || outcome is Moved ==> after == before
            &&& outcome is Filled ==> {
                &&& now.pages@.contains_key(page as u64)
                &&& now.pages@[page as u64].dirty == write
                &&& !now.pages@[page as u64].flushing
                &&& now.mutation_seq == was.mutation_seq + new
                &&& now.pages_dirtied == was.pages_dirtied + new
            }
            &&& outcome is Shared ==> {
                &&& outcome == FetchOutcome::Shared(key)
                &&& after.bases@.contains(key)
                &&& now.pages == was.pages
                &&& now.mutation_seq == was.mutation_seq
                &&& after.counters.shared_fills == before.counters.shared_fills + 1
            }
            &&& outcome is Filled || outcome is Shared ==> {
                &&& after.volumes@.contains_key(volume)
                &&& now.fills == was.fills + 1
                &&& after.counters.fills == before.counters.fills + 1
                &&& after.counters.guest_pages_dirtied == before.counters.guest_pages_dirtied + new
                &&& write ==> after.scheduled@.contains(volume)
                &&& now.blocks@.contains_key(was.config.key(page).code())
                &&& now.blocks@[was.config.key(page).code()] == (BlockSum {
                    generation: entry.generation,
                    contribution,
                })
            }
            &&& now.pages@.contains_key(other) == was.pages@.contains_key(other)
            &&& was.pages@.contains_key(other) ==> now.pages@[other] == was.pages@[other]
            &&& now.page_locs == was.page_locs
            &&& now.best_record == was.best_record
            &&& now.operations == was.operations
            &&& after.volumes@.contains_key(elsewhere) == before.volumes@.contains_key(elsewhere)
            &&& before.volumes@.contains_key(elsewhere) ==> after.volumes@[elsewhere]
                == before.volumes@[elsewhere]
        }),
{
    turns_are_kept(before.scheduled@, volume, volume);
    let key = BaseKey {
        base: entry.loc.base,
        fence: entry.loc.fence,
        object: entry.loc.object,
        offset: entry.loc.offset,
    };
    assert(before.bases@.push(key)[before.bases@.len() as int] == key);
}

/// A page that is copied from one shared with other volumes, to be written to, is
/// resident and dirty afterwards, and a new write of the volume. One that is only
/// read stays shared.
pub proof fn a_write_to_a_shared_page_counts(
    before: HostState,
    after: HostState,
    volume: u64,
    incarnation: u64,
    page: u64,
    write: bool,
    write_protected: bool,
    filled: bool,
    other: u64,
    elsewhere: u64,
)
    requires
        shared_filled(before, after, volume, incarnation, page, write, write_protected, filled),
        before.volumes@.contains_key(volume),
        before.volumes@[volume].mutation_seq < u64::MAX,
        before.volumes@[volume].pages_dirtied < u64::MAX,
        before.volumes@[volume].fills < u64::MAX,
        before.counters.shared_fills < u64::MAX,
        before.counters.wp_faults < u64::MAX,
        before.counters.guest_pages_dirtied < u64::MAX,
        other != page,
        elsewhere != volume,
    ensures
        ({
            let was = before.volumes@[volume];
            let now = after.volumes@[volume];
            let new = if write {
                1int
            } else {
                0
            };
            let mapped = if write_protected {
                0int
            } else {
                1
            };
            &&& filled <==> was.incarnation == incarnation && was.ready
            &&& filled && write ==> {
                &&& now.pages@.contains_key(page)
                &&& now.pages@[page].dirty
                &&& !now.pages@[page].flushing
                &&& after.scheduled@.contains(volume)
            }
            &&& filled && !write ==> now.pages == was.pages
            &&& filled ==> {
                &&& after.volumes@.contains_key(volume)
                &&& now.mutation_seq == was.mutation_seq + new
                &&& now.pages_dirtied == was.pages_dirtied + new
                &&& now.fills == was.fills + mapped
                &&& after.counters.shared_fills == before.counters.shared_fills + mapped
                &&& after.counters.guest_pages_dirtied == before.counters.guest_pages_dirtied + new
                &&& after.counters.wp_faults == before.counters.wp_faults + (if write
                    && write_protected {
                    1int
                } else {
                    0
                })
            }
            &&& !filled ==> after == before
            &&& now.pages@.contains_key(other) == was.pages@.contains_key(other)
            &&& was.pages@.contains_key(other) ==> now.pages@[other] == was.pages@[other]
            &&& now.page_locs == was.page_locs
            &&& now.blocks == was.blocks
            &&& now.best_record == was.best_record
            &&& now.operations == was.operations
            &&& after.volumes@.contains_key(elsewhere) == before.volumes@.contains_key(elsewhere)
            &&& before.volumes@.contains_key(elsewhere) ==> after.volumes@[elsewhere]
                == before.volumes@[elsewhere]
        }),
{
    turns_are_kept(before.scheduled@, volume, volume);
}

/// However a write is served, it is served only while the volume's writes can
/// still be counted.
pub proof fn writes_can_be_counted(host: HostState, volume: u64)
    requires
        can_dirty(host, volume),
        host.volumes@.contains_key(volume),
    ensures
        host.volumes@[volume].mutation_seq < u64::MAX,
        host.volumes@[volume].pages_dirtied < u64::MAX,
        host.volumes@[volume].fills < u64::MAX,
        host.counters.guest_pages_dirtied < u64::MAX,
        host.counters.wp_faults < u64::MAX,
        host.counters.fills < u64::MAX,
        host.counters.shared_fills < u64::MAX,
        host.counters.zero_fills < u64::MAX,
        host.counters.faults_unservable < u64::MAX,
        host.counters.pressure_waits < u64::MAX,
{
}

/// A volume that gets a turn is in the queue, once, and behind those that were.
pub proof fn turns_are_kept(scheduled: Seq<u64>, volume: u64, other: u64)
    ensures
        with_scheduled(scheduled, volume).contains(volume),
        with_scheduled(scheduled, volume).contains(other) <==> scheduled.contains(other) || other
            == volume,
        forall|i: int|
            0 <= i < scheduled.len() ==> with_scheduled(scheduled, volume)[i] == scheduled[i],
        with_scheduled(scheduled, volume).len() <= scheduled.len() + 1,
        scheduled.contains(volume) ==> with_scheduled(scheduled, volume) == scheduled,
{
    let longer = scheduled.push(volume);
    assert(longer[scheduled.len() as int] == volume);
    if scheduled.contains(other) {
        let i = choose|i: int| 0 <= i < scheduled.len() && scheduled[i] == other;
        assert(longer[i] == other);
    }
    if longer.contains(other) && other != volume {
        let i = choose|i: int| 0 <= i < longer.len() && longer[i] == other;
        assert(scheduled[i] == other);
    }
}

// ---------------------------------------------------------------------------
// Which course a fault takes
// ---------------------------------------------------------------------------

/// Which faults are served at all: those on a page of an open volume.
pub proof fn faults_are_served_within_an_open_volume(host: HostState, volume: u64, page: u32)
    ensures
        servable(host, volume, page) <==> host.volumes@.contains_key(volume)
            && host.volumes@[volume].ready && page < host.volumes@[volume].config.pages,
{
}

/// A page is brought in by one fault at a time, and from where it lies. A page
/// that another volume has in memory already is shared for reading, and copied for
/// writing; a write to a page that is neither resident nor shared is only a write
/// if it was not mapped.
pub proof fn a_page_is_brought_in_from_where_it_lies(
    before: HostState,
    after: HostState,
    volume: u64,
    incarnation: u64,
    page: u64,
    write: bool,
    write_protected: bool,
    slot_free: bool,
    plan: FillPlan,
    other: u64,
)
    requires
        fill_begun(
            before,
            after,
            volume,
            incarnation,
            page,
            write,
            write_protected,
            slot_free,
            plan,
        ),
        before.volumes@.contains_key(volume),
        before.counters.faults_unservable < u64::MAX,
        before.counters.pressure_waits < u64::MAX,
        other != page,
    ensures
        ({
            let was = before.volumes@[volume];
            let open = was.incarnation == incarnation && was.ready;
            let lies = was.page_locs@.contains_key(page);
            let entry = was.page_locs@[page];
            let key = BaseKey {
                base: entry.loc.base,
                fence: entry.loc.fence,
                object: entry.loc.object,
                offset: entry.loc.offset,
            };
            let resident = lies && entry.loc.base != 0 && before.bases@.contains(key);
            let free = open && !was.filling@.contains(page);
            let begins = plan is Shared || plan is Ready;
            &&& plan is Gone <==> !open
            &&& plan is Filling <==> open && was.filling@.contains(page)
            &&& free && resident && !write ==> plan == (FillPlan::Shared {
                share: key,
                slot: false,
            })
            &&& free && resident && write && slot_free ==> plan == (FillPlan::Shared {
                share: key,
                slot: true,
            })
            &&& free && resident && write && !slot_free ==> plan is Wait
            &&& free && !resident && write_protected ==> plan is InvalidWriteProtect
            &&& free && !resident && !write_protected && !slot_free ==> plan is Wait
            &&& free && !resident && !write_protected && slot_free ==> plan == (FillPlan::Ready {
                entry: if lies {
                    Some(entry)
                } else {
                    None
                },
                memory: was.config.kind == VolumeKind::Memory,
                source: was.peer_source,
            })
            &&& begins ==> after.volumes@[volume].filling@.contains(page)
            &&& !begins ==> after.volumes == before.volumes
            &&& after.volumes@[volume].filling@.contains(other) == was.filling@.contains(other)
            &&& after.volumes@[volume].pages == was.pages
            &&& after.volumes@[volume].page_locs == was.page_locs
            &&& after.volumes@[volume].mutation_seq == was.mutation_seq
            &&& plan is InvalidWriteProtect ==> after.counters.faults_unservable
                == before.counters.faults_unservable + 1
            &&& plan is Wait ==> after.counters.pressure_waits == before.counters.pressure_waits + 1
        }),
{
}

/// A fetch that failed is tried again if the page has moved meanwhile, and then
/// only; otherwise the fault is counted as one that could not be served.
pub proof fn a_failed_fetch_is_tried_again_if_the_page_moved(
    before: HostState,
    after: HostState,
    volume: u64,
    incarnation: u64,
    page: u64,
    entry: PageEntry,
    again: bool,
)
    requires
        fetch_failed(before, after, volume, incarnation, page, entry, again),
        before.counters.faults_unservable < u64::MAX,
    ensures
        again <==> before.volumes@.contains_key(volume) && before.volumes@[volume].incarnation
            == incarnation && before.volumes@[volume].page_locs@.contains_key(page)
            && before.volumes@[volume].page_locs@[page] != entry,
        again ==> after == before,
        !again ==> after.counters.faults_unservable == before.counters.faults_unservable + 1,
        after.volumes == before.volumes,
{
}

// ---------------------------------------------------------------------------
// Where a page is fetched from
// ---------------------------------------------------------------------------

/// The archived object that holds a page is the first one that was written under
/// the page's fence and number, for this volume or for the base the page is from.
pub proof fn the_first_object_of_that_name_holds_a_page(
    objects: Seq<ObjectRef>,
    volume: u64,
    entry: PageEntry,
    i: int,
)
    requires
        0 <= i < objects.len(),
        objects[i].identity.writer_fence == entry.loc.fence,
        objects[i].identity.object_id == entry.loc.object,
        entry.loc.base == 0 ==> objects[i].identity.namespace_kind == NamespaceKind::Volume
            && objects[i].identity.namespace_id == volume,
        entry.loc.base != 0 ==> objects[i].identity.namespace_id == entry.loc.base,
        forall|j: int|
            0 <= j < i ==> {
                let name = (#[trigger] objects[j]).identity;
                ||| name.writer_fence != entry.loc.fence
                ||| name.object_id != entry.loc.object
                ||| entry.loc.base == 0 && !(name.namespace_kind == NamespaceKind::Volume
                    && name.namespace_id == volume)
                ||| entry.loc.base != 0 && name.namespace_id != entry.loc.base
            },
    ensures
        holding_object(objects, volume, entry) == Some(objects[i].identity),
    decreases objects.len(),
{
    let front = objects.drop_last();
    if i < front.len() {
        assert forall|j: int| 0 <= j < i implies {
            let name = (#[trigger] front[j]).identity;
            ||| name.writer_fence != entry.loc.fence
            ||| name.object_id != entry.loc.object
            ||| entry.loc.base == 0 && !(name.namespace_kind == NamespaceKind::Volume
                && name.namespace_id == volume)
            ||| entry.loc.base != 0 && name.namespace_id != entry.loc.base
        } by {
            assert(front[j] == objects[j]);
        }
        the_first_object_of_that_name_holds_a_page(front, volume, entry, i);
    } else {
        assert forall|j: int| 0 <= j < front.len() implies {
            let name = (#[trigger] front[j]).identity;
            ||| name.writer_fence != entry.loc.fence
            ||| name.object_id != entry.loc.object
            ||| entry.loc.base == 0 && !(name.namespace_kind == NamespaceKind::Volume
                && name.namespace_id == volume)
            ||| entry.loc.base != 0 && name.namespace_id != entry.loc.base
        } by {
            assert(front[j] == objects[j]);
        }
        no_object_of_that_name_holds_a_page(front, volume, entry);
    }
}

/// Without an object of that name, none holds the page.
pub proof fn no_object_of_that_name_holds_a_page(
    objects: Seq<ObjectRef>,
    volume: u64,
    entry: PageEntry,
)
    requires
        forall|j: int|
            0 <= j < objects.len() ==> {
                let name = (#[trigger] objects[j]).identity;
                ||| name.writer_fence != entry.loc.fence
                ||| name.object_id != entry.loc.object
                ||| entry.loc.base == 0 && !(name.namespace_kind == NamespaceKind::Volume
                    && name.namespace_id == volume)
                ||| entry.loc.base != 0 && name.namespace_id != entry.loc.base
            },
    ensures
        holding_object(objects, volume, entry) is None,
    decreases objects.len(),
{
    if objects.len() > 0 {
        let front = objects.drop_last();
        assert forall|j: int| 0 <= j < front.len() implies {
            let name = (#[trigger] front[j]).identity;
            ||| name.writer_fence != entry.loc.fence
            ||| name.object_id != entry.loc.object
            ||| entry.loc.base == 0 && !(name.namespace_kind == NamespaceKind::Volume
                && name.namespace_id == volume)
            ||| entry.loc.base != 0 && name.namespace_id != entry.loc.base
        } by {
            assert(front[j] == objects[j]);
        }
        no_object_of_that_name_holds_a_page(front, volume, entry);
        assert(objects[objects.len() - 1] == objects.last());
    }
}

/// Where a page is looked for: here, unless it is of an earlier holder that still
/// has it; with that holder and with the peer that keeps the volume's commits only
/// what the volume wrote itself; and in the archive under the name it lies under.
pub proof fn a_page_is_looked_for_where_it_can_be(
    state: VolumeState,
    volume: u64,
    entry: PageEntry,
    source: Option<HostId>,
)
    ensures
        ({
            let own = entry.loc.base == 0;
            let from = fetch_sources_spec(state, volume, entry, source);
            &&& from.local <==> !(own && source is Some && entry.loc.fence < state.fence)
            &&& from.peer == (if own {
                source
            } else {
                None
            })
            &&& from.replica is Some <==> own && state.stash_assignment is Some
            &&& from.replica is Some ==> {
                let stash = state.stash_assignment->0;
                let replica = from.replica->0;
                &&& replica.assignment_epoch == stash.assignment_epoch
                &&& stash.transition_peer is Some ==> Some(replica.peer) == stash.transition_peer
                &&& stash.transition_peer is None ==> replica.peer == stash.active_peer
            }
            &&& holding_object(state.archive_objects@, volume, entry) is None ==> from.archive
                == (ArchiveName::File {
                origin: if own {
                    volume
                } else {
                    entry.loc.base
                },
                fence: entry.loc.fence,
                object: entry.loc.object,
            })
            &&& holding_object(state.archive_objects@, volume, entry) is Some ==> from.archive
                == ArchiveName::Object(holding_object(state.archive_objects@, volume, entry)->0)
        }),
{
}

} // verus!
