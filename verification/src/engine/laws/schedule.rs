//! What scheduling is for: every volume that has something to do gets its turn, and
//! no more is begun than there is room for.

use super::super::schedule::{
    due_work, has_release, is_interrupted, is_remote, needs_archiving, needs_capture,
    needs_hydration, needs_reoffer, needs_replication, of_volume, one, picked, scheduled_each,
    uncopied, ScheduledWork,
};
use super::super::sources::{joined, rejoined, sync_decision};
use super::super::keyed_queue::KeyedQueue;
use super::super::state::HostState;
use super::super::volume::{PageEntry, VolumeKind, VolumeState};
use super::fault::turns_are_kept;
use vstd::prelude::*;

verus! {

/// When a volume is captured: it is open, nothing else changes it, and something was
/// written, went, or waits to be made durable.
pub proof fn a_written_volume_is_captured(state: VolumeState)
    ensures
        needs_capture(state) <==> {
            &&& state.ready
            &&& state.operations.mutation is None
            &&& !state.operations.guest_resume
            &&& !state.operations.migration
            &&& {
                ||| exists|page: u64| #[trigger]
                    state.pages@.contains_key(page) && state.pages@[page].dirty
                ||| state.pending_tombstones@.len() > 0
                ||| exists|i: int|
                    0 <= i < state.pending_syncs@.len() && (
                    #[trigger] state.pending_syncs@[i]).barrier > state.local_covered_through
            }
        },
{
}

/// When pages are brought over from an earlier holder: while there is one, and the
/// volume is open or has no page there any more.
pub proof fn a_moved_volume_is_brought_over(state: VolumeState, entry: PageEntry)
    ensures
        needs_hydration(state) <==> {
            &&& state.operations.mutation is None
            &&& !state.operations.guest_resume
            &&& state.peer_source is Some
            &&& state.ready || !(exists|page: u64| #[trigger]
                state.page_locs@.contains_key(page) && state.page_locs@[page].loc.base == 0
                    && state.page_locs@[page].loc.fence < state.fence)
        },
        is_remote(entry, state.fence) <==> entry.loc.base == 0 && entry.loc.fence < state.fence,
{
    if exists|page: u64| #[trigger]
        state.page_locs@.contains_key(page) && is_remote(state.page_locs@[page], state.fence) {
        let page = choose|page: u64| #[trigger]
            state.page_locs@.contains_key(page) && is_remote(state.page_locs@[page], state.fence);
        assert(state.page_locs@.contains_key(page) && state.page_locs@[page].loc.base == 0);
    }
    if exists|page: u64| #[trigger]
        state.page_locs@.contains_key(page) && state.page_locs@[page].loc.base == 0
            && state.page_locs@[page].loc.fence < state.fence {
        let page = choose|page: u64| #[trigger]
            state.page_locs@.contains_key(page) && state.page_locs@[page].loc.base == 0
                && state.page_locs@[page].loc.fence < state.fence;
        assert(is_remote(state.page_locs@[page], state.fence));
    }
}

/// When a commit is copied to the second keeper: as long as neither it nor the
/// archive has the newest record.
pub proof fn the_newest_record_is_copied(state: VolumeState)
    requires
        state.best_record is Some,
    ensures
        ({
            let record = state.best_record->0;
            let published = match state.peer_published {
                Some(p) => p.writer_fence > record.fence || (p.writer_fence == record.fence && (
                p.seq > record.seq || (p.seq == record.seq && p.sync_covered_through
                    >= record.sync_covered_through))),
                None => false,
            };
            let copied = match state.peer_committed {
                Some(c) => c.writer_fence > record.fence || (c.writer_fence == record.fence && (
                c.seq > record.seq || (c.seq == record.seq && c.sync_covered_through
                    >= record.sync_covered_through))),
                None => false,
            };
            &&& uncopied(state) <==> !published && !copied
            &&& needs_replication(state) <==> state.ready && !state.operations.replication
                && state.stash_assignment is Some && !published && !copied
        }),
{
}

/// Without a record there is nothing to copy.
pub proof fn nothing_is_copied_before_the_first_record(state: VolumeState)
    requires
        state.best_record is None,
    ensures
        !uncopied(state),
        !needs_replication(state),
{
}

/// When a commit is archived: once the second keeper has one that the archive has
/// not, and the volume stays.
pub proof fn a_copied_commit_is_archived(state: VolumeState)
    ensures
        ({
            let newer = match (state.peer_committed, state.peer_published) {
                (Some(c), Some(p)) => p.writer_fence < c.writer_fence || (p.writer_fence
                    == c.writer_fence && p.seq < c.seq),
                (Some(_), None) => true,
                (None, _) => false,
            };
            needs_archiving(state) <==> !state.operations.publication
                && !state.operations.migration && !state.outbound
                && state.stash_assignment is Some && newer
        }),
        needs_reoffer(state) <==> state.outbound && state.best_record is Some
            && !state.operations.migration,
{
}

/// What is due on a volume: each kind of work exactly if it is needed, and once.
pub proof fn needed_work_is_due(host: HostState, volume: u64)
    requires
        host.volumes@.contains_key(volume),
    ensures
        ({
            let due = due_work(host, volume);
            let state = host.volumes@[volume];
            &&& due.contains(ScheduledWork::Capture) <==> needs_capture(state)
            &&& due.contains(ScheduledWork::Hydrate) <==> needs_hydration(state)
            &&& due.contains(ScheduledWork::Replicate) <==> needs_replication(state)
            &&& due.contains(ScheduledWork::Release) <==> exists|i: int|
                0 <= i < host.releases@.len() && #[trigger] host.releases@[i].volume == volume
            &&& due.contains(ScheduledWork::Archive) <==> needs_archiving(state)
            &&& due.contains(ScheduledWork::Reoffer) <==> needs_reoffer(state)
            &&& due.no_duplicates()
        }),
{
    let state = host.volumes@[volume];
    let nothing = Seq::<ScheduledWork>::empty();
    let a = one(needs_capture(state), ScheduledWork::Capture);
    let b = a + one(needs_hydration(state), ScheduledWork::Hydrate);
    let c = b + one(needs_replication(state), ScheduledWork::Replicate);
    let d = c + one(has_release(host.releases@, volume), ScheduledWork::Release);
    let e = d + one(needs_archiving(state), ScheduledWork::Archive);
    lemma_one_more(nothing, needs_capture(state), ScheduledWork::Capture);
    assert(nothing + a =~= a);
    lemma_one_more(a, needs_hydration(state), ScheduledWork::Hydrate);
    lemma_one_more(b, needs_replication(state), ScheduledWork::Replicate);
    lemma_one_more(c, has_release(host.releases@, volume), ScheduledWork::Release);
    lemma_one_more(d, needs_archiving(state), ScheduledWork::Archive);
    lemma_one_more(e, needs_reoffer(state), ScheduledWork::Reoffer);
}

proof fn lemma_one_more(list: Seq<ScheduledWork>, due: bool, work: ScheduledWork)
    requires
        list.no_duplicates(),
        !list.contains(work),
    ensures
        forall|w: ScheduledWork| #[trigger]
            (list + one(due, work)).contains(w) <==> list.contains(w) || (due && w == work),
        (list + one(due, work)).no_duplicates(),
{
    let more = list + one(due, work);
    assert forall|w: ScheduledWork| #[trigger] more.contains(w) <==> list.contains(w) || (due && w
        == work) by {
        if list.contains(w) {
            let i = choose|i: int| 0 <= i < list.len() && list[i] == w;
            assert(more[i] == w);
        }
        if due {
            assert(more[list.len() as int] == work);
        }
        if more.contains(w) {
            let i = choose|i: int| 0 <= i < more.len() && more[i] == w;
            if i < list.len() {
                assert(list[i] == w);
            }
        }
    }
    assert forall|i: int, j: int| 0 <= i < more.len() && 0 <= j < more.len() && i
        != j implies more[i] != more[j] by {
        if i < list.len() {
            assert(list.contains(list[i]));
        }
        if j < list.len() {
            assert(list.contains(list[j]));
        }
    }
}

/// A volume that has gone has nothing to do.
pub proof fn a_gone_volume_has_nothing_to_do(host: HostState, volume: u64)
    requires
        !host.volumes@.contains_key(volume),
    ensures
        due_work(host, volume).len() == 0,
{
}

/// What is begun in a turn: no more than there is room for, only what is due, only
/// on volumes that were waiting, and not on those that are left out.
pub proof fn only_due_work_is_begun(
    host: HostState,
    skipped: Set<u64>,
    scheduled: Seq<u64>,
    budget: nat,
    free: nat,
    i: int,
)
    ensures
        picked(host, skipped, scheduled, budget, free).started.len() <= free,
        picked(host, skipped, scheduled, budget, free).examined <= budget,
        0 <= i < picked(host, skipped, scheduled, budget, free).started.len() ==> {
            let begun = picked(host, skipped, scheduled, budget, free).started[i];
            &&& scheduled.contains(begun.volume)
            &&& !skipped.contains(begun.volume)
            &&& due_work(host, begun.volume).contains(begun.work)
        },
    decreases budget,
{
    if budget > 0 && free > 0 && scheduled.len() > 0 {
        let volume = scheduled[0];
        let rest = scheduled.skip(1);
        let work = due_work(host, volume);
        let all = picked(host, skipped, scheduled, budget, free);
        assert(scheduled.contains(volume));
        assert forall|v: u64| #[trigger] rest.contains(v) implies scheduled.contains(v) by {
            let k = choose|k: int| 0 <= k < rest.len() && rest[k] == v;
            assert(scheduled[k + 1] == v);
        }
        if skipped.contains(volume) {
            only_due_work_is_begun(host, skipped, rest, (budget - 1) as nat, free, i);
        } else if work.len() <= free {
            let mine = of_volume(volume, work);
            only_due_work_is_begun(
                host,
                skipped,
                rest,
                (budget - 1) as nat,
                (free - work.len()) as nat,
                i - mine.len(),
            );
            if 0 <= i < mine.len() {
                assert(all.started[i].work == work[i]);
                assert(work.contains(work[i]));
            }
        } else {
            let mine = of_volume(volume, work.take(free as int));
            if 0 <= i < mine.len() {
                assert(all.started[i].work == work[i]);
                assert(work.contains(work[i]));
            }
        }
    }
}

/// The volume that has waited longest goes first: all that is due on it is begun,
/// in order, as far as there is room, and if there is not room for all of it it
/// keeps waiting.
pub proof fn the_first_in_line_goes_first(
    host: HostState,
    skipped: Set<u64>,
    scheduled: Seq<u64>,
    budget: nat,
    free: nat,
    i: int,
)
    requires
        budget > 0,
        free > 0,
        scheduled.len() > 0,
        !skipped.contains(scheduled[0]),
    ensures
        ({
            let volume = scheduled[0];
            let due = due_work(host, volume);
            let all = picked(host, skipped, scheduled, budget, free);
            &&& 0 <= i < due.len() && i < free ==> {
                &&& i < all.started.len()
                &&& all.started[i].volume == volume
                &&& all.started[i].work == due[i]
            }
            &&& due.len() > free ==> all.scheduled.contains(volume)
            &&& all.examined >= 1
        }),
{
    let volume = scheduled[0];
    turns_are_kept(scheduled.skip(1), volume, volume);
}

/// Volumes that get a turn are all in the queue, with those that were.
pub proof fn each_gets_its_turn(scheduled: Seq<u64>, volumes: Seq<u64>, volume: u64)
    ensures
        scheduled_each(scheduled, volumes).contains(volume) <==> scheduled.contains(volume)
            || volumes.contains(volume),
    decreases volumes.len(),
{
    if volumes.len() > 0 {
        let front = volumes.drop_last();
        each_gets_its_turn(scheduled, front, volume);
        turns_are_kept(scheduled_each(scheduled, front), volumes.last(), volume);
        assert(volumes[volumes.len() - 1] == volumes.last());
        if front.contains(volume) {
            let i = choose|i: int| 0 <= i < front.len() && front[i] == volume;
            assert(volumes[i] == volume);
        }
        if volumes.contains(volume) && volume != volumes.last() {
            let i = choose|i: int| 0 <= i < volumes.len() && volumes[i] == volume;
            assert(front[i] == volume);
        }
    }
}

/// Work on a volume stops once the volume is replaced, moves or has moved.
pub proof fn moving_interrupts(host: HostState, volume: u64, incarnation: u64)
    ensures
        is_interrupted(host, volume, incarnation) <==> !host.volumes@.contains_key(volume)
            || host.volumes@[volume].incarnation != incarnation
            || host.volumes@[volume].operations.migration || host.volumes@[volume].outbound,
{
}

// ---------------------------------------------------------------------------
// Synchronisations
// ---------------------------------------------------------------------------

/// A synchronisation is for data of an open volume. It is answered at once if
/// everything written so far is acknowledged, and waits otherwise.
pub proof fn a_synchronisation_waits_for_what_was_written(
    host: HostState,
    volume: u64,
    authorized: bool,
)
    ensures
        ({
            let state = host.volumes@[volume];
            let served = authorized && host.volumes@.contains_key(volume) && state.ready
                && state.config.kind == VolumeKind::Data;
            let decision = sync_decision(host, volume, authorized);
            &&& decision is Rejected <==> !served
            &&& decision is Acknowledged <==> served && state.mutation_seq
                <= state.sync_ack_through
            &&& decision is Pending <==> served && state.mutation_seq > state.sync_ack_through
        }),
{
}

/// A key gets into line with its first work, and back into line with work that came
/// while it was busy; the others keep their places.
pub proof fn keys_line_up_in_order<V>(queue: KeyedQueue<V>, key: u64, i: int)
    requires
        0 <= i < queue.ready().len(),
    ensures
        joined(queue, key)[i] == queue.ready()[i],
        rejoined(queue, key)[i] == queue.ready()[i],
        queue.waiting(key).len() == 0 && !queue.active().contains(key) ==> joined(queue, key)
            == queue.ready().push(key),
        queue.waiting(key).len() > 0 || queue.active().contains(key) ==> joined(queue, key)
            == queue.ready(),
        queue.waiting(key).len() > 0 ==> rejoined(queue, key) == queue.ready().push(key),
        queue.waiting(key).len() == 0 ==> rejoined(queue, key) == queue.ready(),
{
}

} // verus!
