//! Which background work a volume is due for.

use super::maps::{lists_keys, lists_members, sorted_keys, sorted_members};
use super::state::{follows, with_scheduled, HostState, ReplicaRelease};
use super::volume::{PageEntry, VolumeState};
use std::collections::{BTreeMap, BTreeSet};
use vstd::prelude::*;

verus! {

broadcast use vstd::std_specs::btree::group_btree_axioms;

/// Background tasks at a time, and volumes looked at in one go.
pub const SCHEDULED_WORK_CONCURRENCY: usize = 64;

/// Volumes reconciled at a time when a host starts.
pub const STARTUP_RECONCILE_CONCURRENCY: usize = 32;

#[derive(Clone, Copy, PartialEq, Eq, Debug, Structural)]
pub enum ScheduledWork {
    Capture,
    Hydrate,
    Replicate,
    Release,
    Archive,
    Reoffer,
}

// ---------------------------------------------------------------------------
// What is due
// ---------------------------------------------------------------------------

/// Something changed, or a guest waits for something, that no commit has.
pub open spec fn needs_capture(state: VolumeState) -> bool {
    &&& state.ready
    &&& !state.operations.mutation_blocked()
    &&& !state.operations.migration
    &&& state.has_dirty() || state.pending_tombstones@.len() > 0 || state.uncovered_sync()
}

/// Some page of the volume itself still lies on the host it came from.
pub open spec fn has_remote_page(state: VolumeState) -> bool {
    exists|page: u64| #[trigger]
        state.page_locs@.contains_key(page) && is_remote(state.page_locs@[page], state.fence)
}

pub open spec fn is_remote(entry: PageEntry, fence: u64) -> bool {
    entry.loc.base == 0 && entry.loc.fence < fence
}

fn any_remote(locs: &BTreeMap<u64, PageEntry>, fence: u64) -> (found: bool)
    ensures
        found == (exists|page: u64| #[trigger]
            locs@.contains_key(page) && is_remote(locs@[page], fence)),
{
    let keys: Vec<u64> = sorted_keys(locs);
    let mut i: usize = 0;
    while i < keys.len()
        invariant
            i <= keys@.len(),
            lists_keys(keys@, locs@),
            forall|a: int| 0 <= a < i ==> !is_remote(locs@[#[trigger] keys@[a]], fence),
        decreases keys@.len() - i,
    {
        proof {
            assert(keys@.contains(keys@[i as int]));
        }
        if let Some(entry) = locs.get(&keys[i]) {
            if entry.loc.base == 0 && entry.loc.fence < fence {
                return true;
            }
        }
        i = i + 1;
    }
    proof {
        assert forall|page: u64| #[trigger] locs@.contains_key(page) implies !is_remote(
            locs@[page],
            fence,
        ) by {
            assert(keys@.contains(page));
            let a = choose|a: int| 0 <= a < keys@.len() && keys@[a] == page;
        }
    }
    false
}

/// Pages are to be fetched from the host the volume came from, or all are here
/// and that host can be let go.
pub open spec fn needs_hydration(state: VolumeState) -> bool {
    &&& !state.operations.mutation_blocked()
    &&& state.peer_source is Some
    &&& state.ready || !has_remote_page(state)
}

/// The newest commit is neither archived nor with the second keeper.
pub open spec fn uncopied(state: VolumeState) -> bool {
    match state.best_record {
        Some(record) => {
            let required = record.commit_info();
            &&& (match state.peer_published {
                Some(published) => !published.at_least(required),
                None => true,
            })
            &&& (match state.peer_committed {
                Some(committed) => !committed.at_least(required),
                None => true,
            })
        },
        None => false,
    }
}

pub open spec fn needs_replication(state: VolumeState) -> bool {
    state.ready && !state.operations.replication && state.stash_assignment is Some && uncopied(
        state,
    )
}

/// A copy of the volume on another host is to be given up.
pub open spec fn has_release(releases: Seq<ReplicaRelease>, volume: u64) -> bool {
    exists|i: int| 0 <= i < releases.len() && #[trigger] releases[i].volume == volume
}

fn any_release(releases: &Vec<ReplicaRelease>, volume: u64) -> (found: bool)
    ensures
        found == has_release(releases@, volume),
{
    let mut i: usize = 0;
    while i < releases.len()
        invariant
            i <= releases@.len(),
            forall|a: int| 0 <= a < i ==> (#[trigger] releases@[a]).volume != volume,
        decreases releases@.len() - i,
    {
        if releases[i].volume == volume {
            return true;
        }
        i = i + 1;
    }
    false
}

/// The second keeper has a commit that is not archived.
pub open spec fn needs_archiving(state: VolumeState) -> bool {
    &&& !state.operations.publication
    &&& !state.operations.migration
    &&& !state.outbound
    &&& state.stash_assignment is Some
    &&& match state.peer_committed {
        Some(committed) => match state.peer_published {
            Some(published) => published.record_before(committed),
            None => true,
        },
        None => false,
    }
}

/// The volume is being handed over and can be offered again.
pub open spec fn needs_reoffer(state: VolumeState) -> bool {
    state.outbound && state.best_record is Some && !state.operations.migration
}

pub open spec fn one(due: bool, work: ScheduledWork) -> Seq<ScheduledWork> {
    if due {
        seq![work]
    } else {
        Seq::empty()
    }
}

/// What a volume is due for, in this order.
pub open spec fn due_work(host: HostState, volume: u64) -> Seq<ScheduledWork> {
    if host.volumes@.contains_key(volume) {
        let state = host.volumes@[volume];
        one(needs_capture(state), ScheduledWork::Capture) + one(
            needs_hydration(state),
            ScheduledWork::Hydrate,
        ) + one(needs_replication(state), ScheduledWork::Replicate) + one(
            has_release(host.releases@, volume),
            ScheduledWork::Release,
        ) + one(needs_archiving(state), ScheduledWork::Archive) + one(
            needs_reoffer(state),
            ScheduledWork::Reoffer,
        )
    } else {
        Seq::empty()
    }
}

fn capture_due(state: &VolumeState) -> (due: bool)
    ensures
        due == needs_capture(*state),
{
    if !state.ready || state.operations.mutation_blocked() || state.operations.migration {
        return false;
    }
    state.has_dirty() || state.pending_tombstones.len() > 0 || state.uncovered_sync()
}

fn hydration_due(state: &VolumeState) -> (due: bool)
    ensures
        due == needs_hydration(*state),
{
    if state.operations.mutation_blocked() || state.peer_source.is_none() {
        return false;
    }
    state.ready || !any_remote(&state.page_locs, state.fence)
}

fn replication_due(state: &VolumeState) -> (due: bool)
    ensures
        due == needs_replication(*state),
{
    if !state.ready || state.operations.replication || state.stash_assignment.is_none() {
        return false;
    }
    match &state.best_record {
        Some(record) => {
            let required = record.commit_info();
            let published: bool = match state.peer_published {
                Some(published) => published.at_least(required),
                None => false,
            };
            let committed: bool = match state.peer_committed {
                Some(committed) => committed.at_least(required),
                None => false,
            };
            !published && !committed
        },
        None => false,
    }
}

fn archiving_due(state: &VolumeState) -> (due: bool)
    ensures
        due == needs_archiving(*state),
{
    if state.operations.publication || state.operations.migration || state.outbound
        || state.stash_assignment.is_none() {
        return false;
    }
    match state.peer_committed {
        Some(committed) => match state.peer_published {
            Some(published) => published.record_before(committed),
            None => true,
        },
        None => false,
    }
}

fn reoffer_due(state: &VolumeState) -> (due: bool)
    ensures
        due == needs_reoffer(*state),
{
    state.outbound && state.best_record.is_some() && !state.operations.migration
}

fn push_if(work: &mut Vec<ScheduledWork>, due: bool, item: ScheduledWork)
    requires
        old(work)@.len() < 6,
    ensures
        final(work)@ == old(work)@ + one(due, item),
        final(work)@.len() <= old(work)@.len() + 1,
{
    if due {
        work.push(item);
    }
}

/// The background work a volume is due for.
pub fn work_ready(host: &HostState, volume: u64) -> (work: Vec<ScheduledWork>)
    ensures
        work@ == due_work(*host, volume),
        work@.len() <= 6,
{
    let mut work: Vec<ScheduledWork> = Vec::new();
    if let Some(state) = host.volumes.get(&volume) {
        push_if(&mut work, capture_due(state), ScheduledWork::Capture);
        push_if(&mut work, hydration_due(state), ScheduledWork::Hydrate);
        push_if(&mut work, replication_due(state), ScheduledWork::Replicate);
        push_if(&mut work, any_release(&host.releases, volume), ScheduledWork::Release);
        push_if(&mut work, archiving_due(state), ScheduledWork::Archive);
        push_if(&mut work, reoffer_due(state), ScheduledWork::Reoffer);
        proof {
            let s = *state;
        }
    }
    work
}

/// Once a state is archived the volume is not due for copying it again, until a
/// later commit is made.
pub proof fn archived_commits_are_not_copied_again(state: VolumeState)
    requires
        match (state.best_record, state.peer_published) {
            (Some(record), Some(published)) => published == record.commit_info(),
            _ => false,
        },
    ensures
        !needs_replication(state),
{
}

/// A closed volume is not captured.
pub proof fn closed_volumes_are_not_captured(host: HostState, volume: u64)
    requires
        host.volumes@.contains_key(volume),
        !host.volumes@[volume].ready,
    ensures
        !due_work(host, volume).contains(ScheduledWork::Capture),
{
    let state = host.volumes@[volume];
    let work = due_work(host, volume);
    let rest = one(needs_hydration(state), ScheduledWork::Hydrate) + one(
        needs_replication(state),
        ScheduledWork::Replicate,
    ) + one(has_release(host.releases@, volume), ScheduledWork::Release) + one(
        needs_archiving(state),
        ScheduledWork::Archive,
    ) + one(needs_reoffer(state), ScheduledWork::Reoffer);
    assert forall|i: int| 0 <= i < rest.len() implies rest[i] != ScheduledWork::Capture by {}
}

// ---------------------------------------------------------------------------
// Taking work
// ---------------------------------------------------------------------------

#[derive(Clone, Copy, PartialEq, Eq, Debug, Structural)]
pub struct StartedWork {
    pub volume: u64,
    pub work: ScheduledWork,
}

pub struct PickedWork {
    pub examined: usize,
    pub started: Vec<StartedWork>,
}

/// The outcome of looking at due volumes: which are still due, how many were
/// looked at, and what is to be started.
pub struct Picked {
    pub scheduled: Seq<u64>,
    pub examined: nat,
    pub started: Seq<StartedWork>,
}

pub open spec fn of_volume(volume: u64, work: Seq<ScheduledWork>) -> Seq<StartedWork> {
    work.map_values(|w: ScheduledWork| StartedWork { volume, work: w })
}

/// Looks at due volumes, longest waiting first, while tasks are free and the
/// budget lasts. A volume with more work than there are free tasks is due again.
pub open spec fn picked(
    host: HostState,
    skipped: Set<u64>,
    scheduled: Seq<u64>,
    budget: nat,
    free: nat,
) -> Picked
    decreases budget,
{
    if budget == 0 || free == 0 || scheduled.len() == 0 {
        Picked { scheduled, examined: 0, started: Seq::empty() }
    } else {
        let volume = scheduled[0];
        let rest = scheduled.skip(1);
        let work = due_work(host, volume);
        if skipped.contains(volume) {
            let later = picked(host, skipped, rest, (budget - 1) as nat, free);
            Picked { examined: later.examined + 1, ..later }
        } else if work.len() <= free {
            let later = picked(
                host,
                skipped,
                rest,
                (budget - 1) as nat,
                (free - work.len()) as nat,
            );
            Picked {
                scheduled: later.scheduled,
                examined: later.examined + 1,
                started: of_volume(volume, work) + later.started,
            }
        } else {
            Picked {
                scheduled: with_scheduled(rest, volume),
                examined: 1,
                started: of_volume(volume, work.take(free as int)),
            }
        }
    }
}

proof fn lemma_due_ignores_schedule(a: HostState, b: HostState, volume: u64)
    requires
        a.volumes == b.volumes,
        a.releases == b.releases,
    ensures
        due_work(a, volume) == due_work(b, volume),
{
}

/// Starts the work of due volumes, as far as tasks are free. Volumes in
/// `skipped` have just been worked on and wait for the next round.
pub fn pick_work(host: &mut HostState, running: usize, skipped: &BTreeSet<u64>) -> (picked_work:
    PickedWork)
    requires
        running <= SCHEDULED_WORK_CONCURRENCY,
    ensures
        ({
            let all = picked(
                *old(host),
                skipped@,
                old(host).scheduled@,
                SCHEDULED_WORK_CONCURRENCY as nat,
                (SCHEDULED_WORK_CONCURRENCY - running) as nat,
            );
            &&& picked_work.examined == all.examined
            &&& picked_work.started@ == all.started
            &&& final(host).scheduled@ == all.scheduled
        }),
        *final(host) == (HostState { scheduled: final(host).scheduled, ..*old(host) }),
        running + picked_work.started@.len() <= SCHEDULED_WORK_CONCURRENCY,
        follows(*old(host), *final(host)),
{
    let mut examined: usize = 0;
    let mut started: Vec<StartedWork> = Vec::new();
    let ghost start = *host;
    let ghost all = picked(
        start,
        skipped@,
        start.scheduled@,
        SCHEDULED_WORK_CONCURRENCY as nat,
        (SCHEDULED_WORK_CONCURRENCY - running) as nat,
    );
    let mut full: bool = running == SCHEDULED_WORK_CONCURRENCY;
    while examined < SCHEDULED_WORK_CONCURRENCY && !full && host.scheduled.len() > 0
        invariant
            examined <= SCHEDULED_WORK_CONCURRENCY,
            running + started@.len() <= SCHEDULED_WORK_CONCURRENCY,
            full == (running + started@.len() == SCHEDULED_WORK_CONCURRENCY),
            start == *old(host),
            *host == (HostState { scheduled: host.scheduled, ..start }),
            ({
                let later = picked(
                    start,
                    skipped@,
                    host.scheduled@,
                    (SCHEDULED_WORK_CONCURRENCY - examined) as nat,
                    (SCHEDULED_WORK_CONCURRENCY - running - started@.len()) as nat,
                );
                &&& all.examined == examined + later.examined
                &&& all.started == started@ + later.started
                &&& all.scheduled == later.scheduled
            }),
        decreases SCHEDULED_WORK_CONCURRENCY - examined,
    {
        let ghost due = host.scheduled@;
        let taken: Vec<u64> = host.take_scheduled_volumes(1);
        let volume: u64 = taken[0];
        proof {
            assert(host.scheduled@ =~= due.skip(1));
        }
        examined = examined + 1;
        if !skipped.contains(&volume) {
            let work: Vec<ScheduledWork> = work_ready(host, volume);
            proof {
                lemma_due_ignores_schedule(*host, start, volume);
            }
            let ghost before = started@;
            let ghost free = SCHEDULED_WORK_CONCURRENCY - running - before.len();
            let mut i: usize = 0;
            while i < work.len() && running + started.len() < SCHEDULED_WORK_CONCURRENCY
                invariant
                    i <= work@.len(),
                    i <= free,
                    free == SCHEDULED_WORK_CONCURRENCY - running - before.len(),
                    running + before.len() <= SCHEDULED_WORK_CONCURRENCY,
                    started@.len() == before.len() + i,
                    started@ == before + of_volume(volume, work@.take(i as int)),
                decreases work@.len() - i,
            {
                started.push(StartedWork { volume, work: work[i] });
                i = i + 1;
            }
            full = running + started.len() == SCHEDULED_WORK_CONCURRENCY;
            if i < work.len() {
                host.schedule_volume(volume);
            } else {
                proof {
                    let later = picked(
                        start,
                        skipped@,
                        due.skip(1),
                        (SCHEDULED_WORK_CONCURRENCY - examined) as nat,
                        (free - work@.len()) as nat,
                    );
                }
            }
        }
    }
    PickedWork { examined, started }
}

/// Volumes asked for later never overtake those that wait.
pub proof fn waiting_volumes_keep_their_turn(scheduled: Seq<u64>, volume: u64, i: int)
    requires
        0 <= i < scheduled.len(),
    ensures
        with_scheduled(scheduled, volume)[i] == scheduled[i],
{
}

// ---------------------------------------------------------------------------
// Rounds
// ---------------------------------------------------------------------------

/// The tasks of one host that do background work.
pub struct WorkRounds {
    /// Volumes by running task.
    pub running: BTreeMap<u64, u64>,
    /// Volumes whose work has ended in this round.
    pub worked: BTreeSet<u64>,
}

impl WorkRounds {
    pub fn new() -> (rounds: WorkRounds)
        ensures
            rounds.running@ == Map::<u64, u64>::empty(),
            rounds.worked@ == Set::<u64>::empty(),
    {
        WorkRounds { running: BTreeMap::new(), worked: BTreeSet::new() }
    }

    pub fn started(&mut self, task: u64, volume: u64)
        ensures
            final(self).running@ == old(self).running@.insert(task, volume),
            final(self).worked@ == old(self).worked@,
    {
        self.running.insert(task, volume);
    }

    /// A task has ended; its volume waits for the next round.
    pub fn ended(&mut self, task: u64)
        requires
            old(self).running@.contains_key(task),
        ensures
            final(self).running@ == old(self).running@.remove(task),
            final(self).worked@ == old(self).worked@.insert(old(self).running@[task]),
    {
        if let Some(volume) = self.running.remove(&task) {
            self.worked.insert(volume);
        }
    }

    /// Begins a round: the volumes that were worked on are due again, the smallest
    /// first, and after them those whose files have to be looked at because the
    /// device runs full.
    pub fn begin_round(&mut self, host: &mut HostState, reclaim: &Vec<u64>)
        ensures
            final(self).running@ == old(self).running@,
            final(self).worked@ == Set::<u64>::empty(),
            *final(host) == (HostState { scheduled: final(host).scheduled, ..*old(host) }),
            exists|order: Seq<u64>|
                #[trigger] lists_members(order, old(self).worked@) && final(host).scheduled@
                    == scheduled_each(scheduled_each(old(host).scheduled@, order), reclaim@),
            follows(*old(host), *final(host)),
    {
        let order: Vec<u64> = sorted_members(&self.worked);
        schedule_each(host, &order);
        schedule_each(host, reclaim);
        self.worked = BTreeSet::new();
    }
}

fn schedule_each(host: &mut HostState, volumes: &Vec<u64>)
    ensures
        *final(host) == (HostState { scheduled: final(host).scheduled, ..*old(host) }),
        final(host).scheduled@ == scheduled_each(old(host).scheduled@, volumes@),
{
    let ghost start = *host;
    let mut i: usize = 0;
    while i < volumes.len()
        invariant
            i <= volumes@.len(),
            start == *old(host),
            *host == (HostState { scheduled: host.scheduled, ..start }),
            host.scheduled@ == scheduled_each(start.scheduled@, volumes@.take(i as int)),
        decreases volumes@.len() - i,
    {
        proof {
            assert(volumes@.take(i + 1).drop_last() =~= volumes@.take(i as int));
        }
        host.schedule_volume(volumes[i]);
        i = i + 1;
    }
    proof {
        assert(volumes@.take(i as int) =~= volumes@);
    }
}

/// The due volumes after each of `volumes` was asked for, in order.
pub open spec fn scheduled_each(scheduled: Seq<u64>, volumes: Seq<u64>) -> Seq<u64>
    decreases volumes.len(),
{
    if volumes.len() == 0 {
        scheduled
    } else {
        with_scheduled(scheduled_each(scheduled, volumes.drop_last()), volumes.last())
    }
}

#[derive(Clone, Copy, PartialEq, Eq, Debug, Structural)]
pub enum RoundStep {
    /// Nothing is due.
    Done,
    /// Wait until a task ends.
    Wait,
    /// Look at more volumes.
    More,
}

/// How a round goes on after volumes were looked at.
pub fn round_step(due: usize, examined: usize, running: usize) -> (step: RoundStep)
    ensures
        step == (if due == 0 {
            RoundStep::Done
        } else if examined == 0 || running == SCHEDULED_WORK_CONCURRENCY {
            RoundStep::Wait
        } else {
            RoundStep::More
        }),
{
    if due == 0 {
        RoundStep::Done
    } else if examined == 0 || running == SCHEDULED_WORK_CONCURRENCY {
        RoundStep::Wait
    } else {
        RoundStep::More
    }
}

// ---------------------------------------------------------------------------
// Starting a host, and interrupting work
// ---------------------------------------------------------------------------

/// Volumes of which `wanted` holds, in order of their numbers.
pub open spec fn is_selection(
    volumes: Map<u64, VolumeState>,
    wanted: spec_fn(VolumeState) -> bool,
    list: Seq<u64>,
) -> bool {
    &&& forall|i: int, j: int| 0 <= i < j < list.len() ==> list[i] < list[j]
    &&& forall|v: u64| #[trigger]
        list.contains(v) <==> volumes.contains_key(v) && wanted(volumes[v])
}

/// Volumes that have to be reconciled with the store before they open.
pub fn recovery_pending(host: &HostState) -> (list: Vec<u64>)
    ensures
        is_selection(host.volumes@, |s: VolumeState| s.operations.recovery is Some, list@),
{
    let keys: Vec<u64> = sorted_keys(&host.volumes);
    let ghost wanted = |s: VolumeState| s.operations.recovery is Some;
    let mut list: Vec<u64> = Vec::new();
    let mut i: usize = 0;
    while i < keys.len()
        invariant
            i <= keys@.len(),
            wanted == (|s: VolumeState| s.operations.recovery is Some),
            lists_keys(keys@, host.volumes@),
            selected_from(keys@.take(i as int), host.volumes@, wanted, list@),
        decreases keys@.len() - i,
    {
        let key: u64 = keys[i];
        let ghost before = list@;
        proof {
            assert(keys@.contains(keys@[i as int]));
        }
        if let Some(state) = host.volumes.get(&key) {
            if state.operations.recovery.is_some() {
                list.push(key);
            }
        }
        proof {
            lemma_selected(keys@, i as int, host.volumes@, wanted, before, list@);
        }
        i = i + 1;
    }
    proof {
        assert(keys@.take(i as int) =~= keys@);
        lemma_selection(keys@, host.volumes@, wanted, list@);
    }
    list
}

/// Volumes that are looked at for work when a host has started.
pub fn initial_work(host: &HostState) -> (list: Vec<u64>)
    ensures
        is_selection(host.volumes@, |s: VolumeState| s.ready || s.outbound, list@),
{
    let keys: Vec<u64> = sorted_keys(&host.volumes);
    let ghost wanted = |s: VolumeState| s.ready || s.outbound;
    let mut list: Vec<u64> = Vec::new();
    let mut i: usize = 0;
    while i < keys.len()
        invariant
            i <= keys@.len(),
            wanted == (|s: VolumeState| s.ready || s.outbound),
            lists_keys(keys@, host.volumes@),
            selected_from(keys@.take(i as int), host.volumes@, wanted, list@),
        decreases keys@.len() - i,
    {
        let key: u64 = keys[i];
        let ghost before = list@;
        proof {
            assert(keys@.contains(keys@[i as int]));
        }
        if let Some(state) = host.volumes.get(&key) {
            if state.ready || state.outbound {
                list.push(key);
            }
        }
        proof {
            lemma_selected(keys@, i as int, host.volumes@, wanted, before, list@);
        }
        i = i + 1;
    }
    proof {
        assert(keys@.take(i as int) =~= keys@);
        lemma_selection(keys@, host.volumes@, wanted, list@);
    }
    list
}

spec fn selected_from(
    keys: Seq<u64>,
    volumes: Map<u64, VolumeState>,
    wanted: spec_fn(VolumeState) -> bool,
    list: Seq<u64>,
) -> bool {
    &&& forall|i: int, j: int| 0 <= i < j < list.len() ==> list[i] < list[j]
    &&& forall|v: u64| #[trigger] list.contains(v) <==> keys.contains(v) && wanted(volumes[v])
}

proof fn lemma_selected(
    keys: Seq<u64>,
    i: int,
    volumes: Map<u64, VolumeState>,
    wanted: spec_fn(VolumeState) -> bool,
    before: Seq<u64>,
    after: Seq<u64>,
)
    requires
        0 <= i < keys.len(),
        lists_keys(keys, volumes),
        selected_from(keys.take(i), volumes, wanted, before),
        after == (if wanted(volumes[keys[i]]) {
            before.push(keys[i])
        } else {
            before
        }),
    ensures
        selected_from(keys.take(i + 1), volumes, wanted, after),
{
    let shorter = keys.take(i);
    let longer = keys.take(i + 1);
    assert(longer =~= shorter.push(keys[i]));
    assert forall|v: u64| #[trigger] after.contains(v) <==> longer.contains(v) && wanted(
        volumes[v],
    ) by {
        assert(longer.contains(v) <==> shorter.contains(v) || v == keys[i]) by {
            if shorter.contains(v) {
                let k = choose|k: int| 0 <= k < shorter.len() && shorter[k] == v;
                assert(longer[k] == v);
            }
            assert(longer[i] == keys[i]);
            if longer.contains(v) {
                let k = choose|k: int| 0 <= k < longer.len() && longer[k] == v;
                if k < i {
                    assert(shorter[k] == v);
                }
            }
        }
        assert(before.contains(v) <==> shorter.contains(v) && wanted(volumes[v]));
        if before.contains(v) {
            let k = choose|k: int| 0 <= k < before.len() && before[k] == v;
            assert(after[k] == v);
        }
        if wanted(volumes[keys[i]]) {
            assert(after[before.len() as int] == keys[i]);
        }
        if after.contains(v) {
            let k = choose|k: int| 0 <= k < after.len() && after[k] == v;
            if k < before.len() {
                assert(before[k] == v);
            }
        }
    }
    assert forall|a: int, b: int| 0 <= a < b < after.len() implies after[a] < after[b] by {
        if b == before.len() {
            assert(before.contains(before[a]));
            let k = choose|k: int| 0 <= k < shorter.len() && shorter[k] == before[a];
            assert(keys[k] < keys[i]);
        }
    }
}

proof fn lemma_selection(
    keys: Seq<u64>,
    volumes: Map<u64, VolumeState>,
    wanted: spec_fn(VolumeState) -> bool,
    list: Seq<u64>,
)
    requires
        lists_keys(keys, volumes),
        selected_from(keys, volumes, wanted, list),
    ensures
        is_selection(volumes, wanted, list),
{
    assert forall|v: u64| #[trigger] list.contains(v) <==> volumes.contains_key(v) && wanted(
        volumes[v],
    ) by {
        assert(list.contains(v) <==> keys.contains(v) && wanted(volumes[v]));
        assert(keys.contains(v) <==> volumes.contains_key(v));
    }
}

/// The volume has been replaced, or is moving away.
pub open spec fn is_interrupted(host: HostState, volume: u64, incarnation: u64) -> bool {
    match host.volume_at_spec(volume, incarnation) {
        Some(state) => state.operations.migration || state.outbound,
        None => true,
    }
}

/// Whether work on a volume has to stop: the volume has been replaced, or is
/// moving away.
pub fn interrupted(host: &HostState, volume: u64, incarnation: u64) -> (stop: bool)
    ensures
        stop == is_interrupted(*host, volume, incarnation),
{
    match host.volume_at(volume, incarnation) {
        Some(state) => state.operations.migration || state.outbound,
        None => true,
    }
}

} // verus!
