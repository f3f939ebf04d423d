//! Bounded intake of guest requests.
//!
//! A source takes requests in up to a bound, lets one request of a volume run at
//! a time and gives every volume its turn. The runtime performs what a source
//! hands out and reports back what happened.

use super::keyed_queue::{without, KeyedQueue};
use super::state::{follows, Counters, HostState};
use super::volume::{PendingSync, VolumeKind, VolumeState};
use crate::database::AttachmentId;
use crate::types::VsetId;
use vstd::prelude::*;

verus! {

broadcast use vstd::std_specs::btree::group_btree_axioms;

/// Operator requests served at a time.
pub const ADMIN_CONCURRENCY: usize = 32;

/// Faults served at a time.
pub const FAULT_CONCURRENCY: usize = 64;

/// Volumes whose synchronisations are served at a time.
pub const SYNC_CONCURRENCY: usize = 64;

/// Synchronisations that may be unanswered.
pub const SYNC_QUEUE_CAPACITY: usize = 1_024;

/// Synchronisations taken in before others get a chance to run.
pub const SYNC_INGRESS_BATCH: usize = 64;

/// Database vsets served at a time.
pub const DATABASE_CONCURRENCY: usize = 64;

/// Database requests that may wait.
pub const DATABASE_QUEUE_CAPACITY: usize = 64;

/// Database requests taken in before others get a chance to run.
pub const DATABASE_INGRESS_BATCH: usize = 64;

// ---------------------------------------------------------------------------
// Synchronisation
// ---------------------------------------------------------------------------

#[derive(Clone, Copy, PartialEq, Eq, Debug, Structural)]
pub enum SyncDecision {
    Rejected,
    /// Everything written so far is durable.
    Acknowledged,
    /// A commit has to be made first.
    Pending,
}

/// A synchronisation is about a volume that serves it.
pub open spec fn syncs(state: VolumeState) -> bool {
    state.ready && state.config.kind == VolumeKind::Data
}

pub open spec fn sync_decision(host: HostState, volume: u64, authorized: bool) -> SyncDecision {
    if !authorized || !host.volumes@.contains_key(volume) || !syncs(host.volumes@[volume]) {
        SyncDecision::Rejected
    } else if host.volumes@[volume].sync_ack_through >= host.volumes@[volume].mutation_seq {
        SyncDecision::Acknowledged
    } else {
        SyncDecision::Pending
    }
}

/// Decides on a guest's synchronisation. One that has to wait is remembered with
/// the newest write it must cover.
pub fn admit_sync(host: &mut HostState, volume: u64, id: u64, authorized: bool) -> (decision:
    SyncDecision)
    requires
        old(host).counters.room(1),
    ensures
        decision == sync_decision(*old(host), volume, authorized),
        match decision {
            SyncDecision::Rejected => *final(host) == (HostState {
                counters: Counters {
                    guest_rejected: (old(host).counters.guest_rejected + 1) as u64,
                    ..old(host).counters
                },
                ..*old(host)
            }),
            SyncDecision::Acknowledged => *final(host) == (HostState {
                counters: Counters {
                    syncs_acked: (old(host).counters.syncs_acked + 1) as u64,
                    ..old(host).counters
                },
                ..*old(host)
            }),
            SyncDecision::Pending => {
                let before = old(host).volumes@[volume];
                let after = final(host).volumes@[volume];
                &&& *final(host) == (HostState { volumes: final(host).volumes, ..*old(host) })
                &&& final(host).volumes@ == old(host).volumes@.insert(volume, after)
                &&& after == (VolumeState { pending_syncs: after.pending_syncs, ..before })
                &&& after.pending_syncs@ == before.pending_syncs@.push(
                    PendingSync { id, barrier: before.mutation_seq },
                )
            },
        },
        follows(*old(host), *final(host)),
{
    let decision = if !authorized {
        SyncDecision::Rejected
    } else {
        match host.volumes.get(&volume) {
            Some(state) => {
                let data: bool = match state.config.kind {
                    VolumeKind::Data => true,
                    VolumeKind::Memory => false,
                };
                if !state.ready || !data {
                    SyncDecision::Rejected
                } else if state.sync_ack_through >= state.mutation_seq {
                    SyncDecision::Acknowledged
                } else {
                    SyncDecision::Pending
                }
            },
            None => SyncDecision::Rejected,
        }
    };
    match decision {
        SyncDecision::Rejected => {
            host.counters.guest_rejected = host.counters.guest_rejected + 1;
        },
        SyncDecision::Acknowledged => {
            host.counters.syncs_acked = host.counters.syncs_acked + 1;
        },
        SyncDecision::Pending => {
            let ghost was = host.volumes@;
            if let Some(mut state) = host.volumes.remove(&volume) {
                state.pending_syncs.push(PendingSync { id, barrier: state.mutation_seq });
                host.volumes.insert(volume, state);
                proof {
                    assert(was.remove(volume).insert(volume, state) =~= was.insert(volume, state));
                }
            }
        },
    }
    decision
}

/// A synchronisation is answered at once only if every write before it is
/// durable.
pub proof fn acknowledged_means_durable(host: HostState, volume: u64, authorized: bool)
    requires
        sync_decision(host, volume, authorized) == SyncDecision::Acknowledged,
    ensures
        host.volumes@[volume].sync_ack_through >= host.volumes@[volume].mutation_seq,
{
}

/// A synchronisation with this number waits for a commit.
pub open spec fn has_sync(syncs: Seq<PendingSync>, id: u64) -> bool {
    exists|i: int| 0 <= i < syncs.len() && #[trigger] syncs[i].id == id
}

/// Forgets the first waiting synchronisation with this number. Returns whether
/// there was one.
pub fn cancel_pending_sync(host: &mut HostState, volume: u64, id: u64) -> (cancelled: bool)
    ensures
        cancelled == (old(host).volumes@.contains_key(volume) && has_sync(
            old(host).volumes@[volume].pending_syncs@,
            id,
        )),
        !cancelled ==> *final(host) == *old(host),
        cancelled ==> {
            let before = old(host).volumes@[volume];
            let after = final(host).volumes@[volume];
            &&& *final(host) == (HostState { volumes: final(host).volumes, ..*old(host) })
            &&& final(host).volumes@ == old(host).volumes@.insert(volume, after)
            &&& after == (VolumeState { pending_syncs: after.pending_syncs, ..before })
            &&& exists|at: int|
                {
                    &&& 0 <= at < before.pending_syncs@.len()
                    &&& #[trigger] before.pending_syncs@[at].id == id
                    &&& forall|i: int|
                        0 <= i < at ==> (#[trigger] before.pending_syncs@[i]).id != id
                    &&& after.pending_syncs@ == before.pending_syncs@.remove(at)
                }
        },
        follows(*old(host), *final(host)),
{
    let mut at: usize = 0;
    let mut count: usize = 0;
    if let Some(state) = host.volumes.get(&volume) {
        count = state.pending_syncs.len();
        while at < state.pending_syncs.len() && state.pending_syncs[at].id != id
            invariant
                at <= state.pending_syncs@.len(),
                count == state.pending_syncs@.len(),
                forall|i: int| 0 <= i < at ==> (#[trigger] state.pending_syncs@[i]).id != id,
            decreases state.pending_syncs@.len() - at,
        {
            at = at + 1;
        }
    }
    if at >= count {
        return false;
    }
    let ghost was = host.volumes@;
    if let Some(mut state) = host.volumes.remove(&volume) {
        state.pending_syncs.remove(at);
        host.volumes.insert(volume, state);
    }
    true
}

/// Keys that wait for a turn after work of `key` came in: a key that had nothing
/// to do goes behind the others.
pub open spec fn joined<V>(queue: KeyedQueue<V>, key: u64) -> Seq<u64> {
    if queue.waiting(key).len() == 0 && !queue.active().contains(key) {
        queue.ready().push(key)
    } else {
        queue.ready()
    }
}

/// Keys that wait for a turn after work of `key` ended: a key with more to do
/// goes behind the others.
pub open spec fn rejoined<V>(queue: KeyedQueue<V>, key: u64) -> Seq<u64> {
    if queue.waiting(key).len() > 0 {
        queue.ready().push(key)
    } else {
        queue.ready()
    }
}

/// Intake of synchronisations. A request is named by the number it was admitted
/// under.
pub struct SyncSource {
    pub requests: KeyedQueue<u64>,
    pub open: bool,
    /// Requests that were taken in and not answered.
    pub admitted: usize,
    pub next_admission: u64,
    pub batch: usize,
}

impl SyncSource {
    /// Every waiting request counts as unanswered, and there are not too many;
    /// nor do too many run.
    pub open spec fn wf(self) -> bool {
        &&& self.requests.wf()
        &&& self.requests.active().finite()
        &&& self.requests.active().len() <= SYNC_CONCURRENCY
        &&& self.requests.pending() <= self.admitted <= SYNC_QUEUE_CAPACITY
        &&& self.batch < SYNC_INGRESS_BATCH
    }

    pub fn new() -> (source: SyncSource)
        ensures
            source.wf(),
            source.open,
            source.admitted == 0,
            source.next_admission == 0,
            source.batch == 0,
            source.requests.pending() == 0,
            source.requests.active() == Set::<u64>::empty(),
            source.requests.ready() == Seq::<u64>::empty(),
    {
        SyncSource {
            requests: KeyedQueue::new(),
            open: true,
            admitted: 0,
            next_admission: 0,
            batch: 0,
        }
    }

    /// The next request to run, with its volume.
    pub fn start_next(&mut self) -> (started: Option<(u64, u64)>)
        requires
            old(self).wf(),
        ensures
            final(self).wf(),
            *final(self) == (SyncSource { requests: final(self).requests, ..*old(self) }),
            started is Some <==> old(self).requests.active().len() < SYNC_CONCURRENCY && old(
                self,
            ).requests.ready().len() > 0,
            match started {
                Some((volume, id)) => {
                    &&& volume == old(self).requests.ready()[0]
                    &&& old(self).requests.waiting(volume).len() > 0
                    &&& id == old(self).requests.waiting(volume)[0]
                    &&& !old(self).requests.active().contains(volume)
                    &&& final(self).requests.active() == old(self).requests.active().insert(volume)
                    &&& final(self).requests.ready() == old(self).requests.ready().skip(1)
                    &&& final(self).requests.waiting(volume) == old(self).requests.waiting(
                        volume,
                    ).skip(1)
                    &&& forall|other: u64|
                        other != volume ==> #[trigger] final(self).requests.waiting(other) == old(
                            self,
                        ).requests.waiting(other)
                    &&& final(self).requests.pending() == old(self).requests.pending() - 1
                },
                None => *final(self) == *old(self),
            },
    {
        self.requests.start_next(SYNC_CONCURRENCY)
    }

    /// Whether the source is done for good.
    pub fn finished(&self) -> (done: bool)
        requires
            self.wf(),
        ensures
            done <==> !self.open && self.requests.active() == Set::<u64>::empty() && forall|
                volume: u64,
            | #[trigger]
                self.requests.waiting(volume).len() == 0,
    {
        !self.open && self.requests.is_idle()
    }

    /// Whether a request may be taken in.
    pub fn accepts(&self) -> (yes: bool)
        ensures
            yes == (self.open && self.admitted < SYNC_QUEUE_CAPACITY),
    {
        self.open && self.admitted < SYNC_QUEUE_CAPACITY
    }

    /// Takes a request in. Returns its number, and whether others should get a
    /// chance to run now.
    pub fn take_in(&mut self, volume: u64) -> (admission: (u64, bool))
        requires
            old(self).wf(),
            old(self).admitted < SYNC_QUEUE_CAPACITY,
            old(self).next_admission < u64::MAX,
        ensures
            final(self).wf(),
            admission.0 == old(self).next_admission,
            admission.1 == (old(self).batch + 1 == SYNC_INGRESS_BATCH),
            final(self).next_admission == old(self).next_admission + 1,
            final(self).admitted == old(self).admitted + 1,
            final(self).open == old(self).open,
            final(self).batch == (if admission.1 {
                0
            } else {
                old(self).batch + 1
            }),
            final(self).requests.waiting(volume) == old(self).requests.waiting(volume).push(
                admission.0,
            ),
            forall|other: u64|
                other != volume ==> #[trigger] final(self).requests.waiting(other) == old(
                    self,
                ).requests.waiting(other),
            final(self).requests.active() == old(self).requests.active(),
            final(self).requests.ready() == joined(old(self).requests, volume),
            final(self).requests.pending() == old(self).requests.pending() + 1,
    {
        let id: u64 = self.next_admission;
        self.next_admission = id + 1;
        self.admitted = self.admitted + 1;
        self.requests.push(volume, id);
        self.batch = self.batch + 1;
        if self.batch == SYNC_INGRESS_BATCH {
            self.batch = 0;
            (id, true)
        } else {
            (id, false)
        }
    }

    /// No more requests will come.
    pub fn close(&mut self)
        ensures
            *final(self) == (SyncSource { open: false, ..*old(self) }),
            old(self).wf() ==> final(self).wf(),
    {
        self.open = false;
    }

    /// A request that does not wait in a queue any more has been answered.
    pub fn resolved(&mut self)
        requires
            old(self).wf(),
            old(self).requests.pending() < old(self).admitted,
        ensures
            final(self).wf(),
            *final(self) == (SyncSource {
                admitted: (old(self).admitted - 1) as usize,
                ..*old(self)
            }),
    {
        self.admitted = self.admitted - 1;
    }

    /// The request of `volume` that ran has ended.
    pub fn completed(&mut self, volume: u64)
        requires
            old(self).wf(),
            old(self).requests.active().contains(volume),
        ensures
            final(self).wf(),
            *final(self) == (SyncSource { requests: final(self).requests, ..*old(self) }),
            final(self).requests.active() == old(self).requests.active().remove(volume),
            final(self).requests.ready() == rejoined(old(self).requests, volume),
            final(self).requests.pending() == old(self).requests.pending(),
            forall|v: u64| #[trigger] final(self).requests.waiting(v) == old(
                self,
            ).requests.waiting(v),
    {
        self.requests.complete(volume);
    }

    /// A guest gave up on a request. Returns whether it was still waiting in the
    /// queue; if not, it may wait for a commit.
    pub fn cancelled(&mut self, volume: u64, id: u64) -> (queued: bool)
        requires
            old(self).wf(),
        ensures
            final(self).wf(),
            *final(self) == (SyncSource { requests: final(self).requests, ..*old(self) }),
            queued <==> old(self).requests.waiting(volume).contains(id),
            queued ==> final(self).requests.pending() < final(self).admitted,
            queued ==> exists|at: int|
                {
                    &&& 0 <= at < old(self).requests.waiting(volume).len()
                    &&& #[trigger] old(self).requests.waiting(volume)[at] == id
                    &&& forall|i: int|
                        0 <= i < at ==> #[trigger] old(self).requests.waiting(volume)[i] != id
                    &&& final(self).requests.waiting(volume) == old(self).requests.waiting(
                        volume,
                    ).remove(at)
                },
            !queued ==> final(self).requests.waiting(volume) == old(self).requests.waiting(volume),
            forall|other: u64|
                other != volume ==> #[trigger] final(self).requests.waiting(other) == old(
                    self,
                ).requests.waiting(other),
            final(self).requests.active() == old(self).requests.active(),
            final(self).requests.ready() == (if final(self).requests.waiting(volume).len() == 0 {
                without(old(self).requests.ready(), volume)
            } else {
                old(self).requests.ready()
            }),
    {
        let matches_id = |queued: &u64| -> (found: bool)
            ensures
                found == (*queued == id),
            { *queued == id };
        let ghost waiting = self.requests.waiting(volume);
        let removed = self.requests.remove_where(volume, matches_id);
        proof {
            if removed is Some {
                let at = choose|at: int|
                    {
                        &&& 0 <= at < waiting.len()
                        &&& removed->0 == #[trigger] waiting[at]
                        &&& call_ensures(matches_id, (&removed->0,), true)
                        &&& forall|i: int|
                            0 <= i < at ==> call_ensures(
                                matches_id,
                                (&#[trigger] waiting[i],),
                                false,
                            )
                        &&& self.requests.waiting(volume) == waiting.remove(at)
                    };
                assert(waiting[at] == id);
                assert forall|i: int| 0 <= i < at implies #[trigger] waiting[i] != id by {
                    assert(call_ensures(matches_id, (&waiting[i],), false));
                }
            } else {
                assert forall|i: int| 0 <= i < waiting.len() implies waiting[i] != id by {
                    assert(call_ensures(matches_id, (&waiting[i],), false));
                }
            }
        }
        removed.is_some()
    }
}

// ---------------------------------------------------------------------------
// Database requests
// ---------------------------------------------------------------------------

/// A database that is to be made durable before it is detached.
#[derive(Clone, Copy, PartialEq, Eq, Debug, Structural)]
pub struct DetachedDatabaseDrain {
    pub vset: VsetId,
    pub attachment: AttachmentId,
}

#[derive(Clone, Copy, PartialEq, Eq, Debug, Structural)]
pub enum DatabaseWork {
    /// A guest's request, by the number the runtime knows it under.
    Request(u64),
    Drain(DetachedDatabaseDrain),
}

/// Counts guests' requests.
pub open spec fn request_weight() -> spec_fn(DatabaseWork) -> nat {
    |work: DatabaseWork|
        if work is Request {
            1nat
        } else {
            0
        }
}

/// Intake of database requests and drains. Only requests are bounded.
pub struct DatabaseSource {
    pub requests: KeyedQueue<DatabaseWork>,
    pub requests_open: bool,
    pub drains_open: bool,
    /// Guests' requests that wait.
    pub waiting: usize,
    pub batch: usize,
}

#[derive(Clone, Copy, PartialEq, Eq, Debug, Structural)]
pub enum DatabaseIngress {
    Queued,
    /// Too many requests wait; the guest is told so.
    Busy,
}

impl DatabaseSource {
    /// Guests' requests are counted; neither do too many wait, nor does too much
    /// work run.
    pub open spec fn wf(self) -> bool {
        &&& self.requests.wf()
        &&& self.requests.active().finite()
        &&& self.requests.active().len() <= DATABASE_CONCURRENCY
        &&& self.waiting == self.requests.weight(request_weight())
        &&& self.waiting <= DATABASE_QUEUE_CAPACITY
        &&& self.batch < DATABASE_INGRESS_BATCH
    }

    pub fn new() -> (source: DatabaseSource)
        ensures
            source.wf(),
            source.requests_open,
            source.drains_open,
            source.waiting == 0,
            source.batch == 0,
            source.requests.pending() == 0,
            source.requests.active() == Set::<u64>::empty(),
            source.requests.ready() == Seq::<u64>::empty(),
    {
        let requests: KeyedQueue<DatabaseWork> = KeyedQueue::new();
        DatabaseSource { requests, requests_open: true, drains_open: true, waiting: 0, batch: 0 }
    }

    /// The next work to run, with its vset.
    pub fn start_next(&mut self) -> (started: Option<(u64, DatabaseWork)>)
        requires
            old(self).wf(),
        ensures
            final(self).wf(),
            started is Some <==> old(self).requests.active().len() < DATABASE_CONCURRENCY && old(
                self,
            ).requests.ready().len() > 0,
            match started {
                Some((vset, work)) => {
                    &&& vset == old(self).requests.ready()[0]
                    &&& !old(self).requests.active().contains(vset)
                    &&& old(self).requests.waiting(vset).len() > 0
                    &&& work == old(self).requests.waiting(vset)[0]
                    &&& *final(self) == (DatabaseSource {
                        requests: final(self).requests,
                        waiting: (if work is Request {
                            old(self).waiting - 1
                        } else {
                            old(self).waiting as int
                        }) as usize,
                        ..*old(self)
                    })
                    &&& final(self).requests.active() == old(self).requests.active().insert(vset)
                    &&& final(self).requests.ready() == old(self).requests.ready().skip(1)
                    &&& final(self).requests.waiting(vset) == old(self).requests.waiting(
                        vset,
                    ).skip(1)
                    &&& forall|other: u64|
                        other != vset ==> #[trigger] final(self).requests.waiting(other) == old(
                            self,
                        ).requests.waiting(other)
                    &&& final(self).requests.pending() == old(self).requests.pending() - 1
                },
                None => *final(self) == *old(self),
            },
    {
        let started = self.requests.start_next(DATABASE_CONCURRENCY);
        if let Some((_, work)) = started {
            proof {
                assert(self.requests.weight(request_weight()) + request_weight()(work) == old(
                    self,
                ).requests.weight(request_weight()));
            }
            if let DatabaseWork::Request(_) = work {
                self.waiting = self.waiting - 1;
            }
        }
        started
    }

    pub fn finished(&self) -> (done: bool)
        requires
            self.wf(),
        ensures
            done <==> !self.requests_open && !self.drains_open && self.requests.active() == Set::<
                u64,
            >::empty() && forall|vset: u64| #[trigger] self.requests.waiting(vset).len() == 0,
    {
        !self.requests_open && !self.drains_open && self.requests.is_idle()
    }

    /// Takes a guest's request in, or refuses it because too many wait. Returns
    /// also whether others should get a chance to run now.
    pub fn request(&mut self, vset: VsetId, id: u64) -> (ingress: (DatabaseIngress, bool))
        requires
            old(self).wf(),
            old(self).waiting < DATABASE_QUEUE_CAPACITY ==> old(self).requests.pending()
                < usize::MAX,
        ensures
            final(self).wf(),
            ingress.0 == (if old(self).waiting >= DATABASE_QUEUE_CAPACITY {
                DatabaseIngress::Busy
            } else {
                DatabaseIngress::Queued
            }),
            ingress.1 == (old(self).batch + 1 == DATABASE_INGRESS_BATCH),
            final(self).batch == (if ingress.1 {
                0
            } else {
                old(self).batch + 1
            }),
            final(self).requests_open == old(self).requests_open,
            final(self).drains_open == old(self).drains_open,
            ingress.0 == DatabaseIngress::Busy ==> final(self).requests == old(self).requests
                && final(self).waiting == old(self).waiting,
            ingress.0 == DatabaseIngress::Queued ==> {
                &&& final(self).waiting == old(self).waiting + 1
                &&& final(self).requests.pending() == old(self).requests.pending() + 1
                &&& final(self).requests.waiting(vset.0) == old(self).requests.waiting(
                    vset.0,
                ).push(DatabaseWork::Request(id))
                &&& forall|other: u64|
                    other != vset.0 ==> #[trigger] final(self).requests.waiting(other) == old(
                        self,
                    ).requests.waiting(other)
                &&& final(self).requests.active() == old(self).requests.active()
                &&& final(self).requests.ready() == joined(old(self).requests, vset.0)
            },
    {
        let ingress = if self.waiting >= DATABASE_QUEUE_CAPACITY {
            DatabaseIngress::Busy
        } else {
            let work = DatabaseWork::Request(id);
            self.requests.push(vset.0, work);
            self.waiting = self.waiting + 1;
            DatabaseIngress::Queued
        };
        self.batch = self.batch + 1;
        if self.batch == DATABASE_INGRESS_BATCH {
            self.batch = 0;
            (ingress, true)
        } else {
            (ingress, false)
        }
    }

    /// Takes a drain in. Drains are never refused.
    pub fn drain(&mut self, drain: DetachedDatabaseDrain)
        requires
            old(self).wf(),
            old(self).requests.pending() < usize::MAX,
        ensures
            final(self).wf(),
            *final(self) == (DatabaseSource { requests: final(self).requests, ..*old(self) }),
            final(self).requests.waiting(drain.vset.0) == old(self).requests.waiting(
                drain.vset.0,
            ).push(DatabaseWork::Drain(drain)),
            forall|other: u64|
                other != drain.vset.0 ==> #[trigger] final(self).requests.waiting(other) == old(
                    self,
                ).requests.waiting(other),
            final(self).requests.active() == old(self).requests.active(),
            final(self).requests.ready() == joined(old(self).requests, drain.vset.0),
            final(self).requests.pending() == old(self).requests.pending() + 1,
    {
        let work = DatabaseWork::Drain(drain);
        self.requests.push(drain.vset.0, work);
    }

    /// No more requests will come.
    pub fn close_requests(&mut self)
        ensures
            *final(self) == (DatabaseSource { requests_open: false, ..*old(self) }),
            old(self).wf() ==> final(self).wf(),
    {
        self.requests_open = false;
    }

    /// No more drains will come.
    pub fn close_drains(&mut self)
        ensures
            *final(self) == (DatabaseSource { drains_open: false, ..*old(self) }),
            old(self).wf() ==> final(self).wf(),
    {
        self.drains_open = false;
    }

    /// The work of `vset` that ran has ended.
    pub fn completed(&mut self, vset: u64)
        requires
            old(self).wf(),
            old(self).requests.active().contains(vset),
        ensures
            final(self).wf(),
            *final(self) == (DatabaseSource { requests: final(self).requests, ..*old(self) }),
            final(self).requests.active() == old(self).requests.active().remove(vset),
            final(self).requests.ready() == rejoined(old(self).requests, vset),
            final(self).requests.pending() == old(self).requests.pending(),
            forall|v: u64| #[trigger] final(self).requests.waiting(v) == old(
                self,
            ).requests.waiting(v),
    {
        self.requests.complete(vset);
    }
}

/// However requests and drains come in, start and end, at most so many works run
/// at a time, at most one of a vset, and only so many requests wait: every
/// operation keeps a source sound, and this holds of a sound one.
pub proof fn database_work_is_bounded(source: DatabaseSource, vset: u64)
    requires
        source.wf(),
    ensures
        source.requests.active().len() <= DATABASE_CONCURRENCY,
        source.requests.weight(request_weight()) <= DATABASE_QUEUE_CAPACITY,
        // A vset whose work runs has no turn until it has ended.
        source.requests.active().contains(vset) ==> !source.requests.ready().contains(vset),
        source.requests.ready().no_duplicates(),
{
    source.requests.turns_are_exclusive(vset);
}

/// The same of synchronisations.
pub proof fn synchronisations_are_bounded(source: SyncSource, volume: u64)
    requires
        source.wf(),
    ensures
        source.requests.active().len() <= SYNC_CONCURRENCY,
        source.requests.pending() <= source.admitted <= SYNC_QUEUE_CAPACITY,
        source.requests.active().contains(volume) ==> !source.requests.ready().contains(volume),
        source.requests.ready().no_duplicates(),
{
    source.requests.turns_are_exclusive(volume);
}

/// Works of one key start in the order in which they arrived: what has started,
/// followed by what waits, is always what has arrived.
pub proof fn works_start_in_order<V>(
    before: KeyedQueue<V>,
    after: KeyedQueue<V>,
    key: u64,
    arrived: Seq<V>,
    started: Seq<V>,
    work: V,
)
    requires
        arrived == started + before.waiting(key),
    ensures
        after.waiting(key) == before.waiting(key) ==> arrived == started + after.waiting(key),
        after.waiting(key) == before.waiting(key).push(work) ==> arrived.push(work) == started
            + after.waiting(key),
        before.waiting(key).len() > 0 && after.waiting(key) == before.waiting(key).skip(1)
            ==> arrived == started.push(before.waiting(key)[0]) + after.waiting(key),
{
    assert(started + before.waiting(key).push(work) =~= arrived.push(work));
    if before.waiting(key).len() > 0 {
        assert(started.push(before.waiting(key)[0]) + before.waiting(key).skip(1) =~= arrived);
    }
}

} // verus!
