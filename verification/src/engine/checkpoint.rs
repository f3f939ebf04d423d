//! Checkpoints on request, and captures of volumes that move: who is paused,
//! and what is answered.

use super::capture::{
    checkpoint_decision, finish_data_checkpoint, finish_guest_resume, may_move, reserve_checkpoint,
    reserve_migration, start_guest_resume, CheckpointDecision, MigrationDecision,
};
use super::state::{
    answer_stands, follows, follows_recording, with_scheduled, Counters, HostState,
};
use super::volume::{CaptureKind, VolumeOperations, VolumeRecord, VolumeState};
use crate::arith::sat_add;
use crate::protocol::{AdminError, AdminResult, AdminSuccess};
use vstd::prelude::*;

verus! {

broadcast use vstd::std_specs::btree::group_btree_axioms;

// ---------------------------------------------------------------------------
// A paused guest
// ---------------------------------------------------------------------------

/// A guest that was paused for a capture and has to run again.
#[derive(Clone, Copy, PartialEq, Eq, Debug, Structural)]
pub struct PausedGuest {
    pub volume: u64,
    pub incarnation: u64,
    /// Whether it still has to be resumed.
    pub active: bool,
}

/// `after` is `before` with the guest noted as paused.
pub open spec fn noted_paused(before: HostState, after: HostState, volume: u64) -> bool {
    &&& after == (HostState { volumes: after.volumes, ..before })
    &&& after.volumes@ == before.volumes@.insert(
        volume,
        VolumeState {
            operations: VolumeOperations {
                guest_resume: true,
                ..before.volumes@[volume].operations
            },
            ..before.volumes@[volume]
        },
    )
}

/// `after` is `before` with the guest running again; who waited is told.
pub open spec fn noted_resumed(
    before: HostState,
    after: HostState,
    volume: u64,
    incarnation: u64,
    waiters: Seq<u64>,
) -> bool {
    match before.volume_at_spec(volume, incarnation) {
        None => waiters == Seq::<u64>::empty() && after == before,
        Some(state) => {
            let now = after.volumes@[volume];
            &&& waiters == state.mutation_waiters@
            &&& after == (HostState {
                volumes: after.volumes,
                scheduled: after.scheduled,
                ..before
            })
            &&& after.scheduled@ == with_scheduled(before.scheduled@, volume)
            &&& after.volumes@ == before.volumes@.insert(volume, now)
            &&& now == (VolumeState {
                operations: VolumeOperations { guest_resume: false, ..state.operations },
                mutation_waiters: now.mutation_waiters,
                ..state
            })
            &&& now.mutation_waiters@ == Seq::<u64>::empty()
        },
    }
}

impl PausedGuest {
    /// Notes that the guest of a volume is paused. Nothing if the volume has been
    /// replaced or its guest is paused already: then the guest has to be resumed
    /// at once.
    pub fn hold(host: &mut HostState, volume: u64, incarnation: u64) -> (paused: Option<PausedGuest>)
        ensures
            match old(host).volume_at_spec(volume, incarnation) {
                Some(state) if !state.operations.guest_resume => {
                    &&& paused == Some(PausedGuest { volume, incarnation, active: true })
                    &&& noted_paused(*old(host), *final(host), volume)
                },
                _ => paused is None && *final(host) == *old(host),
            },
            follows(*old(host), *final(host)),
    {
        let free: bool = match host.volume_at(volume, incarnation) {
            Some(state) => !state.operations.guest_resume,
            None => false,
        };
        if !free {
            return None;
        }
        let ghost was = host.volumes@;
        if let Some(mut state) = host.volumes.remove(&volume) {
            start_guest_resume(&mut state);
            host.volumes.insert(volume, state);
            proof {
                assert(was.remove(volume).insert(volume, state) =~= was.insert(volume, state));
            }
        }
        Some(PausedGuest { volume, incarnation, active: true })
    }

    /// Whether the guest has to be resumed now. One whose volume has been
    /// replaced, or was resumed by someone else, does not.
    pub fn must_resume(&mut self, host: &HostState) -> (resume: bool)
        ensures
            resume == (old(self).active && match host.volume_at_spec(
                old(self).volume,
                old(self).incarnation,
            ) {
                Some(state) => state.operations.guest_resume,
                None => false,
            }),
            *final(self) == (PausedGuest { active: resume, ..*old(self) }),
    {
        if !self.active {
            return false;
        }
        let current: bool = match host.volume_at(self.volume, self.incarnation) {
            Some(state) => state.operations.guest_resume,
            None => false,
        };
        if !current {
            self.active = false;
        }
        current
    }

    /// Notes that the guest runs again, or stopped for good. Only the first note
    /// counts.
    pub fn release(&mut self, host: &mut HostState) -> (waiters: Vec<u64>)
        ensures
            *final(self) == (PausedGuest { active: false, ..*old(self) }),
            if old(self).active {
                noted_resumed(
                    *old(host),
                    *final(host),
                    old(self).volume,
                    old(self).incarnation,
                    waiters@,
                )
            } else {
                waiters@ == Seq::<u64>::empty() && *final(host) == *old(host)
            },
            follows(*old(host), *final(host)),
    {
        if !self.active {
            return Vec::new();
        }
        self.active = false;
        match finish_guest_resume(host, self.volume, self.incarnation) {
            Some(waiters) => waiters,
            None => Vec::new(),
        }
    }
}

/// What has to be done before a paused guest has run its course.
pub enum ResumeStep {
    /// Unprotect these pages first: the guest must find none of them protected by
    /// a capture that has ended.
    Unprotect(Vec<u64>),
    /// Resume the guest.
    Resume,
    /// It runs already, or is no longer the volume's.
    Done,
    /// Its pages could not be unprotected: it must not run.
    Failed,
}

/// The step that a guest without protected pages needs.
pub open spec fn resume_step(paused: PausedGuest, host: HostState) -> ResumeStep {
    if paused.active && (match host.volume_at_spec(paused.volume, paused.incarnation) {
        Some(state) => state.operations.guest_resume,
        None => false,
    }) {
        ResumeStep::Resume
    } else {
        ResumeStep::Done
    }
}

impl PausedGuest {
    /// Ends the pause: the pages that a failed capture left protected come first,
    /// then the guest.
    pub fn end(&mut self, host: &HostState, armed: Vec<u64>) -> (step: ResumeStep)
        ensures
            if armed@.len() > 0 {
                step == ResumeStep::Unprotect(armed) && *final(self) == *old(self)
            } else {
                &&& step == resume_step(*old(self), *host)
                &&& *final(self) == (PausedGuest { active: step is Resume, ..*old(self) })
            },
    {
        if armed.len() > 0 {
            return ResumeStep::Unprotect(armed);
        }
        if self.must_resume(host) {
            ResumeStep::Resume
        } else {
            ResumeStep::Done
        }
    }

    /// What follows once the pages were unprotected, or could not be.
    pub fn unprotected(&mut self, host: &HostState, cleaned: bool) -> (step: ResumeStep)
        ensures
            if cleaned {
                &&& step == resume_step(*old(self), *host)
                &&& *final(self) == (PausedGuest { active: step is Resume, ..*old(self) })
            } else {
                step is Failed && *final(self) == *old(self)
            },
    {
        if !cleaned {
            return ResumeStep::Failed;
        }
        if self.must_resume(host) {
            ResumeStep::Resume
        } else {
            ResumeStep::Done
        }
    }
}

/// A guest is released once: whoever comes second finds nothing to do.
pub proof fn a_guest_is_released_once(
    paused: PausedGuest,
    host: HostState,
    after: HostState,
    waiters: Seq<u64>,
)
    requires
        paused.active,
        noted_resumed(host, after, paused.volume, paused.incarnation, waiters),
    ensures
        match after.volume_at_spec(paused.volume, paused.incarnation) {
            Some(state) => !state.operations.guest_resume,
            None => true,
        },
{
}

// ---------------------------------------------------------------------------
// A checkpoint on request
// ---------------------------------------------------------------------------

#[derive(Clone, Copy, PartialEq, Eq, Debug)]
pub enum CheckpointStep {
    Reply(AdminResult),
    /// The volume is no longer here, or the capture failed: there is nothing to
    /// answer.
    Silent,
    /// Wait until what is under way has ended, then ask again.
    Wait,
    /// Capture the volume as it is.
    Capture { incarnation: u64, epoch: u64 },
    /// Pause the guest, then capture it with its device state.
    Pause { incarnation: u64, epoch: u64 },
}

/// What a request for a checkpoint leads to. One about a volume that was never
/// here is not answered; one that has `waited` for it is.
pub open spec fn checkpoint_step(
    state: Option<VolumeState>,
    volume: u64,
    req: u64,
    waited: bool,
) -> CheckpointStep {
    match state {
        None => if waited {
            CheckpointStep::Reply(Err(AdminError::Rejected))
        } else {
            CheckpointStep::Silent
        },
        Some(v) => match checkpoint_decision(state, req) {
            CheckpointDecision::Missing | CheckpointDecision::Invalid => CheckpointStep::Reply(
                Err(AdminError::Rejected),
            ),
            CheckpointDecision::Existing(epoch) => CheckpointStep::Reply(
                Ok(AdminSuccess::CheckpointDone { volume, epoch }),
            ),
            CheckpointDecision::Busy => CheckpointStep::Wait,
            CheckpointDecision::Reserved { incarnation, epoch } => if v.config.is_memory() {
                CheckpointStep::Pause { incarnation, epoch }
            } else {
                CheckpointStep::Capture { incarnation, epoch }
            },
        },
    }
}

/// `after` is `before` once the request was decided.
pub open spec fn checkpoint_decided(
    before: HostState,
    after: HostState,
    volume: u64,
    waiter: u64,
    step: CheckpointStep,
) -> bool {
    match step {
        CheckpointStep::Reply(_) | CheckpointStep::Silent => after == before,
        CheckpointStep::Wait => {
            let was = before.volumes@[volume];
            let now = after.volumes@[volume];
            &&& after == (HostState { volumes: after.volumes, ..before })
            &&& after.volumes@ == before.volumes@.insert(volume, now)
            &&& now == (VolumeState { mutation_waiters: now.mutation_waiters, ..was })
            &&& now.mutation_waiters@ == was.mutation_waiters@.push(waiter)
        },
        _ => {
            let was = before.volumes@[volume];
            &&& after == (HostState { volumes: after.volumes, ..before })
            &&& after.volumes@ == before.volumes@.insert(
                volume,
                VolumeState {
                    operations: VolumeOperations {
                        mutation: Some(CaptureKind::Checkpoint),
                        ..was.operations
                    },
                    ..was
                },
            )
        },
    }
}

/// Decides a request for a checkpoint, at once or after it has `waited`.
pub fn start_checkpoint(host: &mut HostState, volume: u64, req: u64, waiter: u64, waited: bool) -> (
step: CheckpointStep)
    requires
        old(host).volumes@.contains_key(volume) && checkpoint_decision(
            Some(old(host).volumes@[volume]),
            req,
        ) is Reserved ==> old(host).volumes@[volume].epoch < u64::MAX,
    ensures
        step == checkpoint_step(
            if old(host).volumes@.contains_key(volume) {
                Some(old(host).volumes@[volume])
            } else {
                None
            },
            volume,
            req,
            waited,
        ),
        checkpoint_decided(*old(host), *final(host), volume, waiter, step),
        follows(*old(host), *final(host)),
{
    let memory: bool = match host.volumes.get(&volume) {
        Some(state) => state.config.is_memory(),
        None => {
            return if waited {
                CheckpointStep::Reply(Err(AdminError::Rejected))
            } else {
                CheckpointStep::Silent
            };
        },
    };
    match reserve_checkpoint(host, req, volume, waiter) {
        CheckpointDecision::Missing | CheckpointDecision::Invalid => CheckpointStep::Reply(
            Err(AdminError::Rejected),
        ),
        CheckpointDecision::Existing(epoch) => CheckpointStep::Reply(
            Ok(AdminSuccess::CheckpointDone { volume, epoch }),
        ),
        CheckpointDecision::Busy => CheckpointStep::Wait,
        CheckpointDecision::Reserved { incarnation, epoch } => if memory {
            CheckpointStep::Pause { incarnation, epoch }
        } else {
            CheckpointStep::Capture { incarnation, epoch }
        },
    }
}

/// What follows once a data volume was captured for a request, or could not be.
pub fn data_captured(
    host: &mut HostState,
    volume: u64,
    req: u64,
    incarnation: u64,
    epoch: u64,
    captured: Option<VolumeRecord>,
) -> (step: CheckpointStep)
    ensures
        if captured is None || old(host).volume_at_spec(volume, incarnation) is None {
            step == CheckpointStep::Silent && *final(host) == *old(host)
        } else {
            let was = old(host).volumes@[volume];
            let now = final(host).volumes@[volume];
            &&& step == CheckpointStep::Reply(Ok(AdminSuccess::CheckpointDone { volume, epoch }))
            &&& *final(host) == (HostState {
                volumes: final(host).volumes,
                counters: Counters {
                    checkpoints_done: sat_add(old(host).counters.checkpoints_done, 1),
                    ..old(host).counters
                },
                ..*old(host)
            })
            &&& final(host).volumes@ == old(host).volumes@.insert(volume, now)
            &&& now == (VolumeState {
                epoch,
                pinned: captured,
                checkpoint_results: now.checkpoint_results,
                ..was
            })
            &&& now.checkpoint_results@ == was.checkpoint_results@.insert(req, epoch)
        },
        follows_recording(*old(host), *final(host), Some((volume, req))),
        answer_stands(*old(host), volume, req, epoch) ==> follows(*old(host), *final(host)),
{
    let record: VolumeRecord = match captured {
        Some(record) => record,
        None => {
            return CheckpointStep::Silent;
        },
    };
    if host.volume_at(volume, incarnation).is_none() {
        return CheckpointStep::Silent;
    }
    let ghost was = host.volumes@;
    if let Some(mut state) = host.volumes.remove(&volume) {
        finish_data_checkpoint(&mut state, &mut host.counters, req, epoch, record);
        host.volumes.insert(volume, state);
    }
    CheckpointStep::Reply(Ok(AdminSuccess::CheckpointDone { volume, epoch }))
}

/// What follows once a paused guest was captured for a request, and runs again.
pub fn memory_captured(volume: u64, epoch: u64, captured: bool, resumed: bool) -> (step:
    CheckpointStep)
    ensures
        step == (if captured && resumed {
            CheckpointStep::Reply(Ok(AdminSuccess::CheckpointDone { volume, epoch }))
        } else {
            CheckpointStep::Silent
        }),
{
    if captured && resumed {
        CheckpointStep::Reply(Ok(AdminSuccess::CheckpointDone { volume, epoch }))
    } else {
        CheckpointStep::Silent
    }
}

/// A request that was answered is answered the same again, and changes nothing.
pub proof fn repeated_checkpoints_change_nothing(
    before: HostState,
    after: HostState,
    volume: u64,
    req: u64,
    waiter: u64,
    waited: bool,
    epoch: u64,
)
    requires
        before.volumes@.contains_key(volume),
        before.volumes@[volume].ready,
        before.volumes@[volume].checkpoint_results@.contains_key(req),
        before.volumes@[volume].checkpoint_results@[req] == epoch,
        checkpoint_decided(
            before,
            after,
            volume,
            waiter,
            checkpoint_step(Some(before.volumes@[volume]), volume, req, waited),
        ),
    ensures
        checkpoint_step(Some(before.volumes@[volume]), volume, req, waited)
            == CheckpointStep::Reply(Ok(AdminSuccess::CheckpointDone { volume, epoch })),
        after == before,
{
}

/// A request that was answered with an epoch is answered with it for as long as
/// the volume is open, however often it comes, whatever was done to the host
/// meanwhile and whatever the volume's epoch is by then, without a pause, a record
/// or a change. A request that was not answered yet gets a greater epoch than the
/// volume had.
pub proof fn answered_checkpoints_are_replayed(
    answered: HostState,
    later: HostState,
    volume: u64,
    req: u64,
    epoch: u64,
    other: u64,
    waited: bool,
)
    requires
        answered.wf(),
        answered.volumes@.contains_key(volume),
        answered.volumes@[volume].checkpoint_results@.contains_key(req),
        answered.volumes@[volume].checkpoint_results@[req] == epoch,
        follows(answered, later),
        later.volume_at_spec(volume, answered.volumes@[volume].incarnation) is Some,
        later.volumes@[volume].ready,
    ensures
        checkpoint_step(Some(later.volumes@[volume]), volume, req, waited)
            == CheckpointStep::Reply(Ok(AdminSuccess::CheckpointDone { volume, epoch })),
        checkpoint_decision(
            Some(later.volumes@[volume]),
            other,
        ) matches CheckpointDecision::Reserved { epoch: next, .. }
            ==> !later.volumes@[volume].checkpoint_results@.contains_key(other) && (
        later.volumes@[volume].epoch < u64::MAX ==> next > later.volumes@[volume].epoch),
{
}

/// No capture takes back the answer to a request but one of that same request: the
/// answers to all others stand.
pub proof fn answers_to_other_requests_stand(
    before: HostState,
    after: HostState,
    volume: u64,
    req: u64,
    recorded: Option<(u64, u64)>,
)
    requires
        before.wf(),
        before.volumes@.contains_key(volume),
        before.volumes@[volume].checkpoint_results@.contains_key(req),
        follows_recording(before, after, recorded),
        recorded != Some((volume, req)),
        after.volume_at_spec(volume, before.volumes@[volume].incarnation) is Some,
    ensures
        after.volumes@[volume].checkpoint_results@.contains_key(req),
        after.volumes@[volume].checkpoint_results@[req]
            == before.volumes@[volume].checkpoint_results@[req],
{
}

// ---------------------------------------------------------------------------
// A volume that moves
// ---------------------------------------------------------------------------

#[derive(Clone, Copy, PartialEq, Eq, Debug, Structural)]
pub enum MigrationStep {
    Refused,
    /// Wait until what is under way has ended, then ask again.
    Wait,
    /// Pause the guest, then capture it with its device state.
    Pause { incarnation: u64, epoch: u64 },
}

/// Decides whether a volume that moves may be captured.
pub fn start_migration(host: &mut HostState, volume: u64, waiter: u64) -> (step: MigrationStep)
    requires
        old(host).volumes@.contains_key(volume) && may_move(old(host).volumes@[volume]) ==> old(
            host,
        ).volumes@[volume].epoch < u64::MAX,
    ensures
        *final(host) == (HostState { volumes: final(host).volumes, ..*old(host) }),
        if !old(host).volumes@.contains_key(volume) {
            step == MigrationStep::Refused && final(host).volumes@ == old(host).volumes@
        } else {
            let was = old(host).volumes@[volume];
            let now = final(host).volumes@[volume];
            &&& final(host).volumes@ == old(host).volumes@.insert(volume, now)
            &&& if !was.ready || !was.config.is_memory() {
                step == MigrationStep::Refused && now == was
            } else if was.operations.mutation_blocked() {
                &&& step == MigrationStep::Wait
                &&& now == (VolumeState { mutation_waiters: now.mutation_waiters, ..was })
                &&& now.mutation_waiters@ == was.mutation_waiters@.push(waiter)
            } else {
                &&& step == (MigrationStep::Pause {
                    incarnation: was.incarnation,
                    epoch: (was.epoch + 1) as u64,
                })
                &&& now == (VolumeState {
                    operations: VolumeOperations {
                        mutation: Some(CaptureKind::Migration),
                        ..was.operations
                    },
                    ..was
                })
            }
        },
        follows(*old(host), *final(host)),
{
    let ghost was = host.volumes@;
    match host.volumes.remove(&volume) {
        None => {
            MigrationStep::Refused
        },
        Some(mut state) => {
            let decision = reserve_migration(&mut state, waiter);
            host.volumes.insert(volume, state);
            match decision {
                MigrationDecision::Invalid => MigrationStep::Refused,
                MigrationDecision::Busy => MigrationStep::Wait,
                MigrationDecision::Reserved { incarnation, epoch } => {
                    MigrationStep::Pause { incarnation, epoch }
                },
            }
        },
    }
}

} // verus!
