//! What checkpoints on request and reports are for: a request is answered once and
//! the same each time, and a report counts what is there.

use super::super::checkpoint::{
    checkpoint_decided, checkpoint_step, noted_paused, noted_resumed, resume_step, CheckpointStep,
    PausedGuest,
};
use super::super::maps::lists_keys;
use super::super::state::HostState;
use super::super::stats::{
    describes_volume, dirty_count, summed, unarchived_bytes, unstable_count, VolumeRole,
    VolumeStats,
};
use super::super::volume::{CaptureKind, LocalFile, PageState, VolumeKind, VolumeState};
use super::fault::turns_are_kept;
use crate::objects::ObjectIdentity;
use crate::protocol::{AdminError, AdminSuccess};
use vstd::prelude::*;

verus! {

/// What a request for a checkpoint leads to: an answered one to its answer again, one
/// on a busy volume to waiting, and one on an idle volume to a checkpoint of the next
/// epoch, for which a guest's memory is paused.
pub proof fn a_checkpoint_is_made_of_an_idle_volume(
    state: VolumeState,
    volume: u64,
    req: u64,
    waited: bool,
)
    ensures
        ({
            let step = checkpoint_step(Some(state), volume, req, waited);
            let answered = state.ready && state.checkpoint_results@.contains_key(req);
            let open = state.ready && !answered && !state.operations.migration;
            let busy = state.operations.mutation is Some || state.operations.guest_resume;
            &&& !state.ready || (!answered && state.operations.migration) ==> step
                == CheckpointStep::Reply(Err(AdminError::Rejected))
            &&& answered ==> step == CheckpointStep::Reply(
                Ok(
                    AdminSuccess::CheckpointDone { volume, epoch: state.checkpoint_results@[req] },
                ),
            )
            &&& open && busy ==> step is Wait
            &&& open && !busy && state.epoch < u64::MAX && state.config.kind == VolumeKind::Memory
                ==> step == (CheckpointStep::Pause {
                incarnation: state.incarnation,
                epoch: (state.epoch + 1) as u64,
            })
            &&& open && !busy && state.epoch < u64::MAX && state.config.kind == VolumeKind::Data
                ==> step == (CheckpointStep::Capture {
                incarnation: state.incarnation,
                epoch: (state.epoch + 1) as u64,
            })
        }),
        checkpoint_step(None, volume, req, true) == CheckpointStep::Reply(
            Err(AdminError::Rejected),
        ),
        checkpoint_step(None, volume, req, false) is Silent,
{
}

/// A checkpoint that begins has the right to change the volume; one that waits is
/// told when it may go on; an answer changes nothing.
pub proof fn a_checkpoint_takes_the_volume(
    before: HostState,
    after: HostState,
    volume: u64,
    waiter: u64,
    step: CheckpointStep,
    elsewhere: u64,
)
    requires
        checkpoint_decided(before, after, volume, waiter, step),
        before.volumes@.contains_key(volume),
        elsewhere != volume,
    ensures
        step is Reply || step is Silent ==> after == before,
        step is Wait ==> after.volumes@[volume].mutation_waiters@
            == before.volumes@[volume].mutation_waiters@.push(waiter)
            && after.volumes@[volume].operations == before.volumes@[volume].operations,
        step is Capture || step is Pause ==> after.volumes@[volume].operations.mutation == Some(
            CaptureKind::Checkpoint,
        ) && after.volumes@[volume].mutation_waiters == before.volumes@[volume].mutation_waiters,
        after.volumes@[volume].page_locs == before.volumes@[volume].page_locs,
        after.volumes@[volume].epoch == before.volumes@[volume].epoch,
        after.volumes@.contains_key(elsewhere) == before.volumes@.contains_key(elsewhere),
        after.volumes@[elsewhere] == before.volumes@[elsewhere],
{
}

/// A paused guest is resumed exactly once, if it is still the one that was paused;
/// then all that waited go on and the volume has its turn.
pub proof fn a_paused_guest_is_resumed(
    before: HostState,
    paused: HostState,
    after: HostState,
    volume: u64,
    guest: PausedGuest,
    waiters: Seq<u64>,
)
    requires
        before.volumes@.contains_key(volume),
        noted_paused(before, paused, volume),
        guest.volume == volume,
        guest.incarnation == before.volumes@[volume].incarnation,
        guest.active,
        noted_resumed(paused, after, volume, guest.incarnation, waiters),
    ensures
        paused.volumes@[volume].operations.guest_resume,
        resume_step(guest, paused) is Resume,
        resume_step(PausedGuest { active: false, ..guest }, paused) is Done,
        !after.volumes@[volume].operations.guest_resume,
        resume_step(guest, after) is Done,
        waiters == before.volumes@[volume].mutation_waiters@,
        after.volumes@[volume].mutation_waiters@.len() == 0,
        after.scheduled@.contains(volume),
        after.volumes@[volume].pages == before.volumes@[volume].pages,
        after.volumes@[volume].operations.mutation == before.volumes@[volume].operations.mutation,
{
    turns_are_kept(paused.scheduled@, volume, volume);
}

// ---------------------------------------------------------------------------
// Reports
// ---------------------------------------------------------------------------

proof fn lemma_counts(pages: Map<u64, PageState>, keys: Seq<u64>)
    ensures
        dirty_count(pages, keys) == keys.filter(|k: u64| pages[k].dirty).len(),
        unstable_count(pages, keys) == keys.filter(
            |k: u64| pages[k].dirty || pages[k].flushing,
        ).len(),
    decreases keys.len(),
{
    reveal(Seq::filter);
    if keys.len() > 0 {
        lemma_counts(pages, keys.drop_last());
    }
}

/// A report tells a volume's role and counts its pages: those resident, those
/// written to, and those not durable as they are.
pub proof fn a_report_counts_the_pages(stats: VolumeStats, state: VolumeState)
    requires
        describes_volume(stats, state),
    ensures
        state.outbound ==> stats.role == VolumeRole::Outbound,
        !state.outbound && state.ready ==> stats.role == VolumeRole::Serving,
        !state.outbound && !state.ready ==> stats.role == VolumeRole::Recovering,
        stats.archive_lag_bytes is Some <==> state.head_version is Some,
        stats.archive_lag_bytes is Some && unarchived_bytes(state.files@, state.backed_files@)
            <= u64::MAX ==> stats.archive_lag_bytes->0 == unarchived_bytes(
            state.files@,
            state.backed_files@,
        ),
        exists|keys: Seq<u64>|
            {
                &&& #[trigger] lists_keys(keys, state.pages@)
                &&& stats.resident_pages == keys.len()
                &&& stats.dirty_pages == keys.filter(|k: u64| state.pages@[k].dirty).len()
                &&& stats.unstable_pages == keys.filter(
                    |k: u64| state.pages@[k].dirty || state.pages@[k].flushing,
                ).len()
            },
{
    let keys = choose|keys: Seq<u64>|
        {
            &&& #[trigger] lists_keys(keys, state.pages@)
            &&& stats.resident_pages == keys.len()
            &&& stats.dirty_pages == dirty_count(state.pages@, keys)
            &&& stats.unstable_pages == unstable_count(state.pages@, keys)
        };
    lemma_counts(state.pages@, keys);
    assert(lists_keys(keys, state.pages@));
}

/// What the archive lacks are the bytes of the files it does not have.
pub proof fn the_archive_lacks_the_files_it_does_not_have(
    files: Seq<LocalFile>,
    backed: Seq<ObjectIdentity>,
    more: LocalFile,
)
    ensures
        unarchived_bytes(Seq::<LocalFile>::empty(), backed) == 0,
        backed.contains(more.identity) ==> unarchived_bytes(files.push(more), backed)
            == unarchived_bytes(files, backed),
        !backed.contains(more.identity) ==> unarchived_bytes(files.push(more), backed)
            == unarchived_bytes(files, backed) + more.bytes,
{
    assert(files.push(more).drop_last() =~= files);
}

/// A host's totals are those of its volumes.
pub proof fn totals_add_up(volumes: Seq<(u64, VolumeStats)>, more: (u64, VolumeStats))
    ensures
        summed(Seq::<(u64, VolumeStats)>::empty(), true) == 0,
        summed(Seq::<(u64, VolumeStats)>::empty(), false) == 0,
        summed(volumes, true) + more.1.dirty_pages <= u64::MAX ==> summed(volumes.push(more), true)
            == summed(volumes, true) + more.1.dirty_pages,
        summed(volumes, false) + more.1.resident_pages <= u64::MAX ==> summed(
            volumes.push(more),
            false,
        ) == summed(volumes, false) + more.1.resident_pages,
{
    assert(volumes.push(more).drop_last() =~= volumes);
}

} // verus!
