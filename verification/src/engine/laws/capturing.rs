//! What the course of a capture is for: every page that was taken is summed up,
//! written and counted, in order, and nothing is in effect before all of it is on
//! the device.

use super::super::capture::{
    blocks_after, capture_refused, drops_vmm, Checkpoint, PreparedRescue, WrittenFile,
};
use super::super::capturing::{
    all_taken_over, are_rescued, begins, broken_step, capture_given_up, counted, device_changes,
    dropped_blocks, file_stored, goes_on_writing, page_changes, reading_step, reads, records_state,
    rescues_taken, slot_released, sums_up, taken_over, CaptureBatch, CaptureJob, CaptureStep,
    CapturedPage, FileJob, RecordJob,
};
use super::super::checksum::contributions;
use super::super::records::{blob_size, growth};
use super::super::state::{Counters, HostState, VolumeBlob, VolumeBlobKind};
use super::super::volume::{BlockSum, CaptureKind, PageEntry, Rescue, VolumeState};
use super::capture::the_last_change_of_a_block_counts;
use super::fault::turns_are_kept;
use super::seqs::lemma_filter_members;
use crate::objects::{BlockKey, BlockSpace, NamespaceKind};
use vstd::prelude::*;

verus! {

// ---------------------------------------------------------------------------
// Taking pages
// ---------------------------------------------------------------------------

/// A capture that begins takes nothing before what was written since is protected,
/// and then the pages one by one.
pub proof fn a_capture_protects_before_it_reads(
    before: HostState,
    after: HostState,
    volume: u64,
    kind: CaptureKind,
    reservation: Option<u64>,
    checkpoint: Option<Checkpoint>,
    complete: bool,
    prepared: Seq<PreparedRescue>,
    step: CaptureStep,
    page: u64,
)
    requires
        begins(
            before,
            after,
            volume,
            kind,
            reservation,
            checkpoint,
            complete,
            prepared,
            step,
        ),
    ensures
        step is Refused <==> !before.volumes@.contains_key(volume) || capture_refused(
            before.volumes@[volume],
            kind,
            reservation,
            prepared,
        ),
        step is Refused ==> after.volumes@ == before.volumes@,
        step !is Refused && before.volumes@[volume].pages@.contains_key(page)
            && before.volumes@[volume].pages@[page].dirty ==> {
            &&& step is Protect
            &&& step->Protect_0.plan.protect@.contains(page)
            &&& step->Protect_0.plan.pages@.contains(page)
            &&& step->Protect_0.volume == volume
            &&& step->Protect_0.kind == kind
            &&& step->Protect_0.checkpoint == checkpoint
            &&& step->Protect_0.complete == complete
            &&& step->Protect_0.pages@.len() == 0
        },
        step !is Refused ==> after.volumes@[volume].operations.mutation == Some(kind),
{
    if step !is Refused && before.volumes@[volume].pages@.contains_key(page)
        && before.volumes@[volume].pages@[page].dirty {
        let job = match step {
            CaptureStep::Protect(job) => job,
            CaptureStep::Read(job) => job,
            CaptureStep::Resume { paused, .. } => paused,
            CaptureStep::Rescue(job) => job,
            _ => arbitrary(),
        };
        super::capture::a_capture_takes_every_written_page(
            before.volumes@[volume],
            after.volumes@[volume],
            job.plan,
            kind,
            complete,
            prepared,
            page,
        );
        assert(job.plan.protect@.contains(page));
    }
}

/// Which step follows: the next page as long as there is one; then a guest that was
/// paused for a request runs again, before anything else is done.
pub proof fn a_paused_guest_runs_once_its_pages_are_read(job: CaptureJob)
    ensures
        ({
            let left = job.pages@.len() < job.plan.pages@.len();
            let paused = job.checkpoint is Some && job.checkpoint->0.req is Some;
            &&& left ==> reading_step(job) == CaptureStep::Read(job)
            &&& !left && paused ==> reading_step(job) == (CaptureStep::Resume {
                paused: job,
                valid: true,
            })
            &&& !left && !paused ==> reading_step(job) == CaptureStep::Rescue(job)
            &&& paused ==> broken_step(job) == (CaptureStep::Resume { paused: job, valid: false })
            &&& !paused ==> broken_step(job) is GiveUp
        }),
{
}

/// A page that is read joins those taken, under the generation that was reserved
/// for it; with the content that was saved for it if the guest has written to it,
/// and as it was read otherwise.
pub proof fn a_read_page_joins_the_capture(
    before: HostState,
    after: HostState,
    job: CaptureJob,
    observed: Vec<u8>,
    step: CaptureStep,
)
    requires
        reads(before, after, job, observed, step),
        before.volumes@.contains_key(job.volume),
        before.volumes@[job.volume].incarnation == job.plan.incarnation,
        before.volumes@[job.volume].operations.drain is Some,
    ensures
        ({
            let page = job.plan.pages@[job.pages@.len() as int];
            let drain = before.volumes@[job.volume].operations.drain->0;
            let next = match step {
                CaptureStep::Read(next) => Some(next),
                CaptureStep::Resume { paused, valid } => if valid {
                    Some(paused)
                } else {
                    None
                },
                CaptureStep::Rescue(next) => Some(next),
                _ => None,
            };
            &&& drain.copied@.contains_key(page) || drain.unread@.contains_key(page) ==> {
                &&& next is Some
                &&& next->0.pages@.len() == job.pages@.len() + 1
                &&& next->0.pages@.last().page == page
                &&& next->0.plan == job.plan
                &&& next->0.volume == job.volume
                &&& forall|i: int|
                    0 <= i < job.pages@.len() ==> next->0.pages@[i] == job.pages@[i]
            }
            &&& !drain.unread@.contains_key(page) && drain.copied@.contains_key(page) ==> {
                &&& next->0.pages@.last().generation == drain.copied@[page].generation
                &&& next->0.pages@.last().bytes@ == drain.copied@[page].bytes@
            }
            &&& drain.unread@.contains_key(page) ==> {
                &&& next->0.pages@.last().generation == drain.unread@[page]
                &&& next->0.pages@.last().bytes@ == observed@
            }
        }),
{
}

/// Pages of files that are given up join the capture as they were read, and are
/// taken once.
pub proof fn rescued_pages_join_the_capture(
    before: VolumeState,
    after: VolumeState,
    pages: Seq<CapturedPage>,
    rescues: Seq<Rescue>,
    i: int,
)
    requires
        rescues_taken(before, after),
        are_rescued(pages, rescues),
        0 <= i < rescues.len(),
    ensures
        pages.len() == rescues.len(),
        pages[i].page == rescues[i].page,
        pages[i].generation == rescues[i].generation,
        pages[i].bytes == rescues[i].bytes,
        after.operations.drain is Some,
        after.operations.drain->0.rescues@.len() == 0,
        after.operations.drain->0.unread == before.operations.drain->0.unread,
        after.page_locs == before.page_locs,
{
    assert(pages[i] == CapturedPage {
        page: rescues[i].page,
        generation: rescues[i].generation,
        bytes: rescues[i].bytes,
    });
}

// ---------------------------------------------------------------------------
// Summing up
// ---------------------------------------------------------------------------

/// What a capture's blocks are: each page's newest capture under its generation; of a
/// checkpoint the device state, under the record's number, and none of an earlier
/// one; and everything else as it was. The checksum changes with the blocks, and
/// with nothing else.
pub proof fn a_capture_sums_up_its_pages(
    state: VolumeState,
    job: CaptureJob,
    sums: Seq<u64>,
    device: Seq<u64>,
    batch: CaptureBatch,
    i: int,
    d: int,
    other: u64,
)
    requires
        sums_up(state, job, sums, device, batch),
        device.len() <= u32::MAX,
        0 <= i < job.pages@.len(),
        forall|j: int|
            i < j < job.pages@.len() ==> (#[trigger] job.pages@[j]).page as u32
                != job.pages@[i].page as u32,
    ensures
        batch.pre_checksum == state.state_checksum,
        batch.post_checksum ^ contributions(batch.blocks@) == state.state_checksum ^ contributions(
            state.blocks@,
        ),
        ({
            let code = state.config.key(job.pages@[i].page as u32).code();
            &&& batch.blocks@.contains_key(code)
            &&& batch.blocks@[code] == (BlockSum {
                generation: job.pages@[i].generation,
                contribution: sums[i],
            })
        }),
        job.checkpoint is Some && 0 <= d < device.len() ==> {
            let code = (0x2_0000_0000 + d) as u64;
            &&& batch.blocks@.contains_key(code)
            &&& batch.blocks@[code] == (BlockSum {
                generation: job.plan.seq,
                contribution: device[d],
            })
        },
        job.checkpoint is Some && other >= 0x2_0000_0000 + device.len()
            ==> !batch.blocks@.contains_key(other),
        job.checkpoint is None && other >= 0x2_0000_0000 ==> batch.blocks@.contains_key(other)
            == state.blocks@.contains_key(other) && batch.blocks@[other] == state.blocks@[other],
        other < 0x2_0000_0000 && (forall|j: int|
            0 <= j < job.pages@.len() ==> state.config.key(
                (#[trigger] job.pages@[j]).page as u32,
            ).code() != other) ==> batch.blocks@.contains_key(other) == state.blocks@.contains_key(
            other,
        ) && batch.blocks@[other] == state.blocks@[other],
{
    let pages = page_changes(state.config, job.pages@, sums);
    let code = state.config.key(job.pages@[i].page as u32).code();
    assert forall|j: int| 0 <= j < pages.len() implies (#[trigger] pages[j]).0 < 0x2_0000_0000 by {
        let key = state.config.key(job.pages@[j].page as u32);
        assert(key.code() == key.space.rank() * 0x1_0000_0000 + key.block);
    }
    assert forall|j: int| i < j < pages.len() implies (#[trigger] pages[j]).0 != code by {
        assert(job.pages@[j].page as u32 != job.pages@[i].page as u32);
        let a = state.config.key(job.pages@[j].page as u32);
        let b = state.config.key(job.pages@[i].page as u32);
        assert(a.code() == a.space.rank() * 0x1_0000_0000 + a.block);
        assert(b.code() == b.space.rank() * 0x1_0000_0000 + b.block);
    }
    assert(pages[i].0 == code);
    if job.checkpoint is Some {
        let drops = choose|drops: Seq<(u64, Option<BlockSum>)>|
            {
                &&& #[trigger] drops_vmm(drops, state.blocks@)
                &&& batch.blocks@ == blocks_after(
                    state.blocks@,
                    pages + drops + device_changes(job.plan.seq, device),
                )
                &&& batch.dropped@ == dropped_blocks(drops, device.len())
            };
        let vmm = device_changes(job.plan.seq, device);
        let all = pages + drops + vmm;
        let start = pages.len() + drops.len();
        assert forall|k: int| 0 <= k < drops.len() implies (#[trigger] drops[k]).0
            >= 0x2_0000_0000 by {
            let gone = drops[k].0;
            let had = state.blocks@.contains_key(gone);
            assert(had && super::super::capture::is_vmm_code(gone));
        }
        assert forall|k: int| 0 <= k < vmm.len() implies (#[trigger] vmm[k]).0 == 0x2_0000_0000
            + k by {
            let key = BlockKey { space: BlockSpace::Vmm, block: k as u32 };
            assert(key.code() == key.space.rank() * 0x1_0000_0000 + key.block);
        }
        the_last_change_of_a_block_counts(state.blocks@, all, code);
        assert(all[i] == pages[i]);
        assert forall|j: int| i < j < all.len() implies (#[trigger] all[j]).0 != code by {
            if j < pages.len() {
                assert(all[j] == pages[j]);
            } else if j < start {
                assert(all[j] == drops[j - pages.len()]);
            } else {
                assert(all[j] == vmm[j - start]);
            }
        }
        if 0 <= d < device.len() {
            let mine = (0x2_0000_0000 + d) as u64;
            the_last_change_of_a_block_counts(state.blocks@, all, mine);
            assert(all[start + d] == vmm[d]);
            assert(vmm[d].0 == 0x2_0000_0000 + d);
            assert forall|j: int| start + d < j < all.len() implies (#[trigger] all[j]).0
                != mine by {
                assert(all[j] == vmm[j - start]);
            }
        }
        the_last_change_of_a_block_counts(state.blocks@, all, other);
        if other >= 0x2_0000_0000 + device.len() {
            assert forall|j: int| 0 <= j < all.len() && !(pages.len() <= j < start) implies (
            #[trigger] all[j]).0 != other by {
                if j < pages.len() {
                    assert(all[j] == pages[j]);
                } else {
                    assert(all[j] == vmm[j - start]);
                }
            }
            let had = state.blocks@.contains_key(other);
            if had {
                assert(super::super::capture::is_vmm_code(other));
                let k = choose|k: int| 0 <= k < drops.len() && (#[trigger] drops[k]).0 == other;
                assert(all[pages.len() + k] == drops[k]);
                assert forall|j: int| pages.len() + k < j < all.len() implies (#[trigger] all[j]).0
                    != other by {
                    if j < start {
                        assert(all[j] == drops[j - pages.len()]);
                        assert(drops[k].0 < drops[j - pages.len()].0);
                    }
                }
            } else {
                assert forall|j: int| 0 <= j < all.len() implies (#[trigger] all[j]).0 != other by {
                    if pages.len() <= j < start {
                        assert(all[j] == drops[j - pages.len()]);
                    }
                }
            }
        }
        if other < 0x2_0000_0000 && (forall|j: int|
            0 <= j < job.pages@.len() ==> state.config.key(
                (#[trigger] job.pages@[j]).page as u32,
            ).code() != other) {
            assert forall|j: int| 0 <= j < all.len() implies (#[trigger] all[j]).0 != other by {
                if j < pages.len() {
                    assert(all[j] == pages[j]);
                    assert(state.config.key(job.pages@[j].page as u32).code() != other);
                } else if j < start {
                    assert(all[j] == drops[j - pages.len()]);
                } else {
                    assert(all[j] == vmm[j - start]);
                }
            }
        }
    } else {
        the_last_change_of_a_block_counts(state.blocks@, pages, code);
        the_last_change_of_a_block_counts(state.blocks@, pages, other);
        if other < 0x2_0000_0000 && (forall|j: int|
            0 <= j < job.pages@.len() ==> state.config.key(
                (#[trigger] job.pages@[j]).page as u32,
            ).code() != other) {
            assert forall|j: int| 0 <= j < pages.len() implies (#[trigger] pages[j]).0 != other by {
                assert(state.config.key(job.pages@[j].page as u32).code() != other);
            }
        }
    }
}

/// The blocks of an earlier device state that are marked as gone: those that the new
/// one does not replace.
pub proof fn unreplaced_device_blocks_are_marked(
    drops: Seq<(u64, Option<BlockSum>)>,
    count: nat,
    code: u64,
)
    ensures
        dropped_blocks(drops, count).contains(code) <==> code >= 0x2_0000_0000 + count && exists|
            i: int,
        |
            0 <= i < drops.len() && (#[trigger] drops[i]).0 == code,
{
    let codes = drops.map_values(|d: (u64, Option<BlockSum>)| d.0);
    lemma_filter_members(codes, |c: u64| c >= 0x2_0000_0000 + count);
    if codes.contains(code) {
        let i = choose|i: int| 0 <= i < codes.len() && codes[i] == code;
        assert(drops[i].0 == code);
    }
    if exists|i: int| 0 <= i < drops.len() && (#[trigger] drops[i]).0 == code {
        let i = choose|i: int| 0 <= i < drops.len() && (#[trigger] drops[i]).0 == code;
        assert(codes[i] == code);
    }
}

// ---------------------------------------------------------------------------
// Writing
// ---------------------------------------------------------------------------

/// Files are written one by one, each with room set aside for it; the record comes
/// after the last.
pub proof fn files_come_before_the_record(
    before: HostState,
    after: HostState,
    batch: CaptureBatch,
    files: Vec<WrittenFile>,
    done: int,
    step: CaptureStep,
)
    requires
        goes_on_writing(before, after, batch, files, done, step),
        0 <= done <= files@.len(),
    ensures
        done < files@.len() ==> {
            &&& step is WriteFile || step is GiveUp
            &&& match step {
                CaptureStep::WriteFile(job) => {
                    &&& job.batch == batch
                    &&& job.files == files
                    &&& job.done == done
                    &&& after.ledger.reserved == before.ledger.reserved + job.reserved
                    &&& before.ledger.capacity matches Some(capacity) ==> before.ledger.used
                        + after.ledger.reserved + before.ledger.headroom <= capacity
                },
                _ => after == before,
            }
            &&& after.volumes == before.volumes
        },
        done == files@.len() ==> step is WriteRecord || step is GiveUp,
        done == files@.len() && before.volumes@.contains_key(batch.job.volume)
            && before.volumes@[batch.job.volume].incarnation == batch.job.plan.incarnation
            ==> step is WriteRecord && step->WriteRecord_0.batch == batch
            && step->WriteRecord_0.files == files && step->WriteRecord_0.record.seq
            == batch.job.plan.seq && step->WriteRecord_0.record.capture_seq
            == batch.job.plan.capture_seq && step->WriteRecord_0.record.post_state_checksum
            == batch.post_checksum,
{
    assert(files@.len() == files.len());
}

/// The files of a checkpoint are those its device state is in; other captures leave
/// them as they were.
pub proof fn a_checkpoint_names_its_files(
    before: HostState,
    after: HostState,
    batch: CaptureBatch,
    files: Vec<WrittenFile>,
    step: CaptureStep,
    i: int,
)
    requires
        records_state(before, after, batch, files, step),
        before.volumes@.contains_key(batch.job.volume),
        before.volumes@[batch.job.volume].incarnation == batch.job.plan.incarnation,
        0 <= i < files@.len(),
    ensures
        step is WriteRecord,
        step->WriteRecord_0.names@.len() == files@.len(),
        ({
            let name = step->WriteRecord_0.names@[i];
            &&& name.namespace_kind == NamespaceKind::Volume
            &&& name.namespace_id == batch.job.volume
            &&& name.writer_fence == batch.job.plan.fence
            &&& name.object_id == files@[i].object
        }),
        batch.job.checkpoint is Some ==> after.volumes@[batch.job.volume].vmm_files@
            == step->WriteRecord_0.names@,
        batch.job.checkpoint is None ==> after.volumes@[batch.job.volume].vmm_files@
            == before.volumes@[batch.job.volume].vmm_files@,
{
}

/// Pages that were carried over are those in a file that the guest had not written
/// to.
pub proof fn carried_pages_are_counted(
    entries: Seq<(u64, PageEntry)>,
    flushed: Seq<u64>,
    more: (u64, PageEntry),
    files: Seq<WrittenFile>,
    file: WrittenFile,
)
    ensures
        taken_over(Seq::<(u64, PageEntry)>::empty(), flushed) == 0,
        flushed.contains(more.0) ==> taken_over(entries.push(more), flushed) == taken_over(
            entries,
            flushed,
        ),
        !flushed.contains(more.0) ==> taken_over(entries.push(more), flushed) == taken_over(
            entries,
            flushed,
        ) + 1,
        all_taken_over(Seq::<WrittenFile>::empty(), flushed) == 0,
        all_taken_over(files.push(file), flushed) == all_taken_over(files, flushed) + taken_over(
            file.entries@,
            flushed,
        ),
{
    assert(entries.push(more).drop_last() =~= entries);
    assert(files.push(file).drop_last() =~= files);
}

/// A capture in effect is counted: its record, its pages, the files it gave up, the
/// synchronisations it released, and whether it was a checkpoint.
pub proof fn a_capture_in_effect_is_counted(before: Counters, job: RecordJob, released: nat)
    requires
        before.records_written < u64::MAX,
        before.pages_flushed + job.batch.job.plan.pages@.len() <= u64::MAX,
        before.files_compacted + job.batch.job.plan.victims@.len() <= u64::MAX,
        before.syncs_acked + released <= u64::MAX,
        before.checkpoints_done < u64::MAX,
    ensures
        ({
            let after = counted(before, job, released);
            &&& after.records_written == before.records_written + 1
            &&& after.pages_flushed == before.pages_flushed + job.batch.job.plan.pages@.len()
            &&& after.files_compacted == before.files_compacted + job.batch.job.plan.victims@.len()
            &&& after.syncs_acked == before.syncs_acked + released
            &&& job.batch.job.checkpoint is Some ==> after.checkpoints_done
                == before.checkpoints_done + 1
            &&& job.batch.job.checkpoint is None ==> after.checkpoints_done
                == before.checkpoints_done
            &&& after.fenced == before.fenced
            &&& after.fills == before.fills
        }),
{
}

// ---------------------------------------------------------------------------
// Ending
// ---------------------------------------------------------------------------

/// A capture that is given up protects no page any more: those that are still
/// protected are handed back. What was written stays to be captured.
pub proof fn a_given_up_capture_hands_its_pages_back(
    before: HostState,
    after: HostState,
    volume: u64,
    incarnation: u64,
    armed: Seq<u64>,
    page: u64,
)
    requires
        capture_given_up(before, after, volume, incarnation, armed),
        before.volumes@.contains_key(volume),
        before.volumes@[volume].incarnation == incarnation,
    ensures
        armed.contains(page) <==> before.volumes@[volume].operations.drain is Some
            && before.volumes@[volume].operations.drain->0.armed@.contains(page),
        after.volumes@[volume].operations.drain is None,
        after.volumes@[volume].operations.mutation == before.volumes@[volume].operations.mutation,
        after.volumes@[volume].pages == before.volumes@[volume].pages,
        after.volumes@[volume].page_locs == before.volumes@[volume].page_locs,
        after.volumes@[volume].best_record == before.volumes@[volume].best_record,
        after.volumes@[volume].pending_syncs == before.volumes@[volume].pending_syncs,
{
}

/// A capture that ends gives the volume back to those that wait for it, and the
/// volume has its turn. Another's right is left alone.
pub proof fn an_ended_capture_gives_the_volume_back(
    before: HostState,
    after: HostState,
    volume: u64,
    incarnation: u64,
    kind: CaptureKind,
    waiters: Seq<u64>,
)
    requires
        slot_released(before, after, volume, incarnation, kind, waiters),
        before.volumes@.contains_key(volume),
        before.volumes@[volume].incarnation == incarnation,
    ensures
        waiters == before.volumes@[volume].mutation_waiters@,
        after.volumes@[volume].mutation_waiters@.len() == 0,
        before.volumes@[volume].operations.mutation == Some(kind)
            ==> after.volumes@[volume].operations.mutation is None,
        before.volumes@[volume].operations.mutation != Some(kind)
            ==> after.volumes@[volume].operations.mutation
            == before.volumes@[volume].operations.mutation,
        after.scheduled@.contains(volume),
        after.volumes@[volume].pages == before.volumes@[volume].pages,
        after.volumes@[volume].best_record == before.volumes@[volume].best_record,
{
    turns_are_kept(before.scheduled@, volume, volume);
}

/// A file of a capture is written exactly if there is room for what it grows by,
/// beside what is kept free; otherwise the capture is given up.
pub proof fn a_file_is_written_if_there_is_room(
    before: HostState,
    after: HostState,
    batch: CaptureBatch,
    files: Vec<WrittenFile>,
    done: int,
    step: CaptureStep,
)
    requires
        goes_on_writing(before, after, batch, files, done, step),
        0 <= done < files@.len(),
    ensures
        ({
            let name = VolumeBlob {
                volume: batch.job.volume,
                fence: batch.job.plan.fence,
                kind: VolumeBlobKind::File,
                number: files@[done].object,
            };
            let more = growth(before.blobs@, name, files@[done].bytes);
            let room = before.ledger.reserved + more <= u64::MAX && match before.ledger.capacity {
                Some(capacity) => before.ledger.used + before.ledger.reserved + more
                    + before.ledger.headroom <= capacity,
                None => true,
            };
            &&& room <==> step is WriteFile
            &&& !room <==> step is GiveUp
            &&& room ==> step->WriteFile_0.reserved == more
        }),
{
}

/// A written file takes the room that was set aside for it, under its own name.
pub proof fn a_written_file_takes_its_room(before: HostState, after: HostState, job: FileJob)
    requires
        file_stored(before, after, job),
        job.done < job.files@.len(),
        job.reserved <= before.ledger.reserved,
        before.ledger.used + job.files@[job.done as int].bytes <= u64::MAX,
    ensures
        ({
            let name = VolumeBlob {
                volume: job.batch.job.volume,
                fence: job.batch.job.plan.fence,
                kind: VolumeBlobKind::File,
                number: job.files@[job.done as int].object,
            };
            &&& blob_size(after.blobs@, name) == Some(job.files@[job.done as int].bytes)
            &&& after.ledger.reserved == before.ledger.reserved - job.reserved
            &&& after.volumes == before.volumes
        }),
{
    let name = VolumeBlob {
        volume: job.batch.job.volume,
        fence: job.batch.job.plan.fence,
        kind: VolumeBlobKind::File,
        number: job.files@[job.done as int].object,
    };
    let other = VolumeBlob { kind: VolumeBlobKind::Record, ..name };
    super::records::a_settled_copy_takes_its_room(
        before,
        after,
        name,
        job.files@[job.done as int].bytes,
        job.reserved,
        true,
        other,
    );
}

} // verus!
