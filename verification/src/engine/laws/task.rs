//! What database requests are for: each is answered from the files as they are, and
//! changes only what it names.

use super::super::database::{read_bytes, ReadPlan, TruncatePlan};
use super::super::persist::DatabasePersistError;
use super::super::state::{AttachmentPhase, VsetState};
use super::super::task::{
    answers, begun, commit_failure, cut_commits, goes_on_committed, goes_on_with_pages, needs_spans,
    sync_goes_on, DatabaseStep, DatabaseTask, Tail,
};
use super::database::meta_of;
use crate::database::{
    AnswerView, AttachmentId, DatabaseError, DatabaseFile, DatabaseSuccess, OpView,
};
use crate::journal::PAGE_SIZE;
use crate::types::VsetId;
use vstd::prelude::*;

verus! {

/// Questions about files are answered from the files as they are, and change
/// nothing.
pub proof fn questions_are_answered_as_it_is(
    before: VsetState,
    after: VsetState,
    attachment: AttachmentId,
    handle: u64,
    file: DatabaseFile,
    step: DatabaseStep,
)
    ensures
        begun(before, after, attachment, OpView::Access { file }, step) ==> after == before
            && answers(
            step,
            Ok(AnswerView::Access { exists: meta_of(before.database, file).exists }),
        ),
        begun(before, after, attachment, OpView::Stat { file }, step) ==> after == before && answers(
            step,
            Ok(
                AnswerView::Stat {
                    exists: meta_of(before.database, file).exists,
                    size: meta_of(before.database, file).size,
                },
            ),
        ),
        begun(before, after, attachment, OpView::FileSize { handle }, step) ==> {
            &&& after == before
            &&& before.database_runtime.handles@.contains_key(handle) ==> answers(
                step,
                Ok(
                    AnswerView::FileSize {
                        size: meta_of(
                            before.database,
                            before.database_runtime.handles@[handle],
                        ).size,
                    },
                ),
            )
            &&& !before.database_runtime.handles@.contains_key(handle) ==> answers(
                step,
                Err(DatabaseError::InvalidHandle),
            )
        },
{
}

/// A handle that is closed is gone, and the others stay.
pub proof fn closing_frees_the_handle(
    before: VsetState,
    after: VsetState,
    attachment: AttachmentId,
    handle: u64,
    step: DatabaseStep,
    other: u64,
)
    requires
        begun(before, after, attachment, OpView::Close { handle }, step),
        other != handle,
    ensures
        !after.database_runtime.handles@.contains_key(handle),
        before.database_runtime.handles@.contains_key(handle) ==> answers(
            step,
            Ok(AnswerView::Closed),
        ),
        !before.database_runtime.handles@.contains_key(handle) ==> answers(
            step,
            Err(DatabaseError::InvalidHandle),
        ),
        after.database_runtime.handles@.contains_key(other)
            == before.database_runtime.handles@.contains_key(other),
        after.database_runtime.handles@[other] == before.database_runtime.handles@[other],
        after.database == before.database,
        after.page_locs == before.page_locs,
{
}

/// A file that exists is opened at once under its handle; one that is missing is
/// created empty first, by a commit of no pages, if that was asked for.
pub proof fn opening_gives_the_handle(
    before: VsetState,
    after: VsetState,
    attachment: AttachmentId,
    handle: u64,
    file: DatabaseFile,
    create: bool,
    step: DatabaseStep,
    other: DatabaseFile,
)
    requires
        begun(before, after, attachment, OpView::Open { handle, file, create }, step),
    ensures
        ({
            let taken = before.database_runtime.handles@.contains_key(handle);
            let exists = meta_of(before.database, file).exists;
            &&& taken ==> answers(step, Err(DatabaseError::AlreadyOpen)) && after == before
            &&& !taken && exists ==> {
                &&& answers(step, Ok(AnswerView::Opened))
                &&& after.database_runtime.handles@.contains_key(handle)
                &&& after.database_runtime.handles@[handle] == file
                &&& after.database == before.database
            }
            &&& !taken && !exists && !create ==> answers(step, Err(DatabaseError::NotFound))
                && after == before
            &&& !taken && !exists && create ==> after == before && match step {
                DatabaseStep::Commit { commit, task } => {
                    &&& task == (DatabaseTask::Open { handle, file })
                    &&& commit.file == file
                    &&& commit.barrier is None
                    &&& commit.pages@.len() == 0
                    &&& commit.prune is None
                    &&& commit.mutation
                    &&& meta_of(commit.database, file).exists
                    &&& meta_of(commit.database, file).size == 0
                    &&& other != file ==> meta_of(commit.database, other) == meta_of(
                        before.database,
                        other,
                    )
                },
                _ => false,
            }
        }),
{
}

/// A read asks for the pages its range is in, up to the end of the file; beyond it
/// there is nothing to ask for.
pub proof fn a_read_asks_for_its_pages(
    before: VsetState,
    after: VsetState,
    attachment: AttachmentId,
    handle: u64,
    offset: u64,
    len: u32,
    step: DatabaseStep,
)
    requires
        begun(before, after, attachment, OpView::Read { handle, offset, len }, step),
        before.database_runtime.handles@.contains_key(handle),
        meta_of(before.database, before.database_runtime.handles@[handle]).exists,
        offset + len <= u64::MAX,
    ensures
        after == before,
        ({
            let file = before.database_runtime.handles@[handle];
            let size = meta_of(before.database, file).size;
            let end = if size <= offset {
                offset as int
            } else if size < offset + len {
                size as int
            } else {
                offset + len
            };
            &&& end == offset ==> answers(
                step,
                Ok(AnswerView::Read { bytes: Seq::empty(), eof: len > 0 }),
            )
            &&& end > offset ==> match step {
                DatabaseStep::Load { pages, task: DatabaseTask::Read { plan } } => {
                    &&& pages.file == file
                    &&& pages.first == offset as int / PAGE_SIZE as int
                    &&& pages.count == (end - 1) / PAGE_SIZE as int - offset as int
                        / PAGE_SIZE as int + 1
                    &&& plan.file == file
                    &&& plan.offset == offset
                    &&& plan.end == end
                    &&& plan.eof <==> end < offset + len
                },
                _ => false,
            }
        }),
{
}

/// A write asks for the pages it touches, to overlay them; then it commits them, with
/// the file at least as long as the write reaches.
pub proof fn a_write_overlays_the_pages_it_touches(
    before: VsetState,
    after: VsetState,
    attachment: AttachmentId,
    handle: u64,
    offset: u64,
    bytes: Seq<u8>,
    step: DatabaseStep,
    pages: Seq<Vec<u8>>,
    committing: DatabaseStep,
    k: int,
    j: int,
)
    requires
        begun(before, after, attachment, OpView::Write { handle, offset, bytes }, step),
        before.database_runtime.handles@.contains_key(handle),
        meta_of(before.database, before.database_runtime.handles@[handle]).exists,
        bytes.len() > 0,
        offset + bytes.len() <= u64::MAX,
        step is Load,
        goes_on_with_pages(before, step->Load_task, pages, committing),
        0 <= k < pages.len(),
        0 <= j < PAGE_SIZE,
    ensures
        after == before,
        step->Load_pages.file == before.database_runtime.handles@[handle],
        step->Load_pages.first == offset as int / PAGE_SIZE as int,
        step->Load_pages.count == (offset + bytes.len() - 1) / PAGE_SIZE as int - offset as int
            / PAGE_SIZE as int + 1,
        match committing {
            DatabaseStep::Commit { commit, task } => {
                let at = (offset as int / PAGE_SIZE as int + k) * PAGE_SIZE as int + j;
                &&& task is Written
                &&& commit.file == before.database_runtime.handles@[handle]
                &&& commit.first == offset as int / PAGE_SIZE as int
                &&& commit.mutation
                &&& commit.prune is None
                &&& commit.barrier is None
                &&& meta_of(commit.database, commit.file).size >= offset + bytes.len()
                &&& commit.pages@.len() == pages.len()
                &&& offset <= at < offset + bytes.len() ==> commit.pages@[k]@[j] == bytes[at
                    - offset]
                &&& !(offset <= at < offset + bytes.len()) ==> commit.pages@[k]@[j] == pages[k]@[j]
            },
            _ => false,
        },
{
    if let DatabaseStep::Commit { commit, task } = committing {
        super::database::a_write_changes_its_bytes_only(offset, bytes, pages, commit.pages@, k, j);
    }
}

/// A cut commits the file at its new size without the pages above, and with the page
/// it falls into cleared above it.
pub proof fn a_cut_commits_what_stays(plan: TruncatePlan, tail: Option<Tail>, step: DatabaseStep)
    requires
        cut_commits(plan, tail, step),
    ensures
        match step {
            DatabaseStep::Commit { commit, task } => {
                &&& task is Truncated
                &&& commit.file == plan.file
                &&& commit.prune == plan.prune
                &&& commit.database == plan.database
                &&& commit.mutation
                &&& commit.barrier is None
                &&& tail matches Some(t) ==> commit.first == t.page && commit.pages@.len() == 1
                    && commit.pages@[0] == t.bytes
                &&& tail is None ==> commit.pages@.len() == 0
            },
            _ => false,
        },
{
}

/// A synchronisation of the data is answered once everything written before it is
/// confirmed, and not before; and only to the user that has the database.
pub proof fn a_synchronisation_is_answered_once_confirmed(
    state: VsetState,
    attachment: AttachmentId,
    barrier: u64,
    step: DatabaseStep,
)
    requires
        sync_goes_on(Some(state), attachment, barrier, step),
    ensures
        ({
            let phase = state.database_runtime.phase;
            let user = phase == AttachmentPhase::Attached(attachment) || phase
                == AttachmentPhase::Draining(attachment);
            &&& state.sync_ack_through < barrier ==> step == (DatabaseStep::Replicate { barrier })
            &&& state.sync_ack_through >= barrier && user ==> answers(
                step,
                Ok(AnswerView::Synced { sequence: barrier }),
            )
            &&& state.sync_ack_through >= barrier && !user ==> answers(
                step,
                Err(DatabaseError::StaleAttachment),
            )
        }),
{
}

/// What a synchronisation does: it is about everything written so far. What no record
/// covers is recorded first, without a new write.
pub proof fn a_synchronisation_covers_what_was_written(
    before: VsetState,
    after: VsetState,
    attachment: AttachmentId,
    handle: u64,
    step: DatabaseStep,
)
    requires
        begun(before, after, attachment, OpView::Sync { handle }, step),
        before.database_runtime.handles@.contains_key(handle),
    ensures
        after == before,
        before.sync_ack_through < before.mutation_seq && before.local_covered_through
            < before.mutation_seq ==> match step {
            DatabaseStep::Commit { commit, task } => {
                &&& task == (DatabaseTask::Sync { barrier: before.mutation_seq })
                &&& commit.file == DatabaseFile::Main
                &&& commit.barrier == Some(before.mutation_seq)
                &&& !commit.mutation
                &&& commit.pages@.len() == 0
                &&& commit.prune is None
                &&& commit.database == before.database
            },
            _ => false,
        },
        before.sync_ack_through < before.mutation_seq && before.local_covered_through
            >= before.mutation_seq ==> step == (DatabaseStep::Replicate {
            barrier: before.mutation_seq,
        }),
{
}

/// A commit that was made is answered with its number; a handle is given out only to
/// the user that still has the database.
pub proof fn a_commit_is_answered_with_its_number(
    before: Map<u64, VsetState>,
    after: Map<u64, VsetState>,
    vset: VsetId,
    attachment: AttachmentId,
    task: DatabaseTask,
    sequence: u64,
    step: DatabaseStep,
)
    requires
        goes_on_committed(before, after, vset, attachment, task, sequence, step),
    ensures
        task is Written ==> answers(step, Ok(AnswerView::Written { sequence })) && after == before,
        task is Truncated ==> answers(step, Ok(AnswerView::Truncated { sequence })) && after
            == before,
        task is Deleted ==> answers(step, Ok(AnswerView::Deleted { sequence })) && after == before,
        match task {
            DatabaseTask::Open { handle, file } => {
                let phase = before[vset.0].database_runtime.phase;
                let user = before.contains_key(vset.0) && (phase == AttachmentPhase::Attached(
                    attachment,
                ) || phase == AttachmentPhase::Draining(attachment));
                &&& user ==> answers(step, Ok(AnswerView::Opened))
                    && after[vset.0].database_runtime.handles@.contains_key(handle)
                    && after[vset.0].database_runtime.handles@[handle] == file
                &&& !user ==> answers(step, Err(DatabaseError::StaleAttachment)) && after == before
            },
            _ => true,
        },
{
}

/// A commit that failed is an error of the device, but for a deletion that came while
/// the database was busy.
pub proof fn a_failed_commit_is_told(task: DatabaseTask, error: DatabasePersistError)
    ensures
        task is Deleted && error is Busy ==> commit_failure(task, error) == DatabaseError::Busy,
        !(task is Deleted && error is Busy) ==> commit_failure(task, error) == DatabaseError::Io,
{
}

/// A file is deleted once every leaf that may hold its pages is loaded; then it is
/// gone, and the other files stay.
pub proof fn a_deletion_loads_the_leaves_first(
    before: VsetState,
    after: VsetState,
    attachment: AttachmentId,
    file: DatabaseFile,
    step: DatabaseStep,
    other: DatabaseFile,
)
    requires
        begun(before, after, attachment, OpView::Delete { file }, step),
    ensures
        after == before,
        match step {
            DatabaseStep::Hydrate { spans, task: DatabaseTask::Delete { file: of, database } } => {
                &&& of == file
                &&& needs_spans(before, file, 0, spans@)
                &&& !meta_of(database, file).exists
                &&& meta_of(database, file).size == 0
                &&& other != file ==> meta_of(database, other) == meta_of(before.database, other)
            },
            _ => false,
        },
{
}

/// A cut waits while leaves are being loaded. One that falls into a page asks for that
/// page first; one that only takes pages away asks for the leaves it reaches; and one
/// that takes nothing away commits at once.
pub proof fn a_cut_asks_for_what_it_needs(
    before: VsetState,
    after: VsetState,
    attachment: AttachmentId,
    handle: u64,
    size: u64,
    step: DatabaseStep,
)
    requires
        begun(before, after, attachment, OpView::Truncate { handle, size }, step),
        before.database_runtime.handles@.contains_key(handle),
        meta_of(before.database, before.database_runtime.handles@[handle]).exists,
        size <= u32::MAX * PAGE_SIZE,
    ensures
        after == before,
        ({
            let file = before.database_runtime.handles@[handle];
            let shrinks = size < meta_of(before.database, file).size;
            let within = size % PAGE_SIZE as u64 != 0;
            let loading = !before.leaf_waiters@.is_empty();
            &&& shrinks && loading ==> answers(step, Err(DatabaseError::Busy))
            &&& shrinks && !loading && within ==> match step {
                DatabaseStep::Load { pages, task: DatabaseTask::CutPage { cut, page, keep } } => {
                    &&& pages.file == file
                    &&& pages.first == size / PAGE_SIZE as u64
                    &&& pages.count == 1
                    &&& page == size / PAGE_SIZE as u64
                    &&& keep == size % PAGE_SIZE as u64
                    &&& cut.file == file
                    &&& meta_of(cut.database, file).size == size
                },
                _ => false,
            }
            &&& shrinks && !loading && !within ==> match step {
                DatabaseStep::Hydrate { spans, task: DatabaseTask::Cut { cut, tail } } => {
                    &&& tail is None
                    &&& cut.file == file
                    &&& cut.prune == Some((size / PAGE_SIZE as u64) as u64)
                    &&& meta_of(cut.database, file).size == size
                    &&& needs_spans(before, file, (size / PAGE_SIZE as u64) as u64, spans@)
                },
                _ => false,
            }
            &&& !shrinks ==> match step {
                DatabaseStep::Commit { commit, task } => {
                    &&& task is Truncated
                    &&& commit.file == file
                    &&& commit.pages@.len() == 0
                    &&& commit.prune is None
                    &&& commit.mutation
                    &&& meta_of(commit.database, file).size == size
                },
                _ => false,
            }
        }),
{
}

/// The page a cut falls into is kept up to the cut and cleared above it.
pub proof fn a_cut_page_is_cleared_above_the_cut(
    state: VsetState,
    plan: TruncatePlan,
    page: u32,
    keep: u32,
    pages: Seq<Vec<u8>>,
    step: DatabaseStep,
    i: int,
)
    requires
        goes_on_with_pages(state, DatabaseTask::CutPage { cut: plan, page, keep }, pages, step),
        pages.len() == 1,
        keep <= pages[0]@.len(),
        0 <= i < pages[0]@.len(),
        plan.prune is Some,
    ensures
        match step {
            DatabaseStep::Hydrate { spans, task: DatabaseTask::Cut { cut, tail: Some(tail) } } => {
                &&& cut == plan
                &&& tail.page == page
                &&& tail.bytes@.len() == pages[0]@.len()
                &&& i < keep ==> tail.bytes@[i] == pages[0]@[i]
                &&& i >= keep ==> tail.bytes@[i] == 0
                &&& needs_spans(state, plan.file, plan.prune->0, spans@)
            },
            _ => false,
        },
{
}

/// A read is answered with the bytes of its range.
pub proof fn a_read_is_answered_with_its_bytes(
    state: VsetState,
    plan: ReadPlan,
    pages: Seq<Vec<u8>>,
    step: DatabaseStep,
    i: int,
)
    requires
        goes_on_with_pages(state, DatabaseTask::Read { plan }, pages, step),
        plan.offset <= plan.end,
        0 <= i < plan.end - plan.offset,
    ensures
        exists|bytes: Seq<u8>| #[trigger]
            answers(step, Ok(AnswerView::Read { bytes, eof: plan.eof })) && bytes.len() == plan.end
                - plan.offset && bytes[i] == pages[(plan.offset + i) / PAGE_SIZE as int
                - plan.offset as int / PAGE_SIZE as int]@[(plan.offset + i) % PAGE_SIZE as int],
{
    let bytes = read_bytes(plan.offset as int, plan.end as int, pages);
    assert(answers(step, Ok(AnswerView::Read { bytes, eof: plan.eof })));
}

/// An answer is what it says: a success with that content, or that error.
pub proof fn an_answer_is_what_it_says(
    success: DatabaseSuccess,
    error: DatabaseError,
    view: AnswerView,
)
    ensures
        answers(DatabaseStep::Reply(Ok(success)), Ok(view)) <==> success.answer() == view,
        !answers(DatabaseStep::Reply(Ok(success)), Err(error)),
        !answers(DatabaseStep::Reply(Err(error)), Ok(view)),
        answers(DatabaseStep::Reply(Err(error)), Err(error)),
        forall|other: DatabaseError|
            other != error ==> !#[trigger] answers(DatabaseStep::Reply(Err(error)), Err(other)),
{
}

} // verus!
