//! Database requests as tasks: what a request needs next, until it is answered.
//!
//! A request is started, and then told about each thing it asked for: pages
//! that were loaded, leaves that were loaded, a commit that was made, a commit
//! that the second keeper may have confirmed.

use super::database::{
    a_read_returns_what_was_written, access, admit_request, assemble_read, begin_request,
    clear_tail, close, data_file, end_request, file_meta, file_size, finish_open, finish_sync,
    op_in_bounds, open_plan, overlaid, overlay_write, page_count, page_range, plan_delete,
    plan_open, plan_read, plan_sync, plan_truncate, plan_write, read_bytes, read_plan, refusal,
    settle_request, stat, sync_step, tail_cleared, truncate_plan, whole_pages, with_file,
    write_plan, OpenPlan, ReadPlan, SyncStep, TruncatePlan, WritePlan,
};
use super::persist::{cut_spans, prune_spans, DatabasePersistError};
use super::state::{follows, DatabaseRuntime, HostState, VsetState};
use crate::database::{
    AnswerView, AttachmentId, DatabaseError, DatabaseFile, DatabaseOp, DatabaseResult,
    DatabaseSuccess, OpView,
};
use crate::journal::{DatabaseFileMeta, DatabaseMeta, PAGE_SIZE};
use crate::types::VsetId;
use vstd::prelude::*;

verus! {

broadcast use vstd::std_specs::btree::group_btree_axioms;

/// A run of pages of one file.
#[derive(Clone, Copy, PartialEq, Eq, Debug, Structural)]
pub struct PageLoad {
    pub file: DatabaseFile,
    pub first: u64,
    pub count: u64,
}

/// A page that stays in part, with its new content.
pub struct Tail {
    pub page: u32,
    pub bytes: Vec<u8>,
}

/// What a request does once it has what it asked for.
pub enum DatabaseTask {
    Open { handle: u64, file: DatabaseFile },
    Read { plan: ReadPlan },
    Write { file: DatabaseFile, offset: u64, bytes: Vec<u8>, database: DatabaseMeta },
    /// Keeps the beginning of a page.
    CutPage { cut: TruncatePlan, page: u32, keep: u32 },
    Cut { cut: TruncatePlan, tail: Option<Tail> },
    Delete { file: DatabaseFile, database: DatabaseMeta },
    Written,
    Truncated,
    Deleted,
    Sync { barrier: u64 },
}

/// A commit to be made.
pub struct DatabaseCommit {
    pub file: DatabaseFile,
    /// Number of the first changed page; the others follow it.
    pub first: u64,
    pub pages: Vec<Vec<u8>>,
    /// The first page of the file that goes.
    pub prune: Option<u64>,
    pub database: DatabaseMeta,
    /// Whether this is a mutation, or only raises what is covered.
    pub mutation: bool,
    pub barrier: Option<u64>,
}

pub enum DatabaseStep {
    Reply(DatabaseResult),
    /// Load pages.
    Load { pages: PageLoad, task: DatabaseTask },
    /// Load leaves of the page map.
    Hydrate { spans: Vec<u64>, task: DatabaseTask },
    Commit { commit: DatabaseCommit, task: DatabaseTask },
    /// Have the second keeper confirm what was committed.
    Replicate { barrier: u64 },
}

/// The step is this answer.
pub open spec fn answers(step: DatabaseStep, answer: Result<AnswerView, DatabaseError>) -> bool {
    match step {
        DatabaseStep::Reply(result) => match (result, answer) {
            (Ok(success), Ok(view)) => success.answer() == view,
            (Err(error), Err(expected)) => error == expected,
            _ => false,
        },
        _ => false,
    }
}

/// The step is a commit of no pages.
pub open spec fn commits_meta(
    step: DatabaseStep,
    file: DatabaseFile,
    prune: Option<u64>,
    database: DatabaseMeta,
    mutation: bool,
    barrier: Option<u64>,
    task: DatabaseTask,
) -> bool {
    match step {
        DatabaseStep::Commit { commit, task: next } => {
            &&& commit.file == file
            &&& commit.pages@ == Seq::<Vec<u8>>::empty()
            &&& commit.prune == prune
            &&& commit.database == database
            &&& commit.mutation == mutation
            &&& commit.barrier == barrier
            &&& next == task
        },
        _ => false,
    }
}

/// Leaves that have to be loaded before the file can be cut, in order.
pub open spec fn needs_spans(
    state: VsetState,
    file: DatabaseFile,
    first_removed: u64,
    spans: Seq<u64>,
) -> bool {
    &&& forall|i: int, j: int| 0 <= i < j < spans.len() ==> spans[i] < spans[j]
    &&& forall|span: u64| #[trigger]
        spans.contains(span) <==> {
            &&& state.leaf_table@.contains_key(span)
            &&& cut_spans(state.config, file, first_removed).0 <= span
            &&& span <= cut_spans(state.config, file, first_removed).1
        }
}

/// Leaves of the page map are being loaded. Until they are, no file is cut.
pub open spec fn leaves_loading(state: VsetState) -> bool {
    !state.leaf_waiters@.is_empty()
}

/// `after` is `before` with one more open handle.
pub open spec fn handle_opened(
    before: VsetState,
    after: VsetState,
    handle: u64,
    file: DatabaseFile,
) -> bool {
    &&& after == (VsetState {
        database_runtime: DatabaseRuntime {
            handles: after.database_runtime.handles,
            ..before.database_runtime
        },
        ..before
    })
    &&& after.database_runtime.handles@ == before.database_runtime.handles@.insert(handle, file)
}

pub open spec fn handle_closed(before: VsetState, after: VsetState, handle: u64) -> bool {
    &&& after == (VsetState {
        database_runtime: DatabaseRuntime {
            handles: after.database_runtime.handles,
            ..before.database_runtime
        },
        ..before
    })
    &&& after.database_runtime.handles@ == before.database_runtime.handles@.remove(handle)
}

/// The answer to a synchronisation once it is acknowledged, or what it still
/// needs.
pub open spec fn sync_goes_on(
    state: Option<VsetState>,
    attachment: AttachmentId,
    barrier: u64,
    step: DatabaseStep,
) -> bool {
    match state {
        None => answers(step, Err(DatabaseError::Io)),
        Some(v) => if v.sync_ack_through < barrier {
            step == (DatabaseStep::Replicate { barrier })
        } else if !v.database_runtime.phase.serves(attachment) {
            answers(step, Err(DatabaseError::StaleAttachment))
        } else {
            answers(step, Ok(AnswerView::Synced { sequence: barrier }))
        },
    }
}

/// How a request that may be worked on begins.
pub open spec fn begun(
    before: VsetState,
    after: VsetState,
    attachment: AttachmentId,
    op: OpView,
    step: DatabaseStep,
) -> bool {
    match op {
        OpView::Open { handle, file, create } => match open_plan(before, handle, file, create) {
            Err(error) => answers(step, Err(error)) && after == before,
            Ok(OpenPlan::Exists) => answers(step, Ok(AnswerView::Opened)) && handle_opened(
                before,
                after,
                handle,
                file,
            ),
            Ok(OpenPlan::Create(database)) => after == before && commits_meta(
                step,
                file,
                None,
                database,
                true,
                None,
                DatabaseTask::Open { handle, file },
            ),
        },
        OpView::Close { handle } => if before.database_runtime.handles@.contains_key(handle) {
            answers(step, Ok(AnswerView::Closed)) && handle_closed(before, after, handle)
        } else {
            answers(step, Err(DatabaseError::InvalidHandle)) && after == before
        },
        OpView::Read { handle, offset, len } => after == before && match data_file(before, handle) {
            Err(error) => answers(step, Err(error)),
            Ok(file) => {
                let plan = read_plan(file, file_meta(before.database, file).size, offset, len);
                if plan.offset >= plan.end {
                    answers(step, Ok(AnswerView::Read { bytes: Seq::empty(), eof: plan.eof }))
                } else {
                    step == (DatabaseStep::Load {
                        pages: PageLoad {
                            file,
                            first: plan.offset / PAGE_SIZE as u64,
                            count: page_count(plan.offset as int, plan.end as int) as u64,
                        },
                        task: DatabaseTask::Read { plan },
                    })
                }
            },
        },
        OpView::FileSize { handle } => after == before
            && if before.database_runtime.handles@.contains_key(handle) {
            answers(
                step,
                Ok(
                    AnswerView::FileSize {
                        size: file_meta(
                            before.database,
                            before.database_runtime.handles@[handle],
                        ).size,
                    },
                ),
            )
        } else {
            answers(step, Err(DatabaseError::InvalidHandle))
        },
        OpView::Access { file } => after == before && answers(
            step,
            Ok(AnswerView::Access { exists: file_meta(before.database, file).exists }),
        ),
        OpView::Stat { file } => after == before && answers(
            step,
            Ok(
                AnswerView::Stat {
                    exists: file_meta(before.database, file).exists,
                    size: file_meta(before.database, file).size,
                },
            ),
        ),
        OpView::Sync { handle } => after == before
            && if !before.database_runtime.handles@.contains_key(handle) {
            answers(step, Err(DatabaseError::InvalidHandle))
        } else {
            let barrier = before.mutation_seq;
            if before.sync_ack_through < barrier && before.local_covered_through < barrier {
                commits_meta(
                    step,
                    DatabaseFile::Main,
                    None,
                    before.database,
                    false,
                    Some(barrier),
                    DatabaseTask::Sync { barrier },
                )
            } else {
                sync_goes_on(Some(before), attachment, barrier, step)
            }
        },
        OpView::Write { handle, offset, bytes } => after == before && match write_plan(
            before,
            handle,
            offset,
            bytes.len() as int,
        ) {
            Err(error) => answers(step, Err(error)),
            Ok(WritePlan::Nothing { sequence }) => answers(
                step,
                Ok(AnswerView::Written { sequence }),
            ),
            Ok(WritePlan::Pages { file, database }) => match step {
                DatabaseStep::Load { pages, task: DatabaseTask::Write {
                    file: f,
                    offset: o,
                    bytes: b,
                    database: d,
                } } => {
                    &&& pages == (PageLoad {
                        file,
                        first: offset / PAGE_SIZE as u64,
                        count: page_count(offset as int, offset + bytes.len()) as u64,
                    })
                    &&& f == file
                    &&& o == offset
                    &&& b@ == bytes
                    &&& d == database
                },
                _ => false,
            },
        },
        OpView::Truncate { handle, size } => after == before && match truncate_plan(
            before,
            handle,
            size,
        ) {
            Err(error) => answers(step, Err(error)),
            Ok(plan) => if plan.prune is Some && leaves_loading(before) {
                answers(step, Err(DatabaseError::Busy))
            } else {
                match plan.partial {
                    Some((page, keep)) => step == (DatabaseStep::Load {
                        pages: PageLoad { file: plan.file, first: page as u64, count: 1 },
                        task: DatabaseTask::CutPage { cut: plan, page, keep },
                    }),
                    None => cut_goes_on(before, plan, None, step),
                }
            },
        },
        OpView::Delete { file } => after == before && match step {
            DatabaseStep::Hydrate { spans, task } => {
                &&& needs_spans(before, file, 0, spans@)
                &&& task == (DatabaseTask::Delete {
                    file,
                    database: with_file(
                        before.database,
                        file,
                        DatabaseFileMeta { exists: false, size: 0 },
                    ),
                })
            },
            _ => false,
        },
    }
}

/// How a cut goes on once the page that stays in part is known: the leaves of
/// what goes are loaded, or there is nothing to load.
pub open spec fn cut_goes_on(
    state: VsetState,
    plan: TruncatePlan,
    tail: Option<Tail>,
    step: DatabaseStep,
) -> bool {
    match plan.prune {
        Some(first_removed) => match step {
            DatabaseStep::Hydrate { spans, task } => needs_spans(
                state,
                plan.file,
                first_removed,
                spans@,
            ) && task == (DatabaseTask::Cut { cut: plan, tail }),
            _ => false,
        },
        None => cut_commits(plan, tail, step),
    }
}

/// The step commits the cut.
pub open spec fn cut_commits(plan: TruncatePlan, tail: Option<Tail>, step: DatabaseStep) -> bool {
    match step {
        DatabaseStep::Commit { commit, task } => {
            &&& commit.file == plan.file
            &&& commit.prune == plan.prune
            &&& commit.database == plan.database
            &&& commit.mutation
            &&& commit.barrier is None
            &&& task == DatabaseTask::Truncated
            &&& match tail {
                Some(t) => commit.first == t.page && commit.pages@ == seq![t.bytes],
                None => commit.pages@ == Seq::<Vec<u8>>::empty(),
            }
        },
        _ => false,
    }
}

fn commit_meta(
    file: DatabaseFile,
    prune: Option<u64>,
    database: DatabaseMeta,
    mutation: bool,
    barrier: Option<u64>,
    task: DatabaseTask,
) -> (step: DatabaseStep)
    ensures
        commits_meta(step, file, prune, database, mutation, barrier, task),
{
    DatabaseStep::Commit {
        commit: DatabaseCommit {
            file,
            first: 0,
            pages: Vec::new(),
            prune,
            database,
            mutation,
            barrier,
        },
        task,
    }
}

fn commit_cut(plan: TruncatePlan, tail: Option<Tail>) -> (step: DatabaseStep)
    ensures
        cut_commits(plan, tail, step),
{
    let mut pages: Vec<Vec<u8>> = Vec::new();
    let mut first: u64 = 0;
    if let Some(t) = tail {
        first = t.page as u64;
        pages.push(t.bytes);
    }
    DatabaseStep::Commit {
        commit: DatabaseCommit {
            file: plan.file,
            first,
            pages,
            prune: plan.prune,
            database: plan.database,
            mutation: true,
            barrier: None,
        },
        task: DatabaseTask::Truncated,
    }
}

fn go_on_cutting(state: &VsetState, plan: TruncatePlan, tail: Option<Tail>) -> (step: DatabaseStep)
    ensures
        cut_goes_on(*state, plan, tail, step),
{
    match plan.prune {
        Some(first_removed) => {
            let spans: Vec<u64> = prune_spans(state, plan.file, first_removed);
            DatabaseStep::Hydrate { spans, task: DatabaseTask::Cut { cut: plan, tail } }
        },
        None => commit_cut(plan, tail),
    }
}

fn go_on_syncing(state: Option<&VsetState>, attachment: AttachmentId, barrier: u64) -> (step:
    DatabaseStep)
    ensures
        sync_goes_on(
            match state {
                Some(v) => Some(*v),
                None => None,
            },
            attachment,
            barrier,
            step,
        ),
{
    match state {
        None => DatabaseStep::Reply(Err(DatabaseError::Io)),
        Some(v) => if v.sync_ack_through < barrier {
            DatabaseStep::Replicate { barrier }
        } else {
            DatabaseStep::Reply(finish_sync(Some(v), attachment, barrier))
        },
    }
}

fn begin_read(state: &VsetState, handle: u64, offset: u64, len: u32) -> (step: DatabaseStep)
    requires
        op_in_bounds(*state, OpView::Read { handle, offset, len }),
    ensures
        forall|attachment: AttachmentId| #[trigger]
            begun(*state, *state, attachment, OpView::Read { handle, offset, len }, step),
{
    match plan_read(state, handle, offset, len) {
        Err(error) => DatabaseStep::Reply(Err(error)),
        Ok(plan) => {
            if plan.offset >= plan.end {
                let bytes: Vec<u8> = Vec::new();
                return DatabaseStep::Reply(Ok(DatabaseSuccess::Read { bytes, eof: plan.eof }));
            }
            let (first, count) = page_range(plan.offset, plan.end);
            DatabaseStep::Load {
                pages: PageLoad { file: plan.file, first, count },
                task: DatabaseTask::Read { plan },
            }
        },
    }
}

fn begin_write(state: &VsetState, handle: u64, offset: u64, bytes: Vec<u8>) -> (step: DatabaseStep)
    requires
        op_in_bounds(*state, OpView::Write { handle, offset, bytes: bytes@ }),
    ensures
        forall|attachment: AttachmentId| #[trigger]
            begun(
                *state,
                *state,
                attachment,
                OpView::Write { handle, offset, bytes: bytes@ },
                step,
            ),
{
    let len: usize = bytes.len();
    match plan_write(state, handle, offset, len) {
        Err(error) => DatabaseStep::Reply(Err(error)),
        Ok(WritePlan::Nothing { sequence }) => {
            DatabaseStep::Reply(Ok(DatabaseSuccess::Written { sequence }))
        },
        Ok(WritePlan::Pages { file, database }) => {
            let (first, count) = page_range(offset, offset + len as u64);
            DatabaseStep::Load {
                pages: PageLoad { file, first, count },
                task: DatabaseTask::Write { file, offset, bytes, database },
            }
        },
    }
}

fn begin_truncate(state: &VsetState, handle: u64, size: u64) -> (step: DatabaseStep)
    requires
        op_in_bounds(*state, OpView::Truncate { handle, size }),
    ensures
        forall|attachment: AttachmentId| #[trigger]
            begun(*state, *state, attachment, OpView::Truncate { handle, size }, step),
{
    match plan_truncate(state, handle, size) {
        Err(error) => DatabaseStep::Reply(Err(error)),
        Ok(plan) => {
            if plan.prune.is_some() && !state.leaf_waiters.is_empty() {
                return DatabaseStep::Reply(Err(DatabaseError::Busy));
            }
            match plan.partial {
                Some((page, keep)) => DatabaseStep::Load {
                    pages: PageLoad { file: plan.file, first: page as u64, count: 1 },
                    task: DatabaseTask::CutPage { cut: plan, page, keep },
                },
                None => go_on_cutting(state, plan, None),
            }
        },
    }
}

fn begin_sync(state: &VsetState, handle: u64, attachment: AttachmentId) -> (step: DatabaseStep)
    ensures
        begun(*state, *state, attachment, OpView::Sync { handle }, step),
{
    match plan_sync(state, handle) {
        Err(error) => DatabaseStep::Reply(Err(error)),
        Ok(barrier) => match sync_step(state, barrier) {
            SyncStep::Commit => commit_meta(
                DatabaseFile::Main,
                None,
                state.database,
                false,
                Some(barrier),
                DatabaseTask::Sync { barrier },
            ),
            _ => go_on_syncing(Some(state), attachment, barrier),
        },
    }
}

fn begin_open(
    state: &mut VsetState,
    attachment: AttachmentId,
    handle: u64,
    file: DatabaseFile,
    create: bool,
) -> (step: DatabaseStep)
    requires
        old(state).database_runtime.phase.serves(attachment),
    ensures
        begun(
            *old(state),
            *final(state),
            attachment,
            OpView::Open { handle, file, create },
            step,
        ),
{
    match plan_open(state, handle, file, create) {
        Err(error) => DatabaseStep::Reply(Err(error)),
        Ok(OpenPlan::Exists) => DatabaseStep::Reply(finish_open(state, handle, file, attachment)),
        Ok(OpenPlan::Create(database)) => commit_meta(
            file,
            None,
            database,
            true,
            None,
            DatabaseTask::Open { handle, file },
        ),
    }
}

fn begin(state: &mut VsetState, attachment: AttachmentId, op: DatabaseOp) -> (step: DatabaseStep)
    ensures
        match refusal(Some(*old(state)), attachment, op@) {
            Some(error) => answers(step, Err(error)) && *final(state) == *old(state),
            None => begun(*old(state), *final(state), attachment, op@, step),
        },
{
    if let Err(error) = admit_request(Some(&*state), attachment, &op) {
        return DatabaseStep::Reply(Err(error));
    }
    match op {
        DatabaseOp::Open { handle, file, create } => begin_open(
            state,
            attachment,
            handle,
            file,
            create,
        ),
        DatabaseOp::Close { handle } => DatabaseStep::Reply(close(state, handle)),
        DatabaseOp::Read { handle, offset, len } => begin_read(state, handle, offset, len),
        DatabaseOp::FileSize { handle } => DatabaseStep::Reply(file_size(state, handle)),
        DatabaseOp::Access { file } => DatabaseStep::Reply(access(state, file)),
        DatabaseOp::Stat { file } => DatabaseStep::Reply(stat(state, file)),
        DatabaseOp::Sync { handle } => begin_sync(state, handle, attachment),
        DatabaseOp::Write { handle, offset, bytes } => begin_write(state, handle, offset, bytes),
        DatabaseOp::Truncate { handle, size } => begin_truncate(state, handle, size),
        DatabaseOp::Delete { file } => {
            let spans: Vec<u64> = prune_spans(state, file, 0);
            let database = plan_delete(state, file);
            DatabaseStep::Hydrate { spans, task: DatabaseTask::Delete { file, database } }
        },
    }
}

/// Starts a request, or refuses it.
pub fn start_request(
    host: &mut HostState,
    vset: VsetId,
    attachment: AttachmentId,
    op: DatabaseOp,
) -> (step: DatabaseStep)
    ensures
        *final(host) == (HostState { vsets: final(host).vsets, ..*old(host) }),
        if !old(host).vsets@.contains_key(vset.0) {
            answers(step, Err(DatabaseError::NotAttached)) && final(host).vsets@ == old(
                host,
            ).vsets@
        } else {
            let before = old(host).vsets@[vset.0];
            let after = final(host).vsets@[vset.0];
            &&& final(host).vsets@ == old(host).vsets@.insert(vset.0, after)
            &&& match refusal(Some(before), attachment, op@) {
                Some(error) => answers(step, Err(error)) && after == before,
                None => begun(before, after, attachment, op@, step),
            }
        },
        follows(*old(host), *final(host)),
{
    let ghost was = host.vsets@;
    match host.vsets.remove(&vset.0) {
        Some(mut state) => {
            let step = begin(&mut state, attachment, op);
            host.vsets.insert(vset.0, state);
            proof {
                assert(was.remove(vset.0).insert(vset.0, state) =~= was.insert(vset.0, state));
            }
            step
        },
        None => {
            proof {
                assert(host.vsets@ =~= was);
            }
            DatabaseStep::Reply(Err(DatabaseError::NotAttached))
        },
    }
}

// ---------------------------------------------------------------------------
// Pages
// ---------------------------------------------------------------------------

/// The pages are those the task asked for.
pub open spec fn pages_fit(task: DatabaseTask, pages: Seq<Vec<u8>>) -> bool {
    &&& whole_pages(pages)
    &&& match task {
        DatabaseTask::Read { plan } => plan.offset <= plan.end && pages.len() == page_count(
            plan.offset as int,
            plan.end as int,
        ),
        DatabaseTask::Write { offset, bytes, .. } => offset + bytes@.len() <= u64::MAX
            && pages.len() == page_count(offset as int, offset + bytes@.len()),
        DatabaseTask::CutPage { keep, .. } => pages.len() == 1 && keep <= PAGE_SIZE,
        _ => false,
    }
}

/// How a task goes on with the pages it asked for.
pub open spec fn goes_on_with_pages(
    state: VsetState,
    task: DatabaseTask,
    pages: Seq<Vec<u8>>,
    step: DatabaseStep,
) -> bool {
    match task {
        DatabaseTask::Read { plan } => answers(
            step,
            Ok(
                AnswerView::Read {
                    bytes: read_bytes(plan.offset as int, plan.end as int, pages),
                    eof: plan.eof,
                },
            ),
        ),
        DatabaseTask::Write { file, offset, bytes, database } => match step {
            DatabaseStep::Commit { commit, task: next } => {
                &&& commit.file == file
                &&& commit.first == offset / PAGE_SIZE as u64
                &&& overlaid(offset, bytes@, pages, commit.pages@)
                &&& commit.prune is None
                &&& commit.database == database
                &&& commit.mutation
                &&& commit.barrier is None
                &&& next == DatabaseTask::Written
            },
            _ => false,
        },
        DatabaseTask::CutPage { cut: plan, page, keep } => exists|tail: Tail| #[trigger]
            cut_goes_on(state, plan, Some(tail), step) && tail.page == page && tail.bytes@
                == tail_cleared(pages[0]@, keep as int),
        _ => false,
    }
}

/// Tells a task about the pages it asked for. Pages that cannot be loaded fail
/// the request.
pub fn pages_loaded(state: &VsetState, task: DatabaseTask, pages: Option<Vec<Vec<u8>>>) -> (step:
    DatabaseStep)
    requires
        task is Read || task is Write || task is CutPage,
        pages is Some ==> pages_fit(task, pages->0@),
    ensures
        match pages {
            None => answers(step, Err(DatabaseError::Io)),
            Some(loaded) => goes_on_with_pages(*state, task, loaded@, step),
        },
{
    let pages: Vec<Vec<u8>> = match pages {
        Some(pages) => pages,
        None => {
            return DatabaseStep::Reply(Err(DatabaseError::Io));
        },
    };
    match task {
        DatabaseTask::Read { plan } => {
            let bytes: Vec<u8> = assemble_read(plan.offset, plan.end, &pages);
            DatabaseStep::Reply(Ok(DatabaseSuccess::Read { bytes, eof: plan.eof }))
        },
        DatabaseTask::Write { file, offset, bytes, database } => {
            let written: Vec<Vec<u8>> = overlay_write(offset, &bytes, &pages);
            DatabaseStep::Commit {
                commit: DatabaseCommit {
                    file,
                    first: offset / PAGE_SIZE as u64,
                    pages: written,
                    prune: None,
                    database,
                    mutation: true,
                    barrier: None,
                },
                task: DatabaseTask::Written,
            }
        },
        DatabaseTask::CutPage { cut: plan, page, keep } => {
            let bytes: Vec<u8> = clear_tail(&pages[0], keep as usize);
            let tail = Tail { page, bytes };
            let ghost kept = tail;
            let step = go_on_cutting(state, plan, Some(tail));
            proof {
                assert(cut_goes_on(*state, plan, Some(kept), step));
            }
            step
        },
        _ => DatabaseStep::Reply(Err(DatabaseError::Io)),
    }
}

// ---------------------------------------------------------------------------
// Leaves
// ---------------------------------------------------------------------------

/// Tells a task whether the leaves it asked for were loaded.
pub fn spans_loaded(task: DatabaseTask, loaded: bool) -> (step: DatabaseStep)
    requires
        task is Cut || task is Delete,
    ensures
        if !loaded {
            answers(step, Err(DatabaseError::Io))
        } else {
            match task {
                DatabaseTask::Cut { cut: plan, tail } => cut_commits(plan, tail, step),
                DatabaseTask::Delete { file, database } => commits_meta(
                    step,
                    file,
                    Some(0),
                    database,
                    true,
                    None,
                    DatabaseTask::Deleted,
                ),
                _ => false,
            }
        },
{
    if !loaded {
        return DatabaseStep::Reply(Err(DatabaseError::Io));
    }
    match task {
        DatabaseTask::Cut { cut: plan, tail } => commit_cut(plan, tail),
        DatabaseTask::Delete { file, database } => commit_meta(
            file,
            Some(0),
            database,
            true,
            None,
            DatabaseTask::Deleted,
        ),
        _ => DatabaseStep::Reply(Err(DatabaseError::Io)),
    }
}

// ---------------------------------------------------------------------------
// Commits
// ---------------------------------------------------------------------------

/// How a task goes on once its commit was made.
pub open spec fn goes_on_committed(
    before: Map<u64, VsetState>,
    after: Map<u64, VsetState>,
    vset: VsetId,
    attachment: AttachmentId,
    task: DatabaseTask,
    sequence: u64,
    step: DatabaseStep,
) -> bool {
    match task {
        DatabaseTask::Open { handle, file } => if before.contains_key(vset.0)
            && before[vset.0].database_runtime.phase.serves(attachment) {
            &&& answers(step, Ok(AnswerView::Opened))
            &&& after == before.insert(vset.0, after[vset.0])
            &&& handle_opened(before[vset.0], after[vset.0], handle, file)
        } else {
            answers(step, Err(DatabaseError::StaleAttachment)) && after == before
        },
        DatabaseTask::Written => answers(step, Ok(AnswerView::Written { sequence })) && after
            == before,
        DatabaseTask::Truncated => answers(step, Ok(AnswerView::Truncated { sequence })) && after
            == before,
        DatabaseTask::Deleted => answers(step, Ok(AnswerView::Deleted { sequence })) && after
            == before,
        DatabaseTask::Sync { barrier } => after == before && sync_goes_on(
            if before.contains_key(vset.0) {
                Some(before[vset.0])
            } else {
                None
            },
            attachment,
            barrier,
            step,
        ),
        _ => false,
    }
}

/// The task waits for a commit.
pub open spec fn awaits_commit(task: DatabaseTask) -> bool {
    task is Open || task is Written || task is Truncated || task is Deleted || task is Sync
}

/// What the caller of a task is told when its commit failed: that the device
/// failed, or, where a file is deleted while something else changes the vset,
/// that the vset is busy.
pub open spec fn commit_failure(
    task: DatabaseTask,
    error: DatabasePersistError,
) -> DatabaseError {
    if error is Busy && task is Deleted {
        DatabaseError::Busy
    } else {
        DatabaseError::Io
    }
}

/// Tells a task how its commit ended.
pub fn commit_ended(
    host: &mut HostState,
    vset: VsetId,
    attachment: AttachmentId,
    task: DatabaseTask,
    outcome: Result<u64, DatabasePersistError>,
) -> (step: DatabaseStep)
    requires
        awaits_commit(task),
    ensures
        *final(host) == (HostState { vsets: final(host).vsets, ..*old(host) }),
        match outcome {
            Err(error) => {
                &&& answers(step, Err(commit_failure(task, error)))
                &&& final(host).vsets@ == old(host).vsets@
            },
            Ok(sequence) => goes_on_committed(
                old(host).vsets@,
                final(host).vsets@,
                vset,
                attachment,
                task,
                sequence,
                step,
            ),
        },
        follows(*old(host), *final(host)),
{
    let sequence: u64 = match outcome {
        Ok(sequence) => sequence,
        Err(error) => {
            let told = match (error, &task) {
                (DatabasePersistError::Busy, DatabaseTask::Deleted) => DatabaseError::Busy,
                _ => DatabaseError::Io,
            };
            return DatabaseStep::Reply(Err(told));
        },
    };
    match task {
        DatabaseTask::Open { handle, file } => {
            let ghost was = host.vsets@;
            match host.vsets.remove(&vset.0) {
                Some(mut state) => {
                    let result = finish_open(&mut state, handle, file, attachment);
                    host.vsets.insert(vset.0, state);
                    proof {
                        assert(was.remove(vset.0).insert(vset.0, state) =~= was.insert(
                            vset.0,
                            state,
                        ));
                        if !was[vset.0].database_runtime.phase.serves(attachment) {
                            assert(host.vsets@ =~= was);
                        }
                    }
                    DatabaseStep::Reply(result)
                },
                None => {
                    proof {
                        assert(host.vsets@ =~= was);
                    }
                    DatabaseStep::Reply(Err(DatabaseError::StaleAttachment))
                },
            }
        },
        DatabaseTask::Written => DatabaseStep::Reply(Ok(DatabaseSuccess::Written { sequence })),
        DatabaseTask::Truncated => {
            DatabaseStep::Reply(Ok(DatabaseSuccess::Truncated { sequence }))
        },
        DatabaseTask::Deleted => DatabaseStep::Reply(Ok(DatabaseSuccess::Deleted { sequence })),
        DatabaseTask::Sync { barrier } => go_on_syncing(
            host.vsets.get(&vset.0),
            attachment,
            barrier,
        ),
        _ => DatabaseStep::Reply(Err(DatabaseError::Io)),
    }
}

/// Tells a synchronisation that the second keeper was asked. If it has not
/// confirmed, it is asked again after a while.
pub fn replication_ended(
    host: &HostState,
    vset: VsetId,
    attachment: AttachmentId,
    barrier: u64,
) -> (step: DatabaseStep)
    ensures
        sync_goes_on(
            if host.vsets@.contains_key(vset.0) {
                Some(host.vsets@[vset.0])
            } else {
                None
            },
            attachment,
            barrier,
            step,
        ),
{
    go_on_syncing(host.vsets.get(&vset.0), attachment, barrier)
}

// ---------------------------------------------------------------------------
// Around a request
// ---------------------------------------------------------------------------

/// Notes that a request is being worked on, if it may take effect at all.
pub fn note_request(host: &mut HostState, vset: VsetId, attachment: AttachmentId) -> (noted: bool)
    ensures
        noted == (old(host).vsets@.contains_key(vset.0)
            && old(host).vsets@[vset.0].database_runtime.phase.serves(attachment)),
        !noted ==> *final(host) == *old(host),
        noted ==> {
            let was = old(host).vsets@[vset.0];
            &&& *final(host) == (HostState { vsets: final(host).vsets, ..*old(host) })
            &&& final(host).vsets@ == old(host).vsets@.insert(
                vset.0,
                VsetState {
                    database_runtime: DatabaseRuntime {
                        active: Some(attachment),
                        ..was.database_runtime
                    },
                    ..was
                },
            )
        },
        follows(*old(host), *final(host)),
{
    let serves: bool = match host.vsets.get(&vset.0) {
        Some(state) => state.database_runtime.phase.serves(attachment),
        None => false,
    };
    if !serves {
        return false;
    }
    let ghost was = host.vsets@;
    if let Some(mut state) = host.vsets.remove(&vset.0) {
        begin_request(&mut state, attachment);
        host.vsets.insert(vset.0, state);
    }
    true
}

/// Notes that a request is done, and what its caller is told: a caller whose
/// attachment was cut off meanwhile is told so, whatever came out.
pub fn answer_request(
    host: &mut HostState,
    vset: VsetId,
    attachment: AttachmentId,
    noted: bool,
    result: DatabaseResult,
) -> (told: DatabaseResult)
    ensures
        told == (if noted && !(old(host).vsets@.contains_key(vset.0)
            && old(host).vsets@[vset.0].database_runtime.phase.serves(attachment)) {
            Err(DatabaseError::StaleAttachment)
        } else {
            result
        }),
        if noted && old(host).vsets@.contains_key(vset.0) {
            let was = old(host).vsets@[vset.0];
            &&& *final(host) == (HostState { vsets: final(host).vsets, ..*old(host) })
            &&& final(host).vsets@ == old(host).vsets@.insert(
                vset.0,
                if was.database_runtime.active == Some(attachment) {
                    VsetState {
                        database_runtime: DatabaseRuntime {
                            active: None,
                            ..was.database_runtime
                        },
                        ..was
                    }
                } else {
                    was
                },
            )
        } else {
            *final(host) == *old(host)
        },
        follows(*old(host), *final(host)),
{
    if !noted {
        return settle_request(false, false, result);
    }
    if !host.vsets.contains_key(&vset.0) {
        return settle_request(true, true, result);
    }
    let mut retired: bool = true;
    let ghost was = host.vsets@;
    if let Some(mut state) = host.vsets.remove(&vset.0) {
        retired = end_request(&mut state, attachment);
        host.vsets.insert(vset.0, state);
    }
    settle_request(true, retired, result)
}

/// What a read answers is what the last write of that range committed.
pub proof fn a_read_answers_what_a_write_committed(
    state: VsetState,
    file: DatabaseFile,
    offset: u64,
    bytes: Vec<u8>,
    database: DatabaseMeta,
    before: Seq<Vec<u8>>,
    written: DatabaseStep,
    plan: ReadPlan,
    read: DatabaseStep,
)
    requires
        pages_fit(DatabaseTask::Write { file, offset, bytes, database }, before),
        goes_on_with_pages(
            state,
            DatabaseTask::Write { file, offset, bytes, database },
            before,
            written,
        ),
        plan.offset == offset,
        plan.end == offset + bytes@.len(),
        goes_on_with_pages(
            state,
            DatabaseTask::Read { plan },
            written->commit.pages@,
            read,
        ),
    ensures
        answers(read, Ok(AnswerView::Read { bytes: bytes@, eof: plan.eof })),
{
    let after = written->commit.pages@;
    a_read_returns_what_was_written(
        offset,
        bytes@,
        before,
        after,
        read_bytes(offset as int, offset + bytes@.len(), after),
    );
}

/// A synchronisation succeeds only once every mutation before it is
/// acknowledged.
pub proof fn a_synchronisation_waits_for_its_mutations(
    state: VsetState,
    attachment: AttachmentId,
    barrier: u64,
    step: DatabaseStep,
    sequence: u64,
)
    requires
        sync_goes_on(Some(state), attachment, barrier, step),
        answers(step, Ok(AnswerView::Synced { sequence })),
    ensures
        sequence == barrier,
        state.sync_ack_through >= barrier,
{
}

} // verus!
