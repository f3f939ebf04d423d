//! What a database's files are for: a read returns what was written last to each
//! byte, and nobody but the current user gets in.

use super::super::database::{
    attachable, data_file, detached, detaching, op_in_bounds, open_plan, overlaid, page_count,
    pages_to_hold, read_bytes, read_plan, refusal, tail_cleared, truncate_plan, with_file,
    write_plan, OpenPlan, WritePlan,
};
use super::super::state::{AttachmentPhase, VsetState};
use crate::database::{AttachmentId, DatabaseError, DatabaseFile, OpView, MAX_DATABASE_IO};
use crate::journal::{DatabaseFileMeta, DatabaseMeta, VsetKind, PAGE_SIZE};
use crate::protocol::DetachMode;
use vstd::prelude::*;

verus! {

// ---------------------------------------------------------------------------
// Bytes
// ---------------------------------------------------------------------------

/// A write changes the bytes it is for and leaves every other byte of the pages
/// it touches as it was.
pub proof fn a_write_changes_its_bytes_only(
    offset: u64,
    bytes: Seq<u8>,
    pages: Seq<Vec<u8>>,
    written: Seq<Vec<u8>>,
    k: int,
    j: int,
)
    requires
        overlaid(offset, bytes, pages, written),
        0 <= k < pages.len(),
        0 <= j < PAGE_SIZE,
    ensures
        written.len() == pages.len(),
        written[k]@.len() == PAGE_SIZE,
        ({
            let at = (offset as int / PAGE_SIZE as int + k) * PAGE_SIZE as int + j;
            &&& offset <= at < offset + bytes.len() ==> written[k]@[j] == bytes[at - offset]
            &&& !(offset <= at < offset + bytes.len()) ==> written[k]@[j] == pages[k]@[j]
        }),
{
    let first = offset as int / PAGE_SIZE as int;
    let at = (first + k) * PAGE_SIZE as int + j;
    assert(at / PAGE_SIZE as int - first == k);
    assert(at % PAGE_SIZE as int == j);
    assert(super::super::database::byte_at(written, first, at) == written[k]@[j]);
    assert(super::super::database::byte_at(pages, first, at) == pages[k]@[j]);
}

/// The bytes of a read are those of the file, in order.
pub proof fn a_read_returns_the_bytes_of_its_range(
    offset: u64,
    end: u64,
    pages: Seq<Vec<u8>>,
    i: int,
)
    requires
        offset <= end,
        0 <= i < end - offset,
    ensures
        read_bytes(offset as int, end as int, pages).len() == end - offset,
        read_bytes(offset as int, end as int, pages)[i] == pages[(offset + i) / PAGE_SIZE as int
            - offset as int / PAGE_SIZE as int]@[(offset + i) % PAGE_SIZE as int],
        page_count(offset as int, end as int) > (offset + i) / PAGE_SIZE as int - offset as int
            / PAGE_SIZE as int,
{
}

/// A read of any range after a write returns the written bytes where it meets the
/// write, and elsewhere what the same read returned before. `file` and `after` are
/// the pages of a whole file.
pub proof fn a_read_after_a_write(
    file: Seq<Vec<u8>>,
    after: Seq<Vec<u8>>,
    offset: u64,
    bytes: Seq<u8>,
    start: u64,
    end: u64,
    i: int,
)
    requires
        ({
            let first = offset as int / PAGE_SIZE as int;
            let count = page_count(offset as int, offset + bytes.len());
            &&& 0 < bytes.len()
            &&& offset + bytes.len() <= file.len() * PAGE_SIZE
            &&& after.len() == file.len()
            &&& overlaid(
                offset,
                bytes,
                file.subrange(first, first + count),
                after.subrange(first, first + count),
            )
            &&& forall|p: int|
                0 <= p < file.len() && !(first <= p < first + count) ==> #[trigger] after[p]
                    == file[p]
        }),
        start <= end <= file.len() * PAGE_SIZE,
        0 <= i < end - start,
    ensures
        ({
            let page = start as int / PAGE_SIZE as int;
            let count = page_count(start as int, end as int);
            let before = read_bytes(start as int, end as int, file.subrange(page, page + count));
            let now = read_bytes(start as int, end as int, after.subrange(page, page + count));
            let at = start + i;
            &&& now.len() == end - start
            &&& before.len() == end - start
            &&& offset <= at < offset + bytes.len() ==> now[i] == bytes[at - offset]
            &&& !(offset <= at < offset + bytes.len()) ==> now[i] == before[i]
        }),
{
    let first = offset as int / PAGE_SIZE as int;
    let count = page_count(offset as int, offset + bytes.len());
    let at = start + i;
    let p = at / PAGE_SIZE as int;
    let j = at % PAGE_SIZE as int;
    let page = start as int / PAGE_SIZE as int;
    let reads = page_count(start as int, end as int);
    assert(page + reads <= file.len());
    assert(first + count <= file.len());
    let now = read_bytes(start as int, end as int, after.subrange(page, page + reads));
    let before = read_bytes(start as int, end as int, file.subrange(page, page + reads));
    assert(now[i] == after[p]@[j]);
    assert(before[i] == file[p]@[j]);
    if first <= p < first + count {
        a_write_changes_its_bytes_only(
            offset,
            bytes,
            file.subrange(first, first + count),
            after.subrange(first, first + count),
            p - first,
            j,
        );
        assert(at == (first + (p - first)) * PAGE_SIZE as int + j);
    } else {
        assert(after[p] == file[p]);
    }
}

/// A read ends where it should or at the end of the file, and says which.
pub proof fn a_read_ends_with_the_file(file: DatabaseFile, size: u64, offset: u64, len: u32)
    requires
        offset + len <= u64::MAX,
    ensures
        ({
            let plan = read_plan(file, size, offset, len);
            &&& plan.file == file
            &&& plan.offset == offset
            &&& offset <= plan.end <= offset + len
            &&& plan.eof <==> plan.end < offset + len
            &&& plan.eof && offset <= size ==> plan.end == size
            &&& plan.eof && offset > size ==> plan.end == offset
            &&& !plan.eof && len > 0 ==> plan.end <= size
        }),
{
}

/// A write makes a file as long as it reaches, and never shorter; the other files
/// stay as they are. A write of nothing changes nothing.
pub proof fn a_write_grows_its_file(
    state: VsetState,
    handle: u64,
    offset: u64,
    len: int,
    other: DatabaseFile,
)
    requires
        0 <= len,
        offset + len <= u64::MAX,
    ensures
        !state.database_runtime.handles@.contains_key(handle) ==> write_plan(
            state,
            handle,
            offset,
            len,
        ) == Err::<WritePlan, DatabaseError>(DatabaseError::InvalidHandle),
        state.database_runtime.handles@.contains_key(handle) ==> {
            let file = state.database_runtime.handles@[handle];
            let was = meta_of(state.database, file);
            let plan = write_plan(state, handle, offset, len);
            &&& !was.exists ==> plan == Err::<WritePlan, DatabaseError>(DatabaseError::NotFound)
            &&& was.exists && len == 0 ==> plan == Ok::<WritePlan, DatabaseError>(
                WritePlan::Nothing { sequence: state.mutation_seq },
            )
            &&& was.exists && len > 0 ==> match plan {
                Ok(WritePlan::Pages { file: target, database }) => {
                    &&& target == file
                    &&& meta_of(database, file).exists
                    &&& meta_of(database, file).size >= was.size
                    &&& meta_of(database, file).size >= offset + len
                    &&& meta_of(database, file).size == was.size || meta_of(database, file).size
                        == offset + len
                    &&& other != file ==> meta_of(database, other) == meta_of(
                        state.database,
                        other,
                    )
                },
                _ => false,
            }
        },
{
}

/// The size and presence of one of a database's files.
pub open spec fn meta_of(database: DatabaseMeta, file: DatabaseFile) -> DatabaseFileMeta {
    if file == DatabaseFile::Main {
        database.main
    } else if file == DatabaseFile::Wal {
        database.wal
    } else {
        database.journal
    }
}

/// Cutting a file keeps every byte below the new size and none above: the pages
/// that go are those that start at or above it, and what is above it in the page
/// it falls into becomes zero. Growing a file touches no page.
pub proof fn a_cut_keeps_the_bytes_below(
    state: VsetState,
    handle: u64,
    size: u64,
    page: u64,
    other: DatabaseFile,
)
    requires
        state.database_runtime.handles@.contains_key(handle),
        meta_of(state.database, state.database_runtime.handles@[handle]).exists,
        size <= u32::MAX * PAGE_SIZE,
    ensures
        match truncate_plan(state, handle, size) {
            Ok(plan) => {
                let file = state.database_runtime.handles@[handle];
                let was = meta_of(state.database, file).size;
                &&& plan.file == file
                &&& meta_of(plan.database, file) == (DatabaseFileMeta { exists: true, size })
                &&& other != file ==> meta_of(plan.database, other) == meta_of(
                    state.database,
                    other,
                )
                &&& size >= was ==> plan.prune is None && plan.partial is None
                &&& size < was ==> {
                    &&& plan.prune is Some
                    &&& page >= plan.prune->0 <==> page * PAGE_SIZE >= size
                    &&& plan.partial is Some <==> size % PAGE_SIZE as u64 != 0
                    &&& plan.partial matches Some((last, stays)) ==> last * PAGE_SIZE + stays
                        == size && 0 < stays < PAGE_SIZE
                }
            },
            Err(_) => false,
        },
{
}

/// What is cut off a page becomes zero, and the rest stays.
pub proof fn a_cut_page_ends_in_zeros(page: Seq<u8>, keep: int, i: int)
    requires
        0 <= keep <= page.len(),
        0 <= i < page.len(),
    ensures
        tail_cleared(page, keep).len() == page.len(),
        i < keep ==> tail_cleared(page, keep)[i] == page[i],
        keep <= i ==> tail_cleared(page, keep)[i] == 0,
{
}

/// The fewest pages that hold `size` bytes.
pub proof fn pages_hold_a_size(size: u64)
    ensures
        pages_to_hold(size) * PAGE_SIZE >= size,
        size > 0 ==> (pages_to_hold(size) - 1) * PAGE_SIZE < size,
        size == 0 ==> pages_to_hold(size) == 0,
{
}

/// The pages a range touches: from the one its first byte is in to the one its
/// last byte is in.
pub proof fn a_range_touches_its_pages(offset: u64, end: u64, at: int)
    requires
        offset < end,
        offset <= at < end,
    ensures
        0 <= at / PAGE_SIZE as int - offset as int / PAGE_SIZE as int,
        page_count(offset as int, end as int) > at / PAGE_SIZE as int - offset as int
            / PAGE_SIZE as int,
        page_count(offset as int, end as int) == (end - 1) / PAGE_SIZE as int - offset as int
            / PAGE_SIZE as int + 1,
        page_count(offset as int, offset as int) == 0,
{
}

// ---------------------------------------------------------------------------
// Files
// ---------------------------------------------------------------------------

/// Setting one file's size and presence changes that file's, and no other's.
pub proof fn files_are_set_one_by_one(
    database: DatabaseMeta,
    file: DatabaseFile,
    meta: DatabaseFileMeta,
    other: DatabaseFile,
)
    ensures
        meta_of(with_file(database, file, meta), file) == meta,
        other != file ==> meta_of(with_file(database, file, meta), other) == meta_of(
            database,
            other,
        ),
        super::super::database::file_meta_spec(database, file) == meta_of(database, file),
{
}

/// Opening: a handle is opened once; a file that is missing is created if that was
/// asked for, empty, and is an error otherwise.
pub proof fn opening_creates_what_is_missing(
    state: VsetState,
    handle: u64,
    file: DatabaseFile,
    create: bool,
    other: DatabaseFile,
)
    ensures
        ({
            let plan = open_plan(state, handle, file, create);
            let taken = state.database_runtime.handles@.contains_key(handle);
            let exists = meta_of(state.database, file).exists;
            &&& taken <==> plan == Err::<OpenPlan, DatabaseError>(DatabaseError::AlreadyOpen)
            &&& !taken && exists <==> plan == Ok::<OpenPlan, DatabaseError>(OpenPlan::Exists)
            &&& !taken && !exists && !create <==> plan == Err::<OpenPlan, DatabaseError>(
                DatabaseError::NotFound,
            )
            &&& !taken && !exists && create ==> match plan {
                Ok(OpenPlan::Create(database)) => {
                    &&& meta_of(database, file) == (DatabaseFileMeta { exists: true, size: 0 })
                    &&& other != file ==> meta_of(database, other) == meta_of(state.database, other)
                },
                _ => false,
            }
        }),
{
}

/// Which file a handle is for.
pub proof fn a_handle_is_for_the_file_it_opened(state: VsetState, handle: u64)
    ensures
        ({
            let known = state.database_runtime.handles@.contains_key(handle);
            let file = state.database_runtime.handles@[handle];
            let found = data_file(state, handle);
            &&& !known <==> found == Err::<DatabaseFile, DatabaseError>(
                DatabaseError::InvalidHandle,
            )
            &&& known && !meta_of(state.database, file).exists <==> found == Err::<
                DatabaseFile,
                DatabaseError,
            >(DatabaseError::NotFound)
            &&& known && meta_of(state.database, file).exists ==> found == Ok::<
                DatabaseFile,
                DatabaseError,
            >(file)
        }),
{
}

// ---------------------------------------------------------------------------
// Who gets in
// ---------------------------------------------------------------------------

/// Requests are served for the attachment that has the database, and for no other;
/// once it is leaving, only what it needs to leave; and only within the file's
/// bounds.
pub proof fn only_the_current_user_is_served(
    state: VsetState,
    attachment: AttachmentId,
    op: OpView,
)
    ensures
        refusal(None, attachment, op) == Some(DatabaseError::NotAttached),
        ({
            let usable = state.ready && state.config.kind == VsetKind::Database;
            let phase = state.database_runtime.phase;
            let attached = phase == AttachmentPhase::Attached(attachment);
            let leaving = phase == AttachmentPhase::Draining(attachment);
            let last = op is Close || op is Sync;
            let said = refusal(Some(state), attachment, op);
            &&& !usable <==> said == Some(DatabaseError::NotAttached)
            &&& usable && !attached && !leaving <==> said == Some(DatabaseError::StaleAttachment)
            &&& usable && leaving && !last <==> said == Some(DatabaseError::Draining)
            &&& usable && (attached || (leaving && last)) && !op_in_bounds(state, op) <==> said
                == Some(DatabaseError::TooLarge)
            &&& usable && (attached || (leaving && last)) && op_in_bounds(state, op) <==> said
                is None
        }),
{
}

/// What is within bounds: nothing that reaches beyond the file's room, and no more
/// bytes at a time than a frame takes.
pub proof fn operations_stay_within_the_file(
    state: VsetState,
    handle: u64,
    offset: u64,
    len: u32,
    bytes: Seq<u8>,
    size: u64,
)
    ensures
        ({
            let room = state.config.pages_per_volume * PAGE_SIZE;
            &&& op_in_bounds(state, OpView::Read { handle, offset, len }) <==> len
                <= MAX_DATABASE_IO && offset + len <= room
            &&& op_in_bounds(state, OpView::Write { handle, offset, bytes }) <==> bytes.len()
                <= MAX_DATABASE_IO && offset + bytes.len() <= room
            &&& op_in_bounds(state, OpView::Truncate { handle, size }) <==> size <= room
            &&& op_in_bounds(state, OpView::Close { handle })
            &&& op_in_bounds(state, OpView::Sync { handle })
            &&& op_in_bounds(state, OpView::FileSize { handle })
        }),
{
}

/// A database is free for a user exactly if it is open, stays here and has none.
pub proof fn a_free_database_takes_a_user(state: VsetState)
    ensures
        attachable(state) <==> state.ready && state.config.kind == VsetKind::Database
            && !state.outbound && state.database_runtime.phase == AttachmentPhase::Detached,
{
}

/// Leaving waits for every write that was accepted; a forced leave does not, and
/// closes the files at once. The data stays as it is either way.
pub proof fn leaving_waits_for_accepted_writes(
    before: VsetState,
    after: VsetState,
    attachment: AttachmentId,
    mode: DetachMode,
    later: VsetState,
)
    requires
        detaching(before, after, attachment, mode),
    ensures
        mode == DetachMode::Forced ==> after.database_runtime.phase == AttachmentPhase::Forced(
            attachment,
        ) && (forall|h: u64| !#[trigger] after.database_runtime.handles@.contains_key(h)),
        mode != DetachMode::Forced ==> after.database_runtime.phase == AttachmentPhase::Draining(
            attachment,
        ) && after.database_runtime.handles@ == before.database_runtime.handles@,
        after.database_runtime.drain_barrier == before.mutation_seq,
        after.database == before.database,
        after.page_locs == before.page_locs,
        after.mutation_seq == before.mutation_seq,
        after.best_record == before.best_record,
        detached(later, attachment) ==> {
            &&& later.database_runtime.active is None
            &&& forall|h: u64| !#[trigger] later.database_runtime.handles@.contains_key(h)
            &&& later.database_runtime.phase == AttachmentPhase::Forced(attachment)
                || later.database_runtime.phase == AttachmentPhase::Draining(attachment)
            &&& later.database_runtime.phase == AttachmentPhase::Draining(attachment)
                && later.database_runtime.drain_barrier == before.mutation_seq
                ==> later.sync_ack_through >= before.mutation_seq
        },
        later.database_runtime.active is None && later.database_runtime.handles@
            == Map::<u64, DatabaseFile>::empty() && (later.database_runtime.phase
            == AttachmentPhase::Forced(attachment) || (later.database_runtime.phase
            == AttachmentPhase::Draining(attachment) && later.sync_ack_through
            >= later.database_runtime.drain_barrier)) ==> detached(later, attachment),
{
}

} // verus!
