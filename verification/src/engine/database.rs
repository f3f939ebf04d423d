//! Database vsets: who may use them, what a request may touch, and how a
//! change of a file becomes a committed record.

use super::state::{follows, AttachmentPhase, DatabaseRuntime, HostState, VsetState};
use crate::database::{
    AttachmentId, DatabaseError, DatabaseFile, DatabaseOp, DatabaseResult, DatabaseSuccess, OpView,
    MAX_DATABASE_IO,
};
use crate::journal::{DatabaseFileMeta, DatabaseMeta, VsetKind, PAGE_SIZE};
use crate::protocol::{AdminError, AdminResult, AdminSuccess, DetachMode};
use crate::types::{VmId, VsetId};
use std::collections::BTreeMap;
use vstd::prelude::*;

verus! {

broadcast use vstd::std_specs::btree::group_btree_axioms;

// ---------------------------------------------------------------------------
// Attaching and detaching
// ---------------------------------------------------------------------------

/// A database that is ready, stays on this host and has no user.
pub open spec fn attachable(state: VsetState) -> bool {
    &&& state.ready
    &&& state.config.kind == VsetKind::Database
    &&& !state.outbound
    &&& state.database_runtime.phase == AttachmentPhase::Detached
}

/// `state` with another attachment phase.
pub open spec fn with_phase(state: VsetState, phase: AttachmentPhase) -> VsetState {
    VsetState { database_runtime: DatabaseRuntime { phase, ..state.database_runtime }, ..state }
}

/// Gives `vm` the use of `vset` under a new attachment.
pub fn attach_database(host: &mut HostState, vset: VsetId, vm: VmId) -> (result: AdminResult)
    requires
        old(host).next_attachment < u64::MAX,
    ensures
        ({
            let attachment = AttachmentId { vm, generation: old(host).next_attachment };
            if old(host).vsets@.contains_key(vset.0) && attachable(old(host).vsets@[vset.0]) {
                &&& result == Ok::<AdminSuccess, AdminError>(
                    AdminSuccess::DatabaseAttached { vset, attachment },
                )
                &&& *final(host) == (HostState {
                    vsets: final(host).vsets,
                    next_attachment: (old(host).next_attachment + 1) as u64,
                    ..*old(host)
                })
                &&& final(host).vsets@ == old(host).vsets@.insert(
                    vset.0,
                    with_phase(
                        old(host).vsets@[vset.0],
                        AttachmentPhase::Attached(attachment),
                    ),
                )
            } else {
                result == Err::<AdminSuccess, AdminError>(AdminError::Rejected) && *final(host)
                    == *old(host)
            }
        }),
        follows(*old(host), *final(host)),
{
    let valid: bool = match host.vsets.get(&vset.0) {
        Some(state) => {
            let kind = match state.config.kind {
                VsetKind::Database => true,
                _ => false,
            };
            let detached = match state.database_runtime.phase {
                AttachmentPhase::Detached => true,
                _ => false,
            };
            state.ready && kind && !state.outbound && detached
        },
        None => false,
    };
    if !valid {
        return Err(AdminError::Rejected);
    }
    let attachment = host.allocate_attachment(vm);
    let ghost before = host.vsets@;
    if let Some(mut state) = host.vsets.remove(&vset.0) {
        state.database_runtime.phase = AttachmentPhase::Attached(attachment);
        host.vsets.insert(vset.0, state);
    }
    Ok(AdminSuccess::DatabaseAttached { vset, attachment })
}

/// `after` is `before` once its holder began to detach.
pub open spec fn detaching(
    before: VsetState,
    after: VsetState,
    attachment: AttachmentId,
    mode: DetachMode,
) -> bool {
    &&& after == (VsetState {
        database_runtime: DatabaseRuntime {
            phase: (if mode == DetachMode::Forced {
                AttachmentPhase::Forced(attachment)
            } else {
                AttachmentPhase::Draining(attachment)
            }),
            drain_barrier: before.mutation_seq,
            handles: after.database_runtime.handles,
            ..before.database_runtime
        },
        ..before
    })
    &&& after.database_runtime.handles@ == (if mode == DetachMode::Forced {
        Map::empty()
    } else {
        before.database_runtime.handles@
    })
}

/// Starts taking `vset` away from the holder of `attachment`. The flag asks
/// for what was accepted so far to be made durable.
pub fn begin_detach_database(
    host: &mut HostState,
    vset: VsetId,
    attachment: AttachmentId,
    mode: DetachMode,
) -> (result: (AdminResult, bool))
    ensures
        if old(host).vsets@.contains_key(vset.0)
            && old(host).vsets@[vset.0].database_runtime.phase.holder() == Some(attachment) {
            &&& result == (
                Ok::<AdminSuccess, AdminError>(
                    AdminSuccess::DatabaseDetachStarted {
                        vset,
                        attachment,
                        forced: mode == DetachMode::Forced,
                    },
                ),
                mode != DetachMode::Forced,
            )
            &&& *final(host) == (HostState { vsets: final(host).vsets, ..*old(host) })
            &&& final(host).vsets@ == old(host).vsets@.insert(vset.0, final(host).vsets@[vset.0])
            &&& detaching(
                old(host).vsets@[vset.0],
                final(host).vsets@[vset.0],
                attachment,
                mode,
            )
        } else {
            result == (Err::<AdminSuccess, AdminError>(AdminError::Stale), false) && *final(host)
                == *old(host)
        },
        follows(*old(host), *final(host)),
{
    let current: bool = match host.vsets.get(&vset.0) {
        Some(state) => match state.database_runtime.phase.holder() {
            Some(id) => id == attachment,
            None => false,
        },
        None => false,
    };
    if !current {
        return (Err(AdminError::Stale), false);
    }
    let forced: bool = mode == DetachMode::Forced;
    let ghost before = host.vsets@;
    if let Some(mut state) = host.vsets.remove(&vset.0) {
        state.database_runtime.drain_barrier = state.mutation_seq;
        if forced {
            state.database_runtime.handles = BTreeMap::new();
            state.database_runtime.phase = AttachmentPhase::Forced(attachment);
        } else {
            state.database_runtime.phase = AttachmentPhase::Draining(attachment);
        }
        host.vsets.insert(vset.0, state);
        proof {
            assert(before.remove(vset.0).insert(vset.0, state) =~= before.insert(vset.0, state));
        }
    }
    (Ok(AdminSuccess::DatabaseDetachStarted { vset, attachment, forced }), !forced)
}

/// Whether a graceful detach of `attachment` has to make anything durable, and
/// up to which mutation. No request of it may still be under way.
pub fn drain_detached_database(host: &mut HostState, vset: VsetId, attachment: AttachmentId) -> (
barrier: Option<u64>)
    ensures
        ({
            let known = old(host).vsets@.contains_key(vset.0);
            let state = old(host).vsets@[vset.0];
            if known && state.database_runtime.phase == AttachmentPhase::Draining(attachment)
                && state.database_runtime.active is None {
                &&& barrier == Some(state.mutation_seq)
                &&& *final(host) == (HostState { vsets: final(host).vsets, ..*old(host) })
                &&& final(host).vsets@ == old(host).vsets@.insert(
                    vset.0,
                    VsetState {
                        database_runtime: DatabaseRuntime {
                            drain_barrier: state.mutation_seq,
                            ..state.database_runtime
                        },
                        ..state
                    },
                )
            } else {
                barrier is None && *final(host) == *old(host)
            }
        }),
        follows(*old(host), *final(host)),
{
    let drains: bool = match host.vsets.get(&vset.0) {
        Some(state) => {
            let draining = match state.database_runtime.phase {
                AttachmentPhase::Draining(id) => id == attachment,
                _ => false,
            };
            draining && state.database_runtime.active.is_none()
        },
        None => false,
    };
    if !drains {
        return None;
    }
    let ghost before = host.vsets@;
    match host.vsets.remove(&vset.0) {
        Some(mut state) => {
            let barrier: u64 = state.mutation_seq;
            state.database_runtime.drain_barrier = barrier;
            host.vsets.insert(vset.0, state);
            proof {
                assert(before.remove(vset.0).insert(vset.0, state) =~= before.insert(
                    vset.0,
                    state,
                ));
            }
            Some(barrier)
        },
        None => None,
    }
}

/// The holder of `attachment` has nothing open and nothing under way, and what
/// a graceful detach promised is acknowledged.
pub open spec fn detached(state: VsetState, attachment: AttachmentId) -> bool {
    let runtime = state.database_runtime;
    &&& runtime.handles@ == Map::<u64, DatabaseFile>::empty()
    &&& runtime.active is None
    &&& runtime.phase == AttachmentPhase::Forced(attachment) || (runtime.phase
        == AttachmentPhase::Draining(attachment) && state.sync_ack_through
        >= runtime.drain_barrier)
}

/// Ends the detach of `attachment`, if nothing stands in its way.
pub fn finish_detach_database(host: &mut HostState, vset: VsetId, attachment: AttachmentId) -> (
result: AdminResult)
    ensures
        if old(host).vsets@.contains_key(vset.0) && detached(
            old(host).vsets@[vset.0],
            attachment,
        ) {
            &&& result == Ok::<AdminSuccess, AdminError>(
                AdminSuccess::DatabaseDetached { vset, attachment },
            )
            &&& *final(host) == (HostState { vsets: final(host).vsets, ..*old(host) })
            &&& final(host).vsets@ == old(host).vsets@.insert(
                vset.0,
                with_phase(old(host).vsets@[vset.0], AttachmentPhase::Detached),
            )
        } else {
            result == Err::<AdminSuccess, AdminError>(AdminError::Stale) && *final(host) == *old(
                host,
            )
        },
        follows(*old(host), *final(host)),
{
    let done: bool = match host.vsets.get(&vset.0) {
        Some(state) => {
            let runtime = &state.database_runtime;
            let released = match runtime.phase {
                AttachmentPhase::Forced(id) => id == attachment,
                AttachmentPhase::Draining(id) => id == attachment && state.sync_ack_through
                    >= runtime.drain_barrier,
                _ => false,
            };
            proof {
                assert(runtime.handles@.is_empty() <==> runtime.handles@ =~= Map::<
                    u64,
                    DatabaseFile,
                >::empty());
            }
            released && runtime.handles.is_empty() && runtime.active.is_none()
        },
        None => false,
    };
    if !done {
        return Err(AdminError::Stale);
    }
    let ghost before = host.vsets@;
    if let Some(mut state) = host.vsets.remove(&vset.0) {
        state.database_runtime.phase = AttachmentPhase::Detached;
        host.vsets.insert(vset.0, state);
        proof {
            assert(before.remove(vset.0).insert(vset.0, state) =~= before.insert(vset.0, state));
        }
    }
    Ok(AdminSuccess::DatabaseDetached { vset, attachment })
}

// ---------------------------------------------------------------------------
// Admitting a request
// ---------------------------------------------------------------------------

/// Notes that a request of `attachment` is being worked on, if it may take
/// effect at all.
pub fn begin_request(state: &mut VsetState, attachment: AttachmentId) -> (noted: bool)
    ensures
        noted == old(state).database_runtime.phase.serves(attachment),
        *final(state) == (if noted {
            VsetState {
                database_runtime: DatabaseRuntime {
                    active: Some(attachment),
                    ..old(state).database_runtime
                },
                ..*old(state)
            }
        } else {
            *old(state)
        }),
{
    if !state.database_runtime.phase.serves(attachment) {
        return false;
    }
    state.database_runtime.active = Some(attachment);
    true
}

/// Notes that the request is done. If its attachment was cut off meanwhile,
/// its result is void.
pub fn end_request(state: &mut VsetState, attachment: AttachmentId) -> (retired: bool)
    ensures
        retired == !old(state).database_runtime.phase.serves(attachment),
        *final(state) == (if old(state).database_runtime.active == Some(attachment) {
            VsetState {
                database_runtime: DatabaseRuntime {
                    active: None,
                    ..old(state).database_runtime
                },
                ..*old(state)
            }
        } else {
            *old(state)
        }),
{
    if let Some(active) = state.database_runtime.active {
        if active == attachment {
            state.database_runtime.active = None;
        }
    }
    !state.database_runtime.phase.serves(attachment)
}

/// What a caller is told: the result, unless its attachment was cut off while
/// the request was under way.
pub fn settle_request(noted: bool, retired: bool, result: DatabaseResult) -> (told: DatabaseResult)
    ensures
        told == (if noted && retired {
            Err(DatabaseError::StaleAttachment)
        } else {
            result
        }),
{
    if noted && retired {
        Err(DatabaseError::StaleAttachment)
    } else {
        result
    }
}

/// Bytes in one file of a vset.
pub open spec fn file_capacity(state: VsetState) -> int {
    state.config.pages_per_volume * PAGE_SIZE
}

/// The operation stays inside its file and under the transfer limit.
pub open spec fn op_in_bounds(state: VsetState, op: OpView) -> bool {
    match op {
        OpView::Read { offset, len, .. } => len <= MAX_DATABASE_IO && offset + len
            <= file_capacity(state),
        OpView::Write { offset, bytes, .. } => bytes.len() <= MAX_DATABASE_IO && offset
            + bytes.len() <= file_capacity(state),
        OpView::Truncate { size, .. } => size <= file_capacity(state),
        _ => true,
    }
}

fn range_in_bounds(max: u64, offset: u64, len: usize) -> (inside: bool)
    ensures
        inside == (len <= MAX_DATABASE_IO && offset + len <= max),
{
    if len > MAX_DATABASE_IO {
        return false;
    }
    match offset.checked_add(len as u64) {
        Some(end) => end <= max,
        None => false,
    }
}

fn bounded_request(state: &VsetState, op: &DatabaseOp) -> (bounded: bool)
    ensures
        bounded == op_in_bounds(*state, op@),
{
    let max: u64 = state.config.pages_per_volume as u64 * PAGE_SIZE as u64;
    match op {
        DatabaseOp::Read { offset, len, .. } => range_in_bounds(max, *offset, *len as usize),
        DatabaseOp::Write { offset, bytes, .. } => range_in_bounds(max, *offset, bytes.len()),
        DatabaseOp::Truncate { size, .. } => *size <= max,
        _ => true,
    }
}

/// Why a request is refused before anything is done for it.
pub open spec fn refusal(
    state: Option<VsetState>,
    attachment: AttachmentId,
    op: OpView,
) -> Option<DatabaseError> {
    match state {
        Some(v) => if !v.ready || v.config.kind != VsetKind::Database {
            Some(DatabaseError::NotAttached)
        } else if !v.database_runtime.phase.serves(attachment) {
            Some(DatabaseError::StaleAttachment)
        } else if v.database_runtime.phase is Draining && !(op is Close) && !(op is Sync) {
            Some(DatabaseError::Draining)
        } else if !op_in_bounds(v, op) {
            Some(DatabaseError::TooLarge)
        } else {
            None
        },
        None => Some(DatabaseError::NotAttached),
    }
}

/// Decides whether a request of `attachment` may be worked on.
pub fn admit_request(
    state: Option<&VsetState>,
    attachment: AttachmentId,
    op: &DatabaseOp,
) -> (admitted: Result<(), DatabaseError>)
    ensures
        admitted == (match refusal(
            match state {
                Some(v) => Some(*v),
                None => None,
            },
            attachment,
            op@,
        ) {
            Some(error) => Err::<(), DatabaseError>(error),
            None => Ok(()),
        }),
{
    let v: &VsetState = match state {
        Some(v) => v,
        None => {
            return Err(DatabaseError::NotAttached);
        },
    };
    let kind: bool = match v.config.kind {
        VsetKind::Database => true,
        _ => false,
    };
    if !v.ready || !kind {
        return Err(DatabaseError::NotAttached);
    }
    if !v.database_runtime.phase.serves(attachment) {
        return Err(DatabaseError::StaleAttachment);
    }
    let draining: bool = match v.database_runtime.phase {
        AttachmentPhase::Draining(_) => true,
        _ => false,
    };
    let finishes: bool = match op {
        DatabaseOp::Close { .. } => true,
        DatabaseOp::Sync { .. } => true,
        _ => false,
    };
    if draining && !finishes {
        return Err(DatabaseError::Draining);
    }
    if !bounded_request(v, op) {
        return Err(DatabaseError::TooLarge);
    }
    Ok(())
}

/// A new attachment shuts out every earlier one: whatever generation was
/// handed out before, its requests to the vset are stale from then on.
pub proof fn old_attachments_are_fenced(
    before: HostState,
    after: HostState,
    vset: VsetId,
    vm: VmId,
    old_attachment: AttachmentId,
    op: OpView,
)
    requires
        before.wf(),
        before.vsets@.contains_key(vset.0),
        attachable(before.vsets@[vset.0]),
        before.next_attachment < u64::MAX,
        after == (HostState {
            vsets: after.vsets,
            next_attachment: (before.next_attachment + 1) as u64,
            ..before
        }),
        after.vsets@ == before.vsets@.insert(
            vset.0,
            with_phase(
                before.vsets@[vset.0],
                AttachmentPhase::Attached(AttachmentId { vm, generation: before.next_attachment }),
            ),
        ),
        old_attachment.generation < before.next_attachment,
    ensures
        after.wf(),
        refusal(Some(after.vsets@[vset.0]), old_attachment, op) == Some(
            DatabaseError::StaleAttachment,
        ),
{
}

/// An attachment is never handed out twice. Whatever was done to a host since it
/// handed one out, the next is of a later generation: no operation takes a
/// generation back.
pub proof fn attachments_are_never_reused(
    first: HostState,
    attached: HostState,
    later: HostState,
    a: VmId,
    b: VmId,
)
    requires
        first.next_attachment < u64::MAX,
        attached.next_attachment == first.next_attachment + 1,
        follows(attached, later),
    ensures
        ({
            let one = AttachmentId { vm: a, generation: first.next_attachment };
            let two = AttachmentId { vm: b, generation: later.next_attachment };
            one.generation < two.generation && one != two
        }),
{
}

/// What single operations keep, any number of them keeps.
pub proof fn operations_follow_each_other(a: HostState, b: HostState, c: HostState)
    requires
        follows(a, b),
        follows(b, c),
    ensures
        follows(a, c),
{
}

/// Once a detach is forced nothing of the attachment takes effect, and a
/// graceful one lets it only close and synchronise.
pub proof fn detaching_narrows_admission(
    before: VsetState,
    after: VsetState,
    attachment: AttachmentId,
    mode: DetachMode,
    op: OpView,
)
    requires
        detaching(before, after, attachment, mode),
        after.ready,
        after.config.kind == VsetKind::Database,
    ensures
        mode == DetachMode::Forced ==> refusal(Some(after), attachment, op) == Some(
            DatabaseError::StaleAttachment,
        ),
        mode == DetachMode::Graceful && refusal(Some(after), attachment, op) is None ==> op is Close
            || op is Sync,
{
}

// ---------------------------------------------------------------------------
// Files
// ---------------------------------------------------------------------------

pub open spec fn file_meta_spec(database: DatabaseMeta, file: DatabaseFile) -> DatabaseFileMeta {
    match file {
        DatabaseFile::Main => database.main,
        DatabaseFile::Wal => database.wal,
        DatabaseFile::Journal => database.journal,
    }
}

#[verifier::when_used_as_spec(file_meta_spec)]
pub fn file_meta(database: DatabaseMeta, file: DatabaseFile) -> (meta: DatabaseFileMeta)
    ensures
        meta == file_meta_spec(database, file),
{
    match file {
        DatabaseFile::Main => database.main,
        DatabaseFile::Wal => database.wal,
        DatabaseFile::Journal => database.journal,
    }
}

pub open spec fn with_file(database: DatabaseMeta, file: DatabaseFile, meta: DatabaseFileMeta) ->
    DatabaseMeta {
    match file {
        DatabaseFile::Main => DatabaseMeta { main: meta, ..database },
        DatabaseFile::Wal => DatabaseMeta { wal: meta, ..database },
        DatabaseFile::Journal => DatabaseMeta { journal: meta, ..database },
    }
}

/// `database` with one file's existence and size replaced.
fn set_file_meta(database: DatabaseMeta, file: DatabaseFile, meta: DatabaseFileMeta) -> (changed:
    DatabaseMeta)
    ensures
        changed == with_file(database, file, meta),
{
    let mut changed = database;
    match file {
        DatabaseFile::Main => {
            changed.main = meta;
        },
        DatabaseFile::Wal => {
            changed.wal = meta;
        },
        DatabaseFile::Journal => {
            changed.journal = meta;
        },
    }
    changed
}

/// What opening a file needs: nothing, or a commit that creates it.
#[derive(Clone, Copy, PartialEq, Eq, Debug, Structural)]
pub enum OpenPlan {
    Exists,
    Create(DatabaseMeta),
}

pub open spec fn open_plan(state: VsetState, handle: u64, file: DatabaseFile, create: bool) -> Result<
    OpenPlan,
    DatabaseError,
> {
    if state.database_runtime.handles@.contains_key(handle) {
        Err(DatabaseError::AlreadyOpen)
    } else if file_meta(state.database, file).exists {
        Ok(OpenPlan::Exists)
    } else if create {
        Ok(
            OpenPlan::Create(
                with_file(state.database, file, DatabaseFileMeta { exists: true, size: 0 }),
            ),
        )
    } else {
        Err(DatabaseError::NotFound)
    }
}

/// Decides how to open `file` as `handle`.
pub fn plan_open(state: &VsetState, handle: u64, file: DatabaseFile, create: bool) -> (plan: Result<
    OpenPlan,
    DatabaseError,
>)
    ensures
        plan == open_plan(*state, handle, file, create),
{
    if state.database_runtime.handles.contains_key(&handle) {
        return Err(DatabaseError::AlreadyOpen);
    }
    if file_meta(state.database, file).exists {
        return Ok(OpenPlan::Exists);
    }
    if !create {
        return Err(DatabaseError::NotFound);
    }
    Ok(
        OpenPlan::Create(
            set_file_meta(state.database, file, DatabaseFileMeta { exists: true, size: 0 }),
        ),
    )
}

/// Hands out the handle, unless the attachment was cut off while the file was
/// being created.
pub fn finish_open(
    state: &mut VsetState,
    handle: u64,
    file: DatabaseFile,
    attachment: AttachmentId,
) -> (result: DatabaseResult)
    ensures
        if old(state).database_runtime.phase.serves(attachment) {
            &&& result == Ok::<DatabaseSuccess, DatabaseError>(DatabaseSuccess::Opened)
            &&& *final(state) == (VsetState {
                database_runtime: DatabaseRuntime {
                    handles: final(state).database_runtime.handles,
                    ..old(state).database_runtime
                },
                ..*old(state)
            })
            &&& final(state).database_runtime.handles@ == old(
                state,
            ).database_runtime.handles@.insert(handle, file)
        } else {
            result == Err::<DatabaseSuccess, DatabaseError>(DatabaseError::StaleAttachment)
                && *final(state) == *old(state)
        },
{
    if !state.database_runtime.phase.serves(attachment) {
        return Err(DatabaseError::StaleAttachment);
    }
    state.database_runtime.handles.insert(handle, file);
    Ok(DatabaseSuccess::Opened)
}

/// Gives a handle back.
pub fn close(state: &mut VsetState, handle: u64) -> (result: DatabaseResult)
    ensures
        if old(state).database_runtime.handles@.contains_key(handle) {
            &&& result == Ok::<DatabaseSuccess, DatabaseError>(DatabaseSuccess::Closed)
            &&& *final(state) == (VsetState {
                database_runtime: DatabaseRuntime {
                    handles: final(state).database_runtime.handles,
                    ..old(state).database_runtime
                },
                ..*old(state)
            })
            &&& final(state).database_runtime.handles@ == old(
                state,
            ).database_runtime.handles@.remove(handle)
        } else {
            result == Err::<DatabaseSuccess, DatabaseError>(DatabaseError::InvalidHandle)
                && *final(state) == *old(state)
        },
{
    if !state.database_runtime.handles.contains_key(&handle) {
        return Err(DatabaseError::InvalidHandle);
    }
    state.database_runtime.handles.remove(&handle);
    Ok(DatabaseSuccess::Closed)
}

/// The file behind an open handle.
fn open_file(state: &VsetState, handle: u64) -> (file: Result<DatabaseFile, DatabaseError>)
    ensures
        file == (if state.database_runtime.handles@.contains_key(handle) {
            Ok(state.database_runtime.handles@[handle])
        } else {
            Err(DatabaseError::InvalidHandle)
        }),
{
    match state.database_runtime.handles.get(&handle) {
        Some(file) => Ok(*file),
        None => Err(DatabaseError::InvalidHandle),
    }
}

pub fn file_size(state: &VsetState, handle: u64) -> (result: DatabaseResult)
    ensures
        result == (if state.database_runtime.handles@.contains_key(handle) {
            Ok::<DatabaseSuccess, DatabaseError>(
                DatabaseSuccess::FileSize {
                    size: file_meta(
                        state.database,
                        state.database_runtime.handles@[handle],
                    ).size,
                },
            )
        } else {
            Err(DatabaseError::InvalidHandle)
        }),
{
    match open_file(state, handle) {
        Ok(file) => Ok(DatabaseSuccess::FileSize { size: file_meta(state.database, file).size }),
        Err(error) => Err(error),
    }
}

pub fn access(state: &VsetState, file: DatabaseFile) -> (result: DatabaseResult)
    ensures
        result == Ok::<DatabaseSuccess, DatabaseError>(
            DatabaseSuccess::Access { exists: file_meta(state.database, file).exists },
        ),
{
    Ok(DatabaseSuccess::Access { exists: file_meta(state.database, file).exists })
}

pub fn stat(state: &VsetState, file: DatabaseFile) -> (result: DatabaseResult)
    ensures
        result == Ok::<DatabaseSuccess, DatabaseError>(
            DatabaseSuccess::Stat {
                exists: file_meta(state.database, file).exists,
                size: file_meta(state.database, file).size,
            },
        ),
{
    let meta = file_meta(state.database, file);
    Ok(DatabaseSuccess::Stat { exists: meta.exists, size: meta.size })
}

/// The file and metadata behind a handle that bytes are read from or written
/// to.
pub open spec fn data_file(state: VsetState, handle: u64) -> Result<DatabaseFile, DatabaseError> {
    if !state.database_runtime.handles@.contains_key(handle) {
        Err(DatabaseError::InvalidHandle)
    } else if !file_meta(state.database, state.database_runtime.handles@[handle]).exists {
        Err(DatabaseError::NotFound)
    } else {
        Ok(state.database_runtime.handles@[handle])
    }
}

fn existing_file(state: &VsetState, handle: u64) -> (file: Result<DatabaseFile, DatabaseError>)
    ensures
        file == data_file(*state, handle),
{
    match open_file(state, handle) {
        Ok(file) => if file_meta(state.database, file).exists {
            Ok(file)
        } else {
            Err(DatabaseError::NotFound)
        },
        Err(error) => Err(error),
    }
}

// ---------------------------------------------------------------------------
// Bytes and pages
// ---------------------------------------------------------------------------

/// Pages that hold any of the bytes from `offset` up to `end`.
pub open spec fn page_count(offset: int, end: int) -> int {
    if offset < end {
        (end - 1) / PAGE_SIZE as int - offset / PAGE_SIZE as int + 1
    } else {
        0
    }
}

/// The byte at position `at` of a file whose pages from number `first` on are
/// `pages`.
pub open spec fn byte_at(pages: Seq<Vec<u8>>, first: int, at: int) -> u8 {
    pages[at / PAGE_SIZE as int - first]@[at % PAGE_SIZE as int]
}

pub open spec fn whole_pages(pages: Seq<Vec<u8>>) -> bool {
    forall|i: int| 0 <= i < pages.len() ==> (#[trigger] pages[i])@.len() == PAGE_SIZE
}

/// The first page that holds bytes from `offset` up to `end`, and how many do.
pub fn page_range(offset: u64, end: u64) -> (range: (u64, u64))
    requires
        offset <= end,
    ensures
        range.0 == offset / PAGE_SIZE as u64,
        range.1 == page_count(offset as int, end as int),
{
    let size: u64 = PAGE_SIZE as u64;
    if offset < end {
        (offset / size, (end - 1) / size - offset / size + 1)
    } else {
        (offset / size, 0)
    }
}

/// Where a read starts and ends, and whether it reaches the end of the file.
#[derive(Clone, Copy, PartialEq, Eq, Debug, Structural)]
pub struct ReadPlan {
    pub file: DatabaseFile,
    pub offset: u64,
    pub end: u64,
    pub eof: bool,
}

pub open spec fn read_plan(file: DatabaseFile, size: u64, offset: u64, len: u32) -> ReadPlan {
    ReadPlan {
        file,
        offset,
        end: (if offset >= size {
            offset as int
        } else if size <= offset + len {
            size as int
        } else {
            offset + len
        }) as u64,
        eof: (if size >= offset {
            size - offset
        } else {
            0
        }) < len,
    }
}

/// Decides which bytes a read returns. Past the end of the file there are
/// none.
pub fn plan_read(state: &VsetState, handle: u64, offset: u64, len: u32) -> (plan: Result<
    ReadPlan,
    DatabaseError,
>)
    ensures
        plan == (if len > MAX_DATABASE_IO {
            Err(DatabaseError::TooLarge)
        } else {
            match data_file(*state, handle) {
                Ok(file) => Ok(read_plan(file, file_meta(state.database, file).size, offset, len)),
                Err(error) => Err(error),
            }
        }),
{
    if len as usize > MAX_DATABASE_IO {
        return Err(DatabaseError::TooLarge);
    }
    let file = match existing_file(state, handle) {
        Ok(file) => file,
        Err(error) => {
            return Err(error);
        },
    };
    let size: u64 = file_meta(state.database, file).size;
    let eof: bool = size.saturating_sub(offset) < len as u64;
    if offset >= size {
        return Ok(ReadPlan { file, offset, end: offset, eof });
    }
    let wanted: u64 = offset.saturating_add(len as u64);
    let end: u64 = if size <= wanted {
        size
    } else {
        wanted
    };
    Ok(ReadPlan { file, offset, end, eof })
}

/// The bytes from `offset` up to `end`, out of the pages that hold them.
pub open spec fn read_bytes(offset: int, end: int, pages: Seq<Vec<u8>>) -> Seq<u8> {
    Seq::new((end - offset) as nat, |i: int| byte_at(pages, offset / PAGE_SIZE as int, offset + i))
}

/// The bytes a read returns, from the pages that hold them.
pub fn assemble_read(offset: u64, end: u64, pages: &Vec<Vec<u8>>) -> (bytes: Vec<u8>)
    requires
        offset <= end,
        pages@.len() == page_count(offset as int, end as int),
        whole_pages(pages@),
    ensures
        bytes@ == read_bytes(offset as int, end as int, pages@),
{
    let mut bytes: Vec<u8> = Vec::new();
    let mut cursor: u64 = offset;
    let mut index: usize = 0;
    let count: usize = pages.len();
    let ghost first = offset as int / PAGE_SIZE as int;
    while cursor < end
        invariant
            count == pages@.len(),
            offset <= cursor <= end,
            first == offset as int / PAGE_SIZE as int,
            pages@.len() == page_count(offset as int, end as int),
            whole_pages(pages@),
            index <= pages@.len(),
            cursor < end ==> cursor as int / PAGE_SIZE as int == first + index,
            bytes@.len() == cursor - offset,
            forall|i: int|
                0 <= i < cursor - offset ==> bytes@[i] == byte_at(pages@, first, offset + i),
        decreases end - cursor,
    {
        let start: usize = (cursor % PAGE_SIZE as u64) as usize;
        let left: u64 = end - cursor;
        let room: u64 = (PAGE_SIZE - start) as u64;
        let take: u64 = if left <= room {
            left
        } else {
            room
        };
        proof {
            assert(cursor as int / PAGE_SIZE as int <= (end - 1) / PAGE_SIZE as int);
        }
        let page: &Vec<u8> = &pages[index];
        let piece: &[u8] = vstd::slice::slice_subrange(page.as_slice(), start, start + take as usize);
        let ghost had = bytes@;
        bytes.extend_from_slice(piece);
        proof {
            assert forall|i: int| 0 <= i < cursor + take - offset implies bytes@[i] == byte_at(
                pages@,
                first,
                offset + i,
            ) by {
                if i < had.len() {
                    assert(bytes@[i] == had[i]);
                } else {
                    let k = i - had.len();
                    assert(bytes@[i] == piece@[k]);
                    assert((offset + i) / PAGE_SIZE as int == first + index);
                    assert((offset + i) % PAGE_SIZE as int == start + k);
                }
            }
        }
        cursor = cursor + take;
        index = index + 1;
    }
    proof {
        assert(bytes@ =~= Seq::new(
            (end - offset) as nat,
            |i: int| byte_at(pages@, first, offset + i),
        ));
    }
    bytes
}

/// What a write has to do.
#[derive(Clone, Copy, PartialEq, Eq, Debug, Structural)]
pub enum WritePlan {
    /// Writing no bytes changes nothing.
    Nothing { sequence: u64 },
    /// Overlay the pages of `file` and commit `database`.
    Pages { file: DatabaseFile, database: DatabaseMeta },
}

pub open spec fn write_plan(state: VsetState, handle: u64, offset: u64, len: int) -> Result<
    WritePlan,
    DatabaseError,
> {
    match data_file(state, handle) {
        Ok(file) => if len == 0 {
            Ok(WritePlan::Nothing { sequence: state.mutation_seq })
        } else {
            let size = file_meta(state.database, file).size;
            Ok(
                WritePlan::Pages {
                    file,
                    database: with_file(
                        state.database,
                        file,
                        DatabaseFileMeta {
                            exists: true,
                            size: (if size >= offset + len {
                                size as int
                            } else {
                                offset + len
                            }) as u64,
                        },
                    ),
                },
            )
        },
        Err(error) => Err(error),
    }
}

/// Decides what writing `len` bytes at `offset` commits: the file grows to the
/// end of the write if that is beyond its size.
pub fn plan_write(state: &VsetState, handle: u64, offset: u64, len: usize) -> (plan: Result<
    WritePlan,
    DatabaseError,
>)
    requires
        offset + len <= u64::MAX,
    ensures
        plan == write_plan(*state, handle, offset, len as int),
{
    let file = match existing_file(state, handle) {
        Ok(file) => file,
        Err(error) => {
            return Err(error);
        },
    };
    if len == 0 {
        return Ok(WritePlan::Nothing { sequence: state.mutation_seq });
    }
    let old_size: u64 = file_meta(state.database, file).size;
    let end: u64 = offset + len as u64;
    let size: u64 = if old_size >= end {
        old_size
    } else {
        end
    };
    Ok(
        WritePlan::Pages {
            file,
            database: set_file_meta(state.database, file, DatabaseFileMeta { exists: true, size }),
        },
    )
}

/// `written` are the pages from the one at `offset` on, with `bytes` laid over
/// them.
pub open spec fn overlaid(
    offset: u64,
    bytes: Seq<u8>,
    pages: Seq<Vec<u8>>,
    written: Seq<Vec<u8>>,
) -> bool {
    let first = offset as int / PAGE_SIZE as int;
    &&& written.len() == pages.len()
    &&& whole_pages(written)
    &&& forall|at: int|
        first * PAGE_SIZE as int <= at < (first + pages.len()) * PAGE_SIZE as int
            ==> #[trigger] byte_at(written, first, at) == (if offset <= at < offset + bytes.len() {
            bytes[at - offset]
        } else {
            byte_at(pages, first, at)
        })
}

/// The pages that hold a write's bytes, with the bytes laid over them.
pub fn overlay_write(offset: u64, bytes: &Vec<u8>, pages: &Vec<Vec<u8>>) -> (written: Vec<Vec<u8>>)
    requires
        offset + bytes@.len() <= u64::MAX,
        pages@.len() == page_count(offset as int, offset + bytes@.len()),
        whole_pages(pages@),
    ensures
        overlaid(offset, bytes@, pages@, written@),
{
    let mut written: Vec<Vec<u8>> = Vec::new();
    let total: usize = bytes.len();
    let end: u64 = offset + total as u64;
    let mut cursor: u64 = offset;
    let ghost first = offset as int / PAGE_SIZE as int;
    while cursor < end
        invariant
            total == bytes@.len(),
            offset <= cursor <= end,
            end == offset + bytes@.len(),
            first == offset as int / PAGE_SIZE as int,
            pages@.len() == page_count(offset as int, end as int),
            whole_pages(pages@),
            whole_pages(written@),
            written@.len() <= pages@.len(),
            cursor < end ==> cursor as int / PAGE_SIZE as int == first + written@.len(),
            cursor < end && written@.len() > 0 ==> cursor as int % PAGE_SIZE as int == 0,
            written@.len() == 0 ==> cursor == offset,
            cursor == end && offset < end ==> written@.len() == pages@.len(),
            forall|at: int|
                first * PAGE_SIZE as int <= at < (first + written@.len()) * PAGE_SIZE as int
                    ==> #[trigger] byte_at(written@, first, at) == (if offset <= at < end {
                    bytes@[at - offset]
                } else {
                    byte_at(pages@, first, at)
                }),
        decreases end - cursor,
    {
        let start: usize = (cursor % PAGE_SIZE as u64) as usize;
        let left: u64 = end - cursor;
        let room: u64 = (PAGE_SIZE - start) as u64;
        let take: u64 = if left <= room {
            left
        } else {
            room
        };
        proof {
            assert(cursor as int / PAGE_SIZE as int <= (end - 1) / PAGE_SIZE as int);
        }
        let index: usize = written.len();
        let page: &Vec<u8> = &pages[index];
        let from: usize = (cursor - offset) as usize;
        let changed: Vec<u8> = splice(page, start, bytes, from, take as usize);
        let ghost had = written@;
        written.push(changed);
        proof {
            assert forall|at: int|
                first * PAGE_SIZE as int <= at < (first + written@.len()) * PAGE_SIZE as int implies
                #[trigger] byte_at(written@, first, at) == (if offset <= at < end {
                bytes@[at - offset]
            } else {
                byte_at(pages@, first, at)
            }) by {
                let slot = at / PAGE_SIZE as int - first;
                let inner = at % PAGE_SIZE as int;
                if slot < had.len() {
                    assert(at < (first + had.len()) * PAGE_SIZE as int);
                    assert(written@[slot] == had[slot]);
                    assert(byte_at(had, first, at) == byte_at(written@, first, at));
                } else {
                    assert(slot == index);
                    assert(byte_at(pages@, first, at) == page@[inner]);
                    assert(byte_at(written@, first, at) == changed@[inner]);
                    assert(written@[slot]@ == changed@);
                    assert(at - cursor == inner - start);
                    if inner < start {
                        assert(changed@[inner] == page@[inner]);
                        assert(index == 0);
                    } else if inner < start + take {
                        assert(changed@[inner] == bytes@[from + (inner - start)]);
                    } else {
                        assert(changed@[inner] == page@[inner]);
                        assert(take == left);
                    }
                }
            }
        }
        cursor = cursor + take;
    }
    written
}

/// `page` with `len` bytes from position `from` of `bytes` put at `start`.
fn splice(page: &Vec<u8>, start: usize, bytes: &Vec<u8>, from: usize, len: usize) -> (changed: Vec<
    u8,
>)
    requires
        start + len <= page@.len(),
        from + len <= bytes@.len(),
    ensures
        changed@ == page@.take(start as int) + bytes@.subrange(from as int, from + len)
            + page@.skip(start + len),
{
    let size: usize = page.len();
    let total: usize = bytes.len();
    assert(start + len <= size && from + len <= total);
    let mut changed: Vec<u8> = Vec::new();
    changed.extend_from_slice(vstd::slice::slice_subrange(page.as_slice(), 0, start));
    changed.extend_from_slice(vstd::slice::slice_subrange(bytes.as_slice(), from, from + len));
    changed.extend_from_slice(vstd::slice::slice_subrange(page.as_slice(), start + len, size));
    proof {
        assert(changed@ =~= page@.take(start as int) + bytes@.subrange(from as int, from + len)
            + page@.skip(start + len));
    }
    changed
}

/// A read of the range just written returns the bytes written, whatever the
/// pages held before.
pub proof fn a_read_returns_what_was_written(
    offset: u64,
    bytes: Seq<u8>,
    before: Seq<Vec<u8>>,
    after: Seq<Vec<u8>>,
    read: Seq<u8>,
)
    requires
        offset + bytes.len() <= u64::MAX,
        before.len() == page_count(offset as int, offset + bytes.len()),
        overlaid(offset, bytes, before, after),
        read == read_bytes(offset as int, offset + bytes.len(), after),
    ensures
        read == bytes,
{
    let first = offset as int / PAGE_SIZE as int;
    assert forall|i: int| 0 <= i < bytes.len() implies read[i] == bytes[i] by {
        let at = offset + i;
        assert(first * PAGE_SIZE as int <= at < (first + before.len()) * PAGE_SIZE as int);
        assert(byte_at(after, first, at) == bytes[i]);
    }
    assert(read =~= bytes);
}

/// What cutting or growing a file to `size` has to do.
#[derive(Clone, Copy, PartialEq, Eq, Debug)]
pub struct TruncatePlan {
    pub file: DatabaseFile,
    /// A page that stays in part, and how many of its bytes stay.
    pub partial: Option<(u32, u32)>,
    /// The first page that goes.
    pub prune: Option<u64>,
    pub database: DatabaseMeta,
}

/// Pages that `size` bytes take, the last one perhaps in part.
pub open spec fn pages_to_hold(size: u64) -> u64 {
    if size % PAGE_SIZE as u64 == 0 {
        size / PAGE_SIZE as u64
    } else {
        (size / PAGE_SIZE as u64 + 1) as u64
    }
}

pub open spec fn truncate_plan(state: VsetState, handle: u64, size: u64) -> Result<
    TruncatePlan,
    DatabaseError,
> {
    match data_file(state, handle) {
        Ok(file) => {
            let shrinks = size < file_meta(state.database, file).size;
            Ok(
                TruncatePlan {
                    file,
                    partial: (if shrinks && size % PAGE_SIZE as u64 != 0 {
                        Some(
                            (
                                (size / PAGE_SIZE as u64) as u32,
                                (size % PAGE_SIZE as u64) as u32,
                            ),
                        )
                    } else {
                        None
                    }),
                    prune: (if shrinks {
                        Some(pages_to_hold(size))
                    } else {
                        None
                    }),
                    database: with_file(
                        state.database,
                        file,
                        DatabaseFileMeta { exists: true, size },
                    ),
                },
            )
        },
        Err(error) => Err(error),
    }
}

/// Decides what cutting or growing a file to `size` has to do.
pub fn plan_truncate(state: &VsetState, handle: u64, size: u64) -> (plan: Result<
    TruncatePlan,
    DatabaseError,
>)
    requires
        size <= file_capacity(*state),
    ensures
        plan == truncate_plan(*state, handle, size),
{
    let file = match existing_file(state, handle) {
        Ok(file) => file,
        Err(error) => {
            return Err(error);
        },
    };
    let shrinks: bool = size < file_meta(state.database, file).size;
    let whole: u64 = size / PAGE_SIZE as u64;
    let rest: u64 = size % PAGE_SIZE as u64;
    let partial: Option<(u32, u32)> = if shrinks && rest != 0 {
        Some((whole as u32, rest as u32))
    } else {
        None
    };
    let prune: Option<u64> = if shrinks {
        Some(
            if rest == 0 {
                whole
            } else {
                whole + 1
            },
        )
    } else {
        None
    };
    let database = set_file_meta(state.database, file, DatabaseFileMeta { exists: true, size });
    Ok(TruncatePlan { file, partial, prune, database })
}

pub open spec fn tail_cleared(page: Seq<u8>, keep: int) -> Seq<u8> {
    Seq::new(
        page.len(),
        |i: int|
            if i < keep {
                page[i]
            } else {
                0
            },
    )
}

/// `page` with everything from byte `keep` on cleared.
pub fn clear_tail(page: &Vec<u8>, keep: usize) -> (cleared: Vec<u8>)
    requires
        keep <= page@.len(),
    ensures
        cleared@ == tail_cleared(page@, keep as int),
{
    let mut cleared: Vec<u8> = Vec::new();
    cleared.extend_from_slice(vstd::slice::slice_subrange(page.as_slice(), 0, keep));
    let mut at: usize = keep;
    while at < page.len()
        invariant
            keep <= at <= page@.len(),
            cleared@.len() == at,
            forall|i: int|
                0 <= i < at ==> cleared@[i] == (if i < keep {
                    page@[i]
                } else {
                    0
                }),
        decreases page@.len() - at,
    {
        cleared.push(0);
        at = at + 1;
    }
    cleared
}

/// The metadata after `file` is deleted. All of its pages go.
pub fn plan_delete(state: &VsetState, file: DatabaseFile) -> (database: DatabaseMeta)
    ensures
        database == with_file(state.database, file, DatabaseFileMeta { exists: false, size: 0 }),
{
    set_file_meta(state.database, file, DatabaseFileMeta { exists: false, size: 0 })
}

// ---------------------------------------------------------------------------
// Synchronising
// ---------------------------------------------------------------------------

/// The mutation a synchronisation has to make durable.
pub fn plan_sync(state: &VsetState, handle: u64) -> (barrier: Result<u64, DatabaseError>)
    ensures
        barrier == (if state.database_runtime.handles@.contains_key(handle) {
            Ok(state.mutation_seq)
        } else {
            Err(DatabaseError::InvalidHandle)
        }),
{
    if state.database_runtime.handles.contains_key(&handle) {
        Ok(state.mutation_seq)
    } else {
        Err(DatabaseError::InvalidHandle)
    }
}

/// What stands between a mutation and its acknowledgement.
#[derive(Clone, Copy, PartialEq, Eq, Debug, Structural)]
pub enum SyncStep {
    Acknowledged,
    /// No local record holds the mutation yet.
    Commit,
    /// A local record holds it, but it is not safe elsewhere.
    Replicate,
}

pub fn sync_step(state: &VsetState, barrier: u64) -> (step: SyncStep)
    ensures
        step == (if state.sync_ack_through >= barrier {
            SyncStep::Acknowledged
        } else if state.local_covered_through < barrier {
            SyncStep::Commit
        } else {
            SyncStep::Replicate
        }),
{
    if state.sync_ack_through >= barrier {
        SyncStep::Acknowledged
    } else if state.local_covered_through < barrier {
        SyncStep::Commit
    } else {
        SyncStep::Replicate
    }
}

/// Answers a synchronisation. It succeeds only if the mutation is acknowledged
/// and the attachment was not cut off.
pub fn finish_sync(state: Option<&VsetState>, attachment: AttachmentId, barrier: u64) -> (result:
    DatabaseResult)
    ensures
        result == (match state {
            Some(v) => if !v.database_runtime.phase.serves(attachment) {
                Err(DatabaseError::StaleAttachment)
            } else if v.sync_ack_through < barrier {
                Err(DatabaseError::Io)
            } else {
                Ok::<DatabaseSuccess, DatabaseError>(
                    DatabaseSuccess::Synced { sequence: barrier },
                )
            },
            None => Err(DatabaseError::StaleAttachment),
        }),
{
    match state {
        Some(v) => {
            if !v.database_runtime.phase.serves(attachment) {
                Err(DatabaseError::StaleAttachment)
            } else if v.sync_ack_through < barrier {
                Err(DatabaseError::Io)
            } else {
                Ok(DatabaseSuccess::Synced { sequence: barrier })
            }
        },
        None => Err(DatabaseError::StaleAttachment),
    }
}

} // verus!
