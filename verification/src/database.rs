//! Typed `SQLite`-file operations.
//!
//! `SQLite` locking and shared memory are volatile execution state of the
//! guest's file system and do not appear here: this module covers only the
//! durable main, write-ahead-log and rollback-journal files.

use crate::types::{PageId, PageNo, ReqId, VmId, VolumeId, VolumeIdx, VsetId};
use vstd::prelude::*;

verus! {

/// Largest byte payload accepted in one request or returned in one reply.
pub const MAX_DATABASE_IO: usize = 1024 * 1024;

/// A durable `SQLite` file in a database vset.
#[derive(Clone, Copy, PartialEq, Eq, PartialOrd, Ord, Hash, Debug, Structural)]
pub enum DatabaseFile {
    Main,
    Wal,
    Journal,
}

impl DatabaseFile {
    /// The volume of the vset that stores this file.
    pub open spec fn volume_index_spec(self) -> VolumeIdx {
        match self {
            DatabaseFile::Main => VolumeIdx(0),
            DatabaseFile::Wal => VolumeIdx(1),
            DatabaseFile::Journal => VolumeIdx(2),
        }
    }

    pub open spec fn page_spec(self, vset: VsetId, page: u32) -> PageId {
        PageId {
            volume: VolumeId { vset, idx: self.volume_index_spec() },
            page: PageNo(page),
        }
    }

    #[verifier::when_used_as_spec(volume_index_spec)]
    pub fn volume_index(self) -> (idx: VolumeIdx)
        ensures
            idx == self.volume_index_spec(),
    {
        match self {
            DatabaseFile::Main => VolumeIdx(0),
            DatabaseFile::Wal => VolumeIdx(1),
            DatabaseFile::Journal => VolumeIdx(2),
        }
    }

    #[verifier::when_used_as_spec(page_spec)]
    pub fn page(self, vset: VsetId, page: u32) -> (id: PageId)
        ensures
            id == self.page_spec(vset, page),
    {
        PageId { volume: VolumeId { vset, idx: self.volume_index() }, page: PageNo(page) }
    }

    /// Pages of different files, different vsets or different numbers differ.
    pub proof fn pages_are_disjoint(
        a: DatabaseFile,
        b: DatabaseFile,
        va: VsetId,
        vb: VsetId,
        pa: u32,
        pb: u32,
    )
        ensures
            a.page(va, pa) == b.page(vb, pb) <==> a == b && va == vb && pa == pb,
    {
    }
}

/// Volatile authority for one VM to use one database vset. Generations are
/// monotone within a daemon incarnation and never survive recovery.
#[derive(Clone, Copy, PartialEq, Eq, PartialOrd, Ord, Hash, Debug, Structural)]
pub struct AttachmentId {
    pub vm: VmId,
    pub generation: u64,
}

/// One guest request. `handle` values are chosen by the client but scoped to
/// an attachment generation and validated before use.
#[derive(Clone, PartialEq, Eq, Debug)]
pub struct DatabaseRequest {
    pub req: ReqId,
    pub vset: VsetId,
    pub attachment: AttachmentId,
    pub op: DatabaseOp,
}

#[derive(Clone, PartialEq, Eq, Debug)]
pub enum DatabaseOp {
    Open { handle: u64, file: DatabaseFile, create: bool },
    Close { handle: u64 },
    Read { handle: u64, offset: u64, len: u32 },
    Write { handle: u64, offset: u64, bytes: Vec<u8> },
    Truncate { handle: u64, size: u64 },
    FileSize { handle: u64 },
    Access { file: DatabaseFile },
    /// Read existence and size without creating a temporary open handle.
    Stat { file: DatabaseFile },
    Delete { file: DatabaseFile },
    /// Durably commit the prefix of mutations accepted before this request.
    Sync { handle: u64 },
}

/// What a [`DatabaseOp`] asks for, with its bytes as a sequence.
#[verifier::ext_equal]
pub enum OpView {
    Open { handle: u64, file: DatabaseFile, create: bool },
    Close { handle: u64 },
    Read { handle: u64, offset: u64, len: u32 },
    Write { handle: u64, offset: u64, bytes: Seq<u8> },
    Truncate { handle: u64, size: u64 },
    FileSize { handle: u64 },
    Access { file: DatabaseFile },
    Stat { file: DatabaseFile },
    Delete { file: DatabaseFile },
    Sync { handle: u64 },
}

impl View for DatabaseOp {
    type V = OpView;

    open spec fn view(&self) -> OpView {
        match *self {
            DatabaseOp::Open { handle, file, create } => OpView::Open { handle, file, create },
            DatabaseOp::Close { handle } => OpView::Close { handle },
            DatabaseOp::Read { handle, offset, len } => OpView::Read { handle, offset, len },
            DatabaseOp::Write { handle, offset, bytes } => OpView::Write {
                handle,
                offset,
                bytes: bytes@,
            },
            DatabaseOp::Truncate { handle, size } => OpView::Truncate { handle, size },
            DatabaseOp::FileSize { handle } => OpView::FileSize { handle },
            DatabaseOp::Access { file } => OpView::Access { file },
            DatabaseOp::Stat { file } => OpView::Stat { file },
            DatabaseOp::Delete { file } => OpView::Delete { file },
            DatabaseOp::Sync { handle } => OpView::Sync { handle },
        }
    }
}

/// Stable error classes; the transport maps these to `SQLite` result codes
/// without exposing host paths or internal storage details.
#[derive(Clone, Copy, PartialEq, Eq, Debug, Structural)]
pub enum DatabaseError {
    NotAttached,
    StaleAttachment,
    Draining,
    InvalidHandle,
    AlreadyOpen,
    NotFound,
    InvalidRequest,
    TooLarge,
    Busy,
    Io,
}

#[derive(Clone, PartialEq, Eq, Debug)]
pub enum DatabaseReply {
    Opened { req: ReqId },
    Closed { req: ReqId },
    Read { req: ReqId, bytes: Vec<u8>, eof: bool },
    Written { req: ReqId, sequence: u64 },
    Truncated { req: ReqId, sequence: u64 },
    FileSize { req: ReqId, size: u64 },
    Access { req: ReqId, exists: bool },
    Stat { req: ReqId, exists: bool, size: u64 },
    Deleted { req: ReqId, sequence: u64 },
    Synced { req: ReqId, sequence: u64 },
    Failed { req: ReqId, error: DatabaseError },
}

/// What a [`DatabaseReply`] answers, apart from the request it belongs to.
#[verifier::ext_equal]
pub enum AnswerView {
    Opened,
    Closed,
    Read { bytes: Seq<u8>, eof: bool },
    Written { sequence: u64 },
    Truncated { sequence: u64 },
    FileSize { size: u64 },
    Access { exists: bool },
    Stat { exists: bool, size: u64 },
    Deleted { sequence: u64 },
    Synced { sequence: u64 },
    Failed { error: DatabaseError },
}

impl DatabaseReply {
    pub open spec fn req_spec(&self) -> ReqId {
        match *self {
            DatabaseReply::Opened { req } => req,
            DatabaseReply::Closed { req } => req,
            DatabaseReply::Read { req, .. } => req,
            DatabaseReply::Written { req, .. } => req,
            DatabaseReply::Truncated { req, .. } => req,
            DatabaseReply::FileSize { req, .. } => req,
            DatabaseReply::Access { req, .. } => req,
            DatabaseReply::Stat { req, .. } => req,
            DatabaseReply::Deleted { req, .. } => req,
            DatabaseReply::Synced { req, .. } => req,
            DatabaseReply::Failed { req, .. } => req,
        }
    }

    /// The reply without its correlation.
    pub open spec fn answer(&self) -> AnswerView {
        match *self {
            DatabaseReply::Opened { .. } => AnswerView::Opened,
            DatabaseReply::Closed { .. } => AnswerView::Closed,
            DatabaseReply::Read { bytes, eof, .. } => AnswerView::Read { bytes: bytes@, eof },
            DatabaseReply::Written { sequence, .. } => AnswerView::Written { sequence },
            DatabaseReply::Truncated { sequence, .. } => AnswerView::Truncated { sequence },
            DatabaseReply::FileSize { size, .. } => AnswerView::FileSize { size },
            DatabaseReply::Access { exists, .. } => AnswerView::Access { exists },
            DatabaseReply::Stat { exists, size, .. } => AnswerView::Stat { exists, size },
            DatabaseReply::Deleted { sequence, .. } => AnswerView::Deleted { sequence },
            DatabaseReply::Synced { sequence, .. } => AnswerView::Synced { sequence },
            DatabaseReply::Failed { error, .. } => AnswerView::Failed { error },
        }
    }

    #[verifier::when_used_as_spec(req_spec)]
    pub fn req(&self) -> (req: ReqId)
        ensures
            req == self.req_spec(),
    {
        match self {
            DatabaseReply::Opened { req } => *req,
            DatabaseReply::Closed { req } => *req,
            DatabaseReply::Read { req, .. } => *req,
            DatabaseReply::Written { req, .. } => *req,
            DatabaseReply::Truncated { req, .. } => *req,
            DatabaseReply::FileSize { req, .. } => *req,
            DatabaseReply::Access { req, .. } => *req,
            DatabaseReply::Stat { req, .. } => *req,
            DatabaseReply::Deleted { req, .. } => *req,
            DatabaseReply::Synced { req, .. } => *req,
            DatabaseReply::Failed { req, .. } => *req,
        }
    }

    /// Replace transport-local correlation with the caller's request id.
    /// Runtime adapters use a host-unique id inside the daemon so equal guest
    /// ids from different VMs or connections can never share a waiter.
    #[must_use]
    pub fn with_req(self, replacement: ReqId) -> (reply: Self)
        ensures
            reply.req() == replacement,
            reply.answer() == self.answer(),
    {
        match self {
            DatabaseReply::Opened { .. } => DatabaseReply::Opened { req: replacement },
            DatabaseReply::Closed { .. } => DatabaseReply::Closed { req: replacement },
            DatabaseReply::Read { bytes, eof, .. } => DatabaseReply::Read {
                req: replacement,
                bytes,
                eof,
            },
            DatabaseReply::Written { sequence, .. } => DatabaseReply::Written {
                req: replacement,
                sequence,
            },
            DatabaseReply::Truncated { sequence, .. } => DatabaseReply::Truncated {
                req: replacement,
                sequence,
            },
            DatabaseReply::FileSize { size, .. } => DatabaseReply::FileSize {
                req: replacement,
                size,
            },
            DatabaseReply::Access { exists, .. } => DatabaseReply::Access {
                req: replacement,
                exists,
            },
            DatabaseReply::Stat { exists, size, .. } => DatabaseReply::Stat {
                req: replacement,
                exists,
                size,
            },
            DatabaseReply::Deleted { sequence, .. } => DatabaseReply::Deleted {
                req: replacement,
                sequence,
            },
            DatabaseReply::Synced { sequence, .. } => DatabaseReply::Synced {
                req: replacement,
                sequence,
            },
            DatabaseReply::Failed { error, .. } => DatabaseReply::Failed {
                req: replacement,
                error,
            },
        }
    }
}

/// What a request achieved, before it is addressed to a caller.
#[derive(Clone, PartialEq, Eq, Debug)]
pub enum DatabaseSuccess {
    Opened,
    Closed,
    Read { bytes: Vec<u8>, eof: bool },
    Written { sequence: u64 },
    Truncated { sequence: u64 },
    FileSize { size: u64 },
    Access { exists: bool },
    Stat { exists: bool, size: u64 },
    Deleted { sequence: u64 },
    Synced { sequence: u64 },
}

impl DatabaseSuccess {
    pub open spec fn answer(&self) -> AnswerView {
        match *self {
            DatabaseSuccess::Opened => AnswerView::Opened,
            DatabaseSuccess::Closed => AnswerView::Closed,
            DatabaseSuccess::Read { bytes, eof } => AnswerView::Read { bytes: bytes@, eof },
            DatabaseSuccess::Written { sequence } => AnswerView::Written { sequence },
            DatabaseSuccess::Truncated { sequence } => AnswerView::Truncated { sequence },
            DatabaseSuccess::FileSize { size } => AnswerView::FileSize { size },
            DatabaseSuccess::Access { exists } => AnswerView::Access { exists },
            DatabaseSuccess::Stat { exists, size } => AnswerView::Stat { exists, size },
            DatabaseSuccess::Deleted { sequence } => AnswerView::Deleted { sequence },
            DatabaseSuccess::Synced { sequence } => AnswerView::Synced { sequence },
        }
    }
}

pub type DatabaseResult = Result<DatabaseSuccess, DatabaseError>;

/// The reply to request `req`.
pub fn reply_to(req: ReqId, result: DatabaseResult) -> (reply: DatabaseReply)
    ensures
        reply.req() == req,
        reply.answer() == (match result {
            Ok(success) => success.answer(),
            Err(error) => AnswerView::Failed { error },
        }),
{
    match result {
        Ok(DatabaseSuccess::Opened) => DatabaseReply::Opened { req },
        Ok(DatabaseSuccess::Closed) => DatabaseReply::Closed { req },
        Ok(DatabaseSuccess::Read { bytes, eof }) => DatabaseReply::Read { req, bytes, eof },
        Ok(DatabaseSuccess::Written { sequence }) => DatabaseReply::Written { req, sequence },
        Ok(DatabaseSuccess::Truncated { sequence }) => DatabaseReply::Truncated { req, sequence },
        Ok(DatabaseSuccess::FileSize { size }) => DatabaseReply::FileSize { req, size },
        Ok(DatabaseSuccess::Access { exists }) => DatabaseReply::Access { req, exists },
        Ok(DatabaseSuccess::Stat { exists, size }) => DatabaseReply::Stat { req, exists, size },
        Ok(DatabaseSuccess::Deleted { sequence }) => DatabaseReply::Deleted { req, sequence },
        Ok(DatabaseSuccess::Synced { sequence }) => DatabaseReply::Synced { req, sequence },
        Err(error) => DatabaseReply::Failed { req, error },
    }
}

} // verus!
