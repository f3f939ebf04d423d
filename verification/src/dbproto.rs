//! Bounded, checksummed guest protocol for durable `SQLite` file operations.
//!
//! The trusted VM identity is supplied to [`decode_request`] by the host
//! listener; it is intentionally absent from guest-controlled bytes.

use crate::database::{
    AnswerView, AttachmentId, DatabaseError, DatabaseFile, DatabaseOp, DatabaseReply,
    DatabaseRequest, OpView, MAX_DATABASE_IO,
};
use crate::format::{
    a_cut_frame_is_no_frame, a_damaged_frame_is_no_frame, frame, le16, le32, le64,
    lemma_frame_injective, lemma_frame_len, lemma_takes_split, open_frame, seal_frame, take_u16,
    take_u32, take_u64, take_u8, Dec, DecodeError, Enc,
};
use crate::types::{ReqId, VmId, VsetId};
use vstd::prelude::*;

verus! {

broadcast use crate::format::group_le_bytes;

/// `BDQ1`, least significant byte first.
pub const MAGIC_DATABASE_REQUEST: u32 = 0x3151_4442;

/// `BDP1`, least significant byte first.
pub const MAGIC_DATABASE_REPLY: u32 = 0x3150_4442;

/// Frame header, largest payload, and room for the fields around it.
pub const MAX_DATABASE_FRAME: usize = 12 + MAX_DATABASE_IO + 64;

// ---------------------------------------------------------------------------
// Layout
// ---------------------------------------------------------------------------

pub open spec fn file_tag(file: DatabaseFile) -> u8 {
    match file {
        DatabaseFile::Main => 0,
        DatabaseFile::Wal => 1,
        DatabaseFile::Journal => 2,
    }
}

pub open spec fn bool_tag(value: bool) -> u8 {
    if value {
        1
    } else {
        0
    }
}

pub open spec fn error_tag(error: DatabaseError) -> u8 {
    match error {
        DatabaseError::NotAttached => 0,
        DatabaseError::StaleAttachment => 1,
        DatabaseError::Draining => 2,
        DatabaseError::InvalidHandle => 3,
        DatabaseError::AlreadyOpen => 4,
        DatabaseError::NotFound => 5,
        DatabaseError::InvalidRequest => 6,
        DatabaseError::TooLarge => 7,
        DatabaseError::Busy => 8,
        DatabaseError::Io => 9,
    }
}

/// The fields of an operation: a tag and its arguments.
pub open spec fn op_bytes(op: OpView) -> Seq<u8> {
    match op {
        OpView::Open { handle, file, create } => seq![0u8] + le64(handle) + seq![file_tag(file)]
            + seq![bool_tag(create)],
        OpView::Close { handle } => seq![1u8] + le64(handle),
        OpView::Read { handle, offset, len } => seq![2u8] + le64(handle) + le64(offset) + le32(
            len,
        ),
        OpView::Write { handle, offset, bytes } => seq![3u8] + le64(handle) + le64(offset) + le32(
            bytes.len() as u32,
        ) + bytes,
        OpView::Truncate { handle, size } => seq![4u8] + le64(handle) + le64(size),
        OpView::FileSize { handle } => seq![5u8] + le64(handle),
        OpView::Access { file } => seq![6u8] + seq![file_tag(file)],
        OpView::Delete { file } => seq![7u8] + seq![file_tag(file)],
        OpView::Sync { handle } => seq![8u8] + le64(handle),
        OpView::Stat { file } => seq![9u8] + seq![file_tag(file)],
    }
}

/// No operation moves more than [`MAX_DATABASE_IO`] bytes.
pub open spec fn op_bounded(op: OpView) -> bool {
    match op {
        OpView::Read { len, .. } => len <= MAX_DATABASE_IO,
        OpView::Write { bytes, .. } => bytes.len() <= MAX_DATABASE_IO,
        _ => true,
    }
}

/// A request's payload: version, correlation, vset, attachment generation and
/// operation. The VM is not part of it.
pub open spec fn request_payload(req: ReqId, vset: VsetId, generation: u64, op: OpView) -> Seq<u8> {
    le16(1) + le64(req.0) + le64(vset.0) + le64(generation) + op_bytes(op)
}

/// The frame that carries `request`.
pub open spec fn request_frame(request: DatabaseRequest) -> Seq<u8> {
    frame(
        MAGIC_DATABASE_REQUEST,
        request_payload(request.req, request.vset, request.attachment.generation, request.op@),
    )
}

/// The fields of an answer: a tag and its values.
pub open spec fn answer_bytes(answer: AnswerView) -> Seq<u8> {
    match answer {
        AnswerView::Opened => seq![0u8],
        AnswerView::Closed => seq![1u8],
        AnswerView::Read { bytes, eof } => seq![2u8] + seq![bool_tag(eof)] + le32(
            bytes.len() as u32,
        ) + bytes,
        AnswerView::Written { sequence } => seq![3u8] + le64(sequence),
        AnswerView::Truncated { sequence } => seq![4u8] + le64(sequence),
        AnswerView::FileSize { size } => seq![5u8] + le64(size),
        AnswerView::Access { exists } => seq![6u8] + seq![bool_tag(exists)],
        AnswerView::Deleted { sequence } => seq![7u8] + le64(sequence),
        AnswerView::Synced { sequence } => seq![8u8] + le64(sequence),
        AnswerView::Failed { error } => seq![9u8] + seq![error_tag(error)],
        AnswerView::Stat { exists, size } => seq![10u8] + seq![bool_tag(exists)] + le64(size),
    }
}

/// No answer returns more than [`MAX_DATABASE_IO`] bytes.
pub open spec fn answer_bounded(answer: AnswerView) -> bool {
    match answer {
        AnswerView::Read { bytes, .. } => bytes.len() <= MAX_DATABASE_IO,
        _ => true,
    }
}

/// A reply's payload: version, correlation and answer.
pub open spec fn reply_payload(req: ReqId, answer: AnswerView) -> Seq<u8> {
    le16(1) + le64(req.0) + answer_bytes(answer)
}

/// The frame that carries `reply`.
pub open spec fn reply_frame(reply: DatabaseReply) -> Seq<u8> {
    frame(MAGIC_DATABASE_REPLY, reply_payload(reply.req(), reply.answer()))
}

// ---------------------------------------------------------------------------
// Reading the layout back
// ---------------------------------------------------------------------------

spec fn file_of(tag: u8) -> Option<DatabaseFile> {
    if tag == 0 {
        Some(DatabaseFile::Main)
    } else if tag == 1 {
        Some(DatabaseFile::Wal)
    } else if tag == 2 {
        Some(DatabaseFile::Journal)
    } else {
        None
    }
}

spec fn bool_of(tag: u8) -> Option<bool> {
    if tag == 0 {
        Some(false)
    } else if tag == 1 {
        Some(true)
    } else {
        None
    }
}

spec fn error_of(tag: u8) -> Option<DatabaseError> {
    if tag == 0 {
        Some(DatabaseError::NotAttached)
    } else if tag == 1 {
        Some(DatabaseError::StaleAttachment)
    } else if tag == 2 {
        Some(DatabaseError::Draining)
    } else if tag == 3 {
        Some(DatabaseError::InvalidHandle)
    } else if tag == 4 {
        Some(DatabaseError::AlreadyOpen)
    } else if tag == 5 {
        Some(DatabaseError::NotFound)
    } else if tag == 6 {
        Some(DatabaseError::InvalidRequest)
    } else if tag == 7 {
        Some(DatabaseError::TooLarge)
    } else if tag == 8 {
        Some(DatabaseError::Busy)
    } else if tag == 9 {
        Some(DatabaseError::Io)
    } else {
        None
    }
}

type Taken<T> = Option<(T, Seq<u8>)>;

spec fn take_file(s: Seq<u8>) -> Taken<DatabaseFile> {
    match take_u8(s) {
        Some((tag, rest)) => match file_of(tag) {
            Some(file) => Some((file, rest)),
            None => None,
        },
        None => None,
    }
}

spec fn take_bool(s: Seq<u8>) -> Taken<bool> {
    match take_u8(s) {
        Some((tag, rest)) => match bool_of(tag) {
            Some(value) => Some((value, rest)),
            None => None,
        },
        None => None,
    }
}

spec fn take_error(s: Seq<u8>) -> Taken<DatabaseError> {
    match take_u8(s) {
        Some((tag, rest)) => match error_of(tag) {
            Some(value) => Some((value, rest)),
            None => None,
        },
        None => None,
    }
}

/// A length of at most [`MAX_DATABASE_IO`], then that many bytes.
spec fn take_block(s: Seq<u8>) -> Taken<Seq<u8>> {
    match take_u32(s) {
        Some((len, rest)) => if len <= MAX_DATABASE_IO && len <= rest.len() {
            Some((rest.take(len as int), rest.skip(len as int)))
        } else {
            None
        },
        None => None,
    }
}

spec fn take_pair(s: Seq<u8>) -> Taken<(u64, u64)> {
    match take_u64(s) {
        Some((a, rest)) => match take_u64(rest) {
            Some((b, rest)) => Some(((a, b), rest)),
            None => None,
        },
        None => None,
    }
}

spec fn take_op(s: Seq<u8>) -> Taken<OpView> {
    match take_u8(s) {
        None => None,
        Some((tag, s)) => if tag == 0 {
            match take_u64(s) {
                None => None,
                Some((handle, s)) => match take_file(s) {
                    None => None,
                    Some((file, s)) => match take_bool(s) {
                        None => None,
                        Some((create, s)) => Some((OpView::Open { handle, file, create }, s)),
                    },
                },
            }
        } else if tag == 1 {
            match take_u64(s) {
                None => None,
                Some((handle, s)) => Some((OpView::Close { handle }, s)),
            }
        } else if tag == 2 {
            match take_pair(s) {
                None => None,
                Some(((handle, offset), s)) => match take_u32(s) {
                    None => None,
                    Some((len, s)) => if len <= MAX_DATABASE_IO {
                        Some((OpView::Read { handle, offset, len }, s))
                    } else {
                        None
                    },
                },
            }
        } else if tag == 3 {
            match take_pair(s) {
                None => None,
                Some(((handle, offset), s)) => match take_block(s) {
                    None => None,
                    Some((bytes, s)) => Some((OpView::Write { handle, offset, bytes }, s)),
                },
            }
        } else if tag == 4 {
            match take_pair(s) {
                None => None,
                Some(((handle, size), s)) => Some((OpView::Truncate { handle, size }, s)),
            }
        } else if tag == 5 {
            match take_u64(s) {
                None => None,
                Some((handle, s)) => Some((OpView::FileSize { handle }, s)),
            }
        } else if tag == 6 {
            match take_file(s) {
                None => None,
                Some((file, s)) => Some((OpView::Access { file }, s)),
            }
        } else if tag == 7 {
            match take_file(s) {
                None => None,
                Some((file, s)) => Some((OpView::Delete { file }, s)),
            }
        } else if tag == 8 {
            match take_u64(s) {
                None => None,
                Some((handle, s)) => Some((OpView::Sync { handle }, s)),
            }
        } else if tag == 9 {
            match take_file(s) {
                None => None,
                Some((file, s)) => Some((OpView::Stat { file }, s)),
            }
        } else {
            None
        },
    }
}

spec fn take_answer(s: Seq<u8>) -> Taken<AnswerView> {
    match take_u8(s) {
        None => None,
        Some((tag, s)) => if tag == 0 {
            Some((AnswerView::Opened, s))
        } else if tag == 1 {
            Some((AnswerView::Closed, s))
        } else if tag == 2 {
            match take_bool(s) {
                None => None,
                Some((eof, s)) => match take_block(s) {
                    None => None,
                    Some((bytes, s)) => Some((AnswerView::Read { bytes, eof }, s)),
                },
            }
        } else if tag == 6 {
            match take_bool(s) {
                None => None,
                Some((exists_flag, s)) => Some((AnswerView::Access { exists: exists_flag }, s)),
            }
        } else if tag == 9 {
            match take_error(s) {
                None => None,
                Some((error, s)) => Some((AnswerView::Failed { error }, s)),
            }
        } else if tag == 10 {
            match take_bool(s) {
                None => None,
                Some((exists_flag, s)) => match take_u64(s) {
                    None => None,
                    Some((size, s)) => Some((AnswerView::Stat { exists: exists_flag, size }, s)),
                },
            }
        } else {
            match take_u64(s) {
                None => None,
                Some((n, s)) => if tag == 3 {
                    Some((AnswerView::Written { sequence: n }, s))
                } else if tag == 4 {
                    Some((AnswerView::Truncated { sequence: n }, s))
                } else if tag == 5 {
                    Some((AnswerView::FileSize { size: n }, s))
                } else if tag == 7 {
                    Some((AnswerView::Deleted { sequence: n }, s))
                } else if tag == 8 {
                    Some((AnswerView::Synced { sequence: n }, s))
                } else {
                    None
                },
            }
        },
    }
}

proof fn lemma_regroup(a: Seq<u8>, b: Seq<u8>, c: Seq<u8>, d: Seq<u8>, e: Seq<u8>)
    ensures
        a + b + c == a + (b + c),
        a + b + c + d == a + (b + (c + d)),
        a + b + c + d + e == a + (b + (c + (d + e))),
{
    assert(a + b + c =~= a + (b + c));
    assert(a + b + c + d =~= a + (b + (c + d)));
    assert(a + b + c + d + e =~= a + (b + (c + (d + e))));
}

/// Reading back a written operation gives the operation.
#[verifier::spinoff_prover]
#[verifier::rlimit(50)]
proof fn lemma_take_op_of_bytes(op: OpView, rest: Seq<u8>)
    requires
        op_bounded(op),
    ensures
        take_op(op_bytes(op) + rest) == Some((op, rest)),
{
    match op {
        OpView::Open { handle, file, create } => {
            lemma_regroup(
                seq![0u8],
                le64(handle),
                seq![file_tag(file)],
                seq![bool_tag(create)],
                rest,
            );
        },
        OpView::Close { handle } => {
            lemma_regroup(seq![1u8], le64(handle), rest, rest, rest);
        },
        OpView::Read { handle, offset, len } => {
            lemma_regroup(seq![2u8], le64(handle), le64(offset), le32(len), rest);
        },
        OpView::Write { handle, offset, bytes } => {
            let len = le32(bytes.len() as u32);
            lemma_regroup(seq![3u8], le64(handle), le64(offset), len, bytes);
            lemma_regroup(seq![3u8], le64(handle), le64(offset), len + bytes, rest);
            lemma_regroup(len, bytes, rest, rest, rest);
        },
        OpView::Truncate { handle, size } => {
            lemma_regroup(seq![4u8], le64(handle), le64(size), rest, rest);
        },
        OpView::FileSize { handle } => {
            lemma_regroup(seq![5u8], le64(handle), rest, rest, rest);
        },
        OpView::Access { file } => {
            lemma_regroup(seq![6u8], seq![file_tag(file)], rest, rest, rest);
        },
        OpView::Delete { file } => {
            lemma_regroup(seq![7u8], seq![file_tag(file)], rest, rest, rest);
        },
        OpView::Sync { handle } => {
            lemma_regroup(seq![8u8], le64(handle), rest, rest, rest);
        },
        OpView::Stat { file } => {
            lemma_regroup(seq![9u8], seq![file_tag(file)], rest, rest, rest);
        },
    }
}

proof fn lemma_take_answer_of_bytes(answer: AnswerView, rest: Seq<u8>)
    requires
        answer_bounded(answer),
    ensures
        take_answer(answer_bytes(answer) + rest) == Some((answer, rest)),
{
    let s = answer_bytes(answer) + rest;
    match answer {
        AnswerView::Opened => {},
        AnswerView::Closed => {},
        AnswerView::Read { bytes, eof } => {
            let t1 = le32(bytes.len() as u32) + (bytes + rest);
            assert(s =~= seq![2u8] + (seq![bool_tag(eof)] + t1));
            assert((bytes + rest).take(bytes.len() as int) =~= bytes);
            assert((bytes + rest).skip(bytes.len() as int) =~= rest);
        },
        AnswerView::Written { sequence } => {
            assert(s =~= seq![3u8] + (le64(sequence) + rest));
        },
        AnswerView::Truncated { sequence } => {
            assert(s =~= seq![4u8] + (le64(sequence) + rest));
        },
        AnswerView::FileSize { size } => {
            assert(s =~= seq![5u8] + (le64(size) + rest));
        },
        AnswerView::Access { exists: e } => {
            assert(s =~= seq![6u8] + (seq![bool_tag(e)] + rest));
        },
        AnswerView::Deleted { sequence } => {
            assert(s =~= seq![7u8] + (le64(sequence) + rest));
        },
        AnswerView::Synced { sequence } => {
            assert(s =~= seq![8u8] + (le64(sequence) + rest));
        },
        AnswerView::Failed { error } => {
            assert(s =~= seq![9u8] + (seq![error_tag(error)] + rest));
        },
        AnswerView::Stat { exists: e, size } => {
            assert(s =~= seq![10u8] + (seq![bool_tag(e)] + (le64(size) + rest)));
        },
    }
}

/// What is read as an operation was written as that operation.
#[verifier::spinoff_prover]
#[verifier::rlimit(50)]
proof fn lemma_take_op_splits(s: Seq<u8>)
    ensures
        take_op(s) matches Some((op, rest)) ==> s == op_bytes(op) + rest && op_bounded(op),
{
    if let Some((op, rest)) = take_op(s) {
        lemma_takes_split(s);
        let s1 = s.skip(1);
        lemma_takes_split(s1);
        match op {
            OpView::Open { handle, file, create } => {
                lemma_takes_split(s1.skip(8));
                lemma_takes_split(s1.skip(8).skip(1));
                lemma_regroup(
                    seq![0u8],
                    le64(handle),
                    seq![file_tag(file)],
                    seq![bool_tag(create)],
                    rest,
                );
            },
            OpView::Read { handle, offset, len } => {
                lemma_takes_split(s1.skip(8));
                lemma_takes_split(s1.skip(8).skip(8));
                lemma_regroup(seq![2u8], le64(handle), le64(offset), le32(len), rest);
            },
            OpView::Write { handle, offset, bytes } => {
                lemma_takes_split(s1.skip(8));
                let s17 = s1.skip(8).skip(8);
                lemma_takes_split(s17);
                let tail = s17.skip(4);
                assert(tail =~= bytes + rest);
                let len = le32(bytes.len() as u32);
                let head = seq![3u8] + le64(handle) + le64(offset) + len;
                assert(head + bytes + rest =~= head + (bytes + rest));
                lemma_regroup(seq![3u8], le64(handle), le64(offset), len, bytes + rest);
            },
            OpView::Truncate { handle, size } => {
                lemma_takes_split(s1.skip(8));
                lemma_regroup(seq![4u8], le64(handle), le64(size), rest, rest);
            },
            OpView::Close { handle } => {
                lemma_regroup(seq![1u8], le64(handle), rest, rest, rest);
            },
            OpView::FileSize { handle } => {
                lemma_regroup(seq![5u8], le64(handle), rest, rest, rest);
            },
            OpView::Access { file } => {
                lemma_regroup(seq![6u8], seq![file_tag(file)], rest, rest, rest);
            },
            OpView::Delete { file } => {
                lemma_regroup(seq![7u8], seq![file_tag(file)], rest, rest, rest);
            },
            OpView::Sync { handle } => {
                lemma_regroup(seq![8u8], le64(handle), rest, rest, rest);
            },
            OpView::Stat { file } => {
                lemma_regroup(seq![9u8], seq![file_tag(file)], rest, rest, rest);
            },
        }
    }
}

#[verifier::rlimit(30)]
proof fn lemma_take_answer_splits(s: Seq<u8>)
    ensures
        take_answer(s) matches Some((answer, rest)) ==> s == answer_bytes(answer) + rest
            && answer_bounded(answer),
{
    lemma_takes_split(s);
    if let Some((answer, rest)) = take_answer(s) {
        let s1 = s.skip(1);
        let s2 = s1.skip(1);
        lemma_takes_split(s1);
        lemma_takes_split(s2);
        match answer {
            AnswerView::Read { bytes, .. } => {
                let tail = s2.skip(4);
                assert(tail =~= tail.take(bytes.len() as int) + tail.skip(bytes.len() as int));
                assert(s =~= answer_bytes(answer) + rest);
            },
            _ => {
                assert(s =~= answer_bytes(answer) + rest);
            },
        }
    }
}

// ---------------------------------------------------------------------------
// Laws
// ---------------------------------------------------------------------------

/// Two bounded requests travel in the same bytes only if they agree on
/// everything but the VM: a frame can be read in one way only.
pub proof fn request_frames_are_unambiguous(a: DatabaseRequest, b: DatabaseRequest)
    requires
        op_bounded(a.op@),
        op_bounded(b.op@),
        request_frame(a) == request_frame(b),
    ensures
        a.req == b.req,
        a.vset == b.vset,
        a.attachment.generation == b.attachment.generation,
        a.op@ == b.op@,
{
    let pa = request_payload(a.req, a.vset, a.attachment.generation, a.op@);
    let pb = request_payload(b.req, b.vset, b.attachment.generation, b.op@);
    lemma_frame_injective(MAGIC_DATABASE_REQUEST, pa, pb);
    lemma_request_payload_reads_back(a.req, a.vset, a.attachment.generation, a.op@);
    lemma_request_payload_reads_back(b.req, b.vset, b.attachment.generation, b.op@);
}

/// Two bounded replies travel in the same bytes only if they are the same.
pub proof fn reply_frames_are_unambiguous(a: DatabaseReply, b: DatabaseReply)
    requires
        answer_bounded(a.answer()),
        answer_bounded(b.answer()),
        reply_frame(a) == reply_frame(b),
    ensures
        a.req() == b.req(),
        a.answer() == b.answer(),
{
    let pa = reply_payload(a.req(), a.answer());
    let pb = reply_payload(b.req(), b.answer());
    lemma_frame_injective(MAGIC_DATABASE_REPLY, pa, pb);
    lemma_reply_payload_reads_back(a.req(), a.answer());
    lemma_reply_payload_reads_back(b.req(), b.answer());
}

/// Damage is seen: a request's frame with one byte changed, with one bit flipped,
/// or cut short anywhere is the frame of no request, and neither is anything
/// longer than the cap. So none of them is ever accepted.
pub proof fn damaged_requests_are_refused(
    request: DatabaseRequest,
    at: int,
    byte: u8,
    bit: u8,
    keep: int,
    long: Seq<u8>,
    other: DatabaseRequest,
)
    requires
        op_bounded(request.op@),
        op_bounded(other.op@),
        0 <= at < request_frame(request).len(),
        byte != request_frame(request)[at],
        bit < 8,
        0 <= keep < request_frame(request).len(),
        long.len() > MAX_DATABASE_FRAME,
    ensures
        request_frame(request).update(at, byte) != request_frame(other),
        request_frame(request).update(at, request_frame(request)[at] ^ (1u8 << bit))
            != request_frame(other),
        request_frame(request).take(keep) != request_frame(other),
        long != request_frame(other),
{
    let p = request_payload(
        request.req,
        request.vset,
        request.attachment.generation,
        request.op@,
    );
    let q = request_payload(other.req, other.vset, other.attachment.generation, other.op@);
    lemma_frame_len(MAGIC_DATABASE_REQUEST, p);
    lemma_frame_len(MAGIC_DATABASE_REQUEST, q);
    a_damaged_frame_is_no_frame(MAGIC_DATABASE_REQUEST, p, at, byte, q);
    let was = request_frame(request)[at];
    assert(bit < 8 ==> was ^ (1u8 << bit) != was) by (bit_vector);
    a_damaged_frame_is_no_frame(MAGIC_DATABASE_REQUEST, p, at, was ^ (1u8 << bit), q);
    a_cut_frame_is_no_frame(MAGIC_DATABASE_REQUEST, p, keep, q);
}

/// The same of replies.
pub proof fn damaged_replies_are_refused(
    reply: DatabaseReply,
    at: int,
    byte: u8,
    keep: int,
    other: DatabaseReply,
)
    requires
        answer_bounded(reply.answer()),
        answer_bounded(other.answer()),
        0 <= at < reply_frame(reply).len(),
        byte != reply_frame(reply)[at],
        0 <= keep < reply_frame(reply).len(),
    ensures
        reply_frame(reply).update(at, byte) != reply_frame(other),
        reply_frame(reply).take(keep) != reply_frame(other),
{
    let p = reply_payload(reply.req(), reply.answer());
    let q = reply_payload(other.req(), other.answer());
    lemma_frame_len(MAGIC_DATABASE_REPLY, p);
    lemma_frame_len(MAGIC_DATABASE_REPLY, q);
    a_damaged_frame_is_no_frame(MAGIC_DATABASE_REPLY, p, at, byte, q);
    a_cut_frame_is_no_frame(MAGIC_DATABASE_REPLY, p, keep, q);
}

/// The identity of the VM never reaches the wire: requests that differ only
/// in it have the same frame.
pub proof fn vm_identity_is_out_of_band(request: DatabaseRequest, vm: VmId)
    ensures
        request_frame(request) == request_frame(
            DatabaseRequest {
                attachment: AttachmentId { vm, ..request.attachment },
                ..request
            },
        ),
{
}

/// Every bounded request and reply fits under the frame cap.
pub proof fn frames_fit_the_cap(request: DatabaseRequest, reply: DatabaseReply)
    requires
        op_bounded(request.op@),
        answer_bounded(reply.answer()),
    ensures
        request_frame(request).len() <= MAX_DATABASE_FRAME,
        reply_frame(reply).len() <= MAX_DATABASE_FRAME,
{
    lemma_frame_len(
        MAGIC_DATABASE_REQUEST,
        request_payload(request.req, request.vset, request.attachment.generation, request.op@),
    );
    lemma_frame_len(
        MAGIC_DATABASE_REPLY,
        reply_payload(reply.req(), reply.answer()),
    );
}

spec fn take_request(s: Seq<u8>) -> Option<(u64, u64, u64, OpView)> {
    match take_u16(s) {
        None => None,
        Some((version, s)) => if version != 1 {
            None
        } else {
            match take_u64(s) {
                None => None,
                Some((req, s)) => match take_pair(s) {
                    None => None,
                    Some(((vset, generation), s)) => match take_op(s) {
                        None => None,
                        Some((op, s)) => if s.len() == 0 {
                            Some((req, vset, generation, op))
                        } else {
                            None
                        },
                    },
                },
            }
        },
    }
}

spec fn take_reply(s: Seq<u8>) -> Option<(u64, AnswerView)> {
    match take_u16(s) {
        None => None,
        Some((version, s)) => if version != 1 {
            None
        } else {
            match take_u64(s) {
                None => None,
                Some((req, s)) => match take_answer(s) {
                    None => None,
                    Some((answer, s)) => if s.len() == 0 {
                        Some((req, answer))
                    } else {
                        None
                    },
                },
            }
        },
    }
}

proof fn lemma_request_payload_reads_back(req: ReqId, vset: VsetId, generation: u64, op: OpView)
    requires
        op_bounded(op),
    ensures
        take_request(request_payload(req, vset, generation, op)) == Some(
            (req.0, vset.0, generation, op),
        ),
{
    let t = op_bytes(op);
    lemma_take_op_of_bytes(op, Seq::empty());
    assert(request_payload(req, vset, generation, op) =~= le16(1) + (le64(req.0) + (le64(vset.0)
        + (le64(generation) + t))));
}

proof fn lemma_reply_payload_reads_back(req: ReqId, answer: AnswerView)
    requires
        answer_bounded(answer),
    ensures
        take_reply(reply_payload(req, answer)) == Some((req.0, answer)),
{
    let t = answer_bytes(answer);
    lemma_take_answer_of_bytes(answer, Seq::empty());
    assert(reply_payload(req, answer) =~= le16(1) + (le64(req.0) + t));
}

proof fn lemma_take_request_splits(s: Seq<u8>)
    ensures
        take_request(s) matches Some((req, vset, generation, op)) ==> s == request_payload(
            ReqId(req),
            VsetId(vset),
            generation,
            op,
        ) && op_bounded(op),
{
    if let Some((req, vset, generation, op)) = take_request(s) {
        lemma_takes_split(s);
        lemma_takes_split(s.skip(2));
        lemma_takes_split(s.skip(2).skip(8));
        lemma_takes_split(s.skip(2).skip(8).skip(8));
        lemma_take_op_splits(s.skip(2).skip(8).skip(8).skip(8));
    }
}

proof fn lemma_take_reply_splits(s: Seq<u8>)
    ensures
        take_reply(s) matches Some((req, answer)) ==> s == reply_payload(ReqId(req), answer)
            && answer_bounded(answer),
{
    if let Some((req, answer)) = take_reply(s) {
        lemma_takes_split(s);
        lemma_takes_split(s.skip(2));
        lemma_take_answer_splits(s.skip(2).skip(8));
    }
}

// ---------------------------------------------------------------------------
// Encoding and decoding
// ---------------------------------------------------------------------------

fn encode_file(e: &mut Enc, file: DatabaseFile)
    ensures
        final(e)@ == old(e)@ + seq![file_tag(file)],
{
    e.u8(
        match file {
            DatabaseFile::Main => 0,
            DatabaseFile::Wal => 1,
            DatabaseFile::Journal => 2,
        },
    );
}

fn encode_bool(e: &mut Enc, value: bool)
    ensures
        final(e)@ == old(e)@ + seq![bool_tag(value)],
{
    e.u8(
        if value {
            1
        } else {
            0
        },
    );
}

fn decode_file(d: &mut Dec<'_>) -> (result: Result<DatabaseFile, DecodeError>)
    ensures
        match result {
            Ok(file) => take_file(old(d)@) == Some((file, final(d)@)),
            Err(_) => take_file(old(d)@) is None,
        },
{
    match d.u8()? {
        0 => Ok(DatabaseFile::Main),
        1 => Ok(DatabaseFile::Wal),
        2 => Ok(DatabaseFile::Journal),
        _ => Err(DecodeError),
    }
}

fn decode_bool(d: &mut Dec<'_>) -> (result: Result<bool, DecodeError>)
    ensures
        match result {
            Ok(value) => take_bool(old(d)@) == Some((value, final(d)@)),
            Err(_) => take_bool(old(d)@) is None,
        },
{
    match d.u8()? {
        0 => Ok(false),
        1 => Ok(true),
        _ => Err(DecodeError),
    }
}

fn decode_block(d: &mut Dec<'_>) -> (result: Result<Vec<u8>, DecodeError>)
    ensures
        match result {
            Ok(bytes) => take_block(old(d)@) == Some((bytes@, final(d)@)),
            Err(_) => take_block(old(d)@) is None,
        },
{
    let len: usize = d.u32()? as usize;
    if len > MAX_DATABASE_IO {
        return Err(DecodeError);
    }
    let ghost before = d@;
    let taken: &[u8] = d.bytes(len)?;
    let mut bytes: Vec<u8> = Vec::new();
    bytes.extend_from_slice(taken);
    proof {
        assert(bytes@ =~= taken@);
        assert(before.take(len as int) =~= taken@);
        assert(before.skip(len as int) =~= d@);
    }
    Ok(bytes)
}

fn encode_op(e: &mut Enc, op: &DatabaseOp)
    requires
        op matches DatabaseOp::Write { bytes, .. } ==> bytes@.len() <= MAX_DATABASE_IO,
    ensures
        final(e)@ == old(e)@ + op_bytes(op@),
{
    let ghost base = e@;
    match op {
        DatabaseOp::Open { handle, file, create } => {
            e.u8(0);
            e.u64(*handle);
            encode_file(e, *file);
            encode_bool(e, *create);
        },
        DatabaseOp::Close { handle } => {
            e.u8(1);
            e.u64(*handle);
        },
        DatabaseOp::Read { handle, offset, len } => {
            e.u8(2);
            e.u64(*handle);
            e.u64(*offset);
            e.u32(*len);
        },
        DatabaseOp::Write { handle, offset, bytes } => {
            e.u8(3);
            e.u64(*handle);
            e.u64(*offset);
            e.u32(bytes.len() as u32);
            e.bytes(bytes);
        },
        DatabaseOp::Truncate { handle, size } => {
            e.u8(4);
            e.u64(*handle);
            e.u64(*size);
        },
        DatabaseOp::FileSize { handle } => {
            e.u8(5);
            e.u64(*handle);
        },
        DatabaseOp::Access { file } => {
            e.u8(6);
            encode_file(e, *file);
        },
        DatabaseOp::Delete { file } => {
            e.u8(7);
            encode_file(e, *file);
        },
        DatabaseOp::Sync { handle } => {
            e.u8(8);
            e.u64(*handle);
        },
        DatabaseOp::Stat { file } => {
            e.u8(9);
            encode_file(e, *file);
        },
    }
    proof {
        assert(e@ =~= base + op_bytes(op@));
    }
}

fn decode_op(d: &mut Dec<'_>) -> (result: Result<DatabaseOp, DecodeError>)
    ensures
        match result {
            Ok(op) => take_op(old(d)@) == Some((op@, final(d)@)),
            Err(_) => take_op(old(d)@) is None,
        },
{
    let op = match d.u8()? {
        0 => {
            let handle: u64 = d.u64()?;
            let file = decode_file(d)?;
            let create = decode_bool(d)?;
            DatabaseOp::Open { handle, file, create }
        },
        1 => DatabaseOp::Close { handle: d.u64()? },
        2 => {
            let handle: u64 = d.u64()?;
            let offset: u64 = d.u64()?;
            let len: u32 = d.u32()?;
            if len as usize > MAX_DATABASE_IO {
                return Err(DecodeError);
            }
            DatabaseOp::Read { handle, offset, len }
        },
        3 => {
            let handle: u64 = d.u64()?;
            let offset: u64 = d.u64()?;
            let bytes = decode_block(d)?;
            DatabaseOp::Write { handle, offset, bytes }
        },
        4 => {
            let handle: u64 = d.u64()?;
            let size: u64 = d.u64()?;
            DatabaseOp::Truncate { handle, size }
        },
        5 => DatabaseOp::FileSize { handle: d.u64()? },
        6 => DatabaseOp::Access { file: decode_file(d)? },
        7 => DatabaseOp::Delete { file: decode_file(d)? },
        8 => DatabaseOp::Sync { handle: d.u64()? },
        9 => DatabaseOp::Stat { file: decode_file(d)? },
        _ => return Err(DecodeError),
    };
    Ok(op)
}

/// The frame of a request. Of the operations only a write can be too large
/// to send.
pub fn encode_request(request: &DatabaseRequest) -> (bytes: Vec<u8>)
    requires
        request.op matches DatabaseOp::Write { bytes, .. } ==> bytes@.len() <= MAX_DATABASE_IO,
    ensures
        bytes@ == request_frame(*request),
{
    let mut e = Enc::new();
    e.u16(1);
    e.u64(request.req.0);
    e.u64(request.vset.0);
    e.u64(request.attachment.generation);
    encode_op(&mut e, &request.op);
    let payload: Vec<u8> = e.finish();
    seal_frame(MAGIC_DATABASE_REQUEST, &payload)
}

/// The request that `bytes` is the frame of, on behalf of `vm`. Succeeds on
/// exactly the frames of bounded requests.
pub fn decode_request(vm: VmId, bytes: &[u8]) -> (result: Result<DatabaseRequest, DecodeError>)
    ensures
        match result {
            Ok(request) => {
                &&& request.attachment.vm == vm
                &&& op_bounded(request.op@)
                &&& bytes@ == request_frame(request)
            },
            Err(_) => forall|request: DatabaseRequest|
                op_bounded(request.op@) ==> #[trigger] request_frame(request) != bytes@,
        },
{
    proof {
        assert forall|request: DatabaseRequest|
            op_bounded(request.op@) && #[trigger] request_frame(request) == bytes@ implies {
            &&& bytes@.len() <= MAX_DATABASE_FRAME
            &&& exists|p: Seq<u8>|
                p.len() <= u32::MAX && take_request(p) is Some && #[trigger] frame(
                    MAGIC_DATABASE_REQUEST,
                    p,
                ) == bytes@
        } by {
            let p = request_payload(
                request.req,
                request.vset,
                request.attachment.generation,
                request.op@,
            );
            lemma_frame_len(MAGIC_DATABASE_REQUEST, p);
            lemma_request_payload_reads_back(
                request.req,
                request.vset,
                request.attachment.generation,
                request.op@,
            );
        }
    }
    if bytes.len() > MAX_DATABASE_FRAME {
        return Err(DecodeError);
    }
    let payload: &[u8] = open_frame(MAGIC_DATABASE_REQUEST, bytes)?;
    proof {
        lemma_take_request_splits(payload@);
        assert forall|p: Seq<u8>|
            #[trigger] frame(MAGIC_DATABASE_REQUEST, p) == bytes@ implies p == payload@ by {
            lemma_frame_injective(MAGIC_DATABASE_REQUEST, p, payload@);
        }
    }
    let mut d = Dec::new(payload);
    if d.u16()? != 1 {
        return Err(DecodeError);
    }
    let req = ReqId(d.u64()?);
    let vset = VsetId(d.u64()?);
    let attachment = AttachmentId { vm, generation: d.u64()? };
    let op = decode_op(&mut d)?;
    d.finish()?;
    Ok(DatabaseRequest { req, vset, attachment, op })
}

fn encode_error(error: DatabaseError) -> (tag: u8)
    ensures
        tag == error_tag(error),
{
    match error {
        DatabaseError::NotAttached => 0,
        DatabaseError::StaleAttachment => 1,
        DatabaseError::Draining => 2,
        DatabaseError::InvalidHandle => 3,
        DatabaseError::AlreadyOpen => 4,
        DatabaseError::NotFound => 5,
        DatabaseError::InvalidRequest => 6,
        DatabaseError::TooLarge => 7,
        DatabaseError::Busy => 8,
        DatabaseError::Io => 9,
    }
}

fn decode_error(value: u8) -> (result: Result<DatabaseError, DecodeError>)
    ensures
        match result {
            Ok(error) => error_of(value) == Some(error),
            Err(_) => error_of(value) is None,
        },
{
    match value {
        0 => Ok(DatabaseError::NotAttached),
        1 => Ok(DatabaseError::StaleAttachment),
        2 => Ok(DatabaseError::Draining),
        3 => Ok(DatabaseError::InvalidHandle),
        4 => Ok(DatabaseError::AlreadyOpen),
        5 => Ok(DatabaseError::NotFound),
        6 => Ok(DatabaseError::InvalidRequest),
        7 => Ok(DatabaseError::TooLarge),
        8 => Ok(DatabaseError::Busy),
        9 => Ok(DatabaseError::Io),
        _ => Err(DecodeError),
    }
}

/// The frame of a reply. Only a read can be too large to send.
pub fn encode_reply(reply: &DatabaseReply) -> (bytes: Vec<u8>)
    requires
        answer_bounded(reply.answer()),
    ensures
        bytes@ == reply_frame(*reply),
{
    let mut e = Enc::new();
    e.u16(1);
    e.u64(reply.req().0);
    match reply {
        DatabaseReply::Opened { .. } => e.u8(0),
        DatabaseReply::Closed { .. } => e.u8(1),
        DatabaseReply::Read { bytes, eof, .. } => {
            e.u8(2);
            encode_bool(&mut e, *eof);
            e.u32(bytes.len() as u32);
            e.bytes(bytes);
        },
        DatabaseReply::Written { sequence, .. } => {
            e.u8(3);
            e.u64(*sequence);
        },
        DatabaseReply::Truncated { sequence, .. } => {
            e.u8(4);
            e.u64(*sequence);
        },
        DatabaseReply::FileSize { size, .. } => {
            e.u8(5);
            e.u64(*size);
        },
        DatabaseReply::Access { exists, .. } => {
            e.u8(6);
            encode_bool(&mut e, *exists);
        },
        DatabaseReply::Deleted { sequence, .. } => {
            e.u8(7);
            e.u64(*sequence);
        },
        DatabaseReply::Synced { sequence, .. } => {
            e.u8(8);
            e.u64(*sequence);
        },
        DatabaseReply::Failed { error, .. } => {
            e.u8(9);
            e.u8(encode_error(*error));
        },
        DatabaseReply::Stat { exists, size, .. } => {
            e.u8(10);
            encode_bool(&mut e, *exists);
            e.u64(*size);
        },
    }
    let payload: Vec<u8> = e.finish();
    proof {
        assert(payload@ =~= reply_payload(reply.req(), reply.answer()));
    }
    seal_frame(MAGIC_DATABASE_REPLY, &payload)
}

fn decode_answer(d: &mut Dec<'_>, req: ReqId) -> (result: Result<DatabaseReply, DecodeError>)
    ensures
        match result {
            Ok(reply) => {
                &&& reply.req() == req
                &&& take_answer(old(d)@) == Some((reply.answer(), final(d)@))
            },
            Err(_) => take_answer(old(d)@) is None,
        },
{
    let reply = match d.u8()? {
        0 => DatabaseReply::Opened { req },
        1 => DatabaseReply::Closed { req },
        2 => {
            let eof = decode_bool(d)?;
            let bytes = decode_block(d)?;
            DatabaseReply::Read { req, bytes, eof }
        },
        3 => DatabaseReply::Written { req, sequence: d.u64()? },
        4 => DatabaseReply::Truncated { req, sequence: d.u64()? },
        5 => DatabaseReply::FileSize { req, size: d.u64()? },
        6 => DatabaseReply::Access { req, exists: decode_bool(d)? },
        7 => DatabaseReply::Deleted { req, sequence: d.u64()? },
        8 => DatabaseReply::Synced { req, sequence: d.u64()? },
        9 => {
            let tag: u8 = d.u8()?;
            DatabaseReply::Failed { req, error: decode_error(tag)? }
        },
        10 => {
            let exists_flag = decode_bool(d)?;
            let size: u64 = d.u64()?;
            DatabaseReply::Stat { req, exists: exists_flag, size }
        },
        _ => return Err(DecodeError),
    };
    Ok(reply)
}

/// The reply that `bytes` is the frame of. Succeeds on exactly the frames of
/// bounded replies.
pub fn decode_reply(bytes: &[u8]) -> (result: Result<DatabaseReply, DecodeError>)
    ensures
        match result {
            Ok(reply) => answer_bounded(reply.answer()) && bytes@ == reply_frame(reply),
            Err(_) => forall|reply: DatabaseReply|
                answer_bounded(reply.answer()) ==> #[trigger] reply_frame(reply) != bytes@,
        },
{
    proof {
        assert forall|reply: DatabaseReply|
            answer_bounded(reply.answer()) && #[trigger] reply_frame(reply) == bytes@ implies {
            &&& bytes@.len() <= MAX_DATABASE_FRAME
            &&& exists|p: Seq<u8>|
                p.len() <= u32::MAX && take_reply(p) is Some && #[trigger] frame(
                    MAGIC_DATABASE_REPLY,
                    p,
                ) == bytes@
        } by {
            let p = reply_payload(reply.req(), reply.answer());
            lemma_frame_len(MAGIC_DATABASE_REPLY, p);
            lemma_reply_payload_reads_back(reply.req(), reply.answer());
        }
    }
    if bytes.len() > MAX_DATABASE_FRAME {
        return Err(DecodeError);
    }
    let payload: &[u8] = open_frame(MAGIC_DATABASE_REPLY, bytes)?;
    proof {
        lemma_take_reply_splits(payload@);
        assert forall|p: Seq<u8>|
            #[trigger] frame(MAGIC_DATABASE_REPLY, p) == bytes@ implies p == payload@ by {
            lemma_frame_injective(MAGIC_DATABASE_REPLY, p, payload@);
        }
    }
    let mut d = Dec::new(payload);
    if d.u16()? != 1 {
        return Err(DecodeError);
    }
    let req = ReqId(d.u64()?);
    let reply = decode_answer(&mut d, req)?;
    d.finish()?;
    Ok(reply)
}

} // verus!
