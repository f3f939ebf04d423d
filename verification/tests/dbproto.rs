use blockd_core::database::{
    AttachmentId, DatabaseError, DatabaseFile, DatabaseOp, DatabaseReply, DatabaseRequest,
    MAX_DATABASE_IO,
};
use blockd_core::dbproto::{
    decode_reply, decode_request, encode_reply, encode_request, MAX_DATABASE_FRAME,
};
use blockd_core::format::crc32c;
use blockd_core::types::{ReqId, VmId, VsetId};

fn attachment() -> AttachmentId {
    AttachmentId { vm: VmId(44), generation: 9 }
}

fn requests() -> Vec<DatabaseRequest> {
    let ops = vec![
        DatabaseOp::Open { handle: 1, file: DatabaseFile::Main, create: true },
        DatabaseOp::Close { handle: 1 },
        DatabaseOp::Read { handle: 1, offset: 17, len: 31 },
        DatabaseOp::Write { handle: 1, offset: 23, bytes: vec![0xA5; 37] },
        DatabaseOp::Truncate { handle: 1, size: 4097 },
        DatabaseOp::FileSize { handle: 1 },
        DatabaseOp::Access { file: DatabaseFile::Wal },
        DatabaseOp::Delete { file: DatabaseFile::Journal },
        DatabaseOp::Sync { handle: 1 },
        DatabaseOp::Stat { file: DatabaseFile::Main },
    ];
    ops.into_iter()
        .enumerate()
        .map(|(i, op)| DatabaseRequest {
            req: ReqId(i as u64),
            vset: VsetId(7),
            attachment: attachment(),
            op,
        })
        .collect()
}

fn replies() -> Vec<DatabaseReply> {
    vec![
        DatabaseReply::Opened { req: ReqId(0) },
        DatabaseReply::Closed { req: ReqId(1) },
        DatabaseReply::Read { req: ReqId(2), bytes: vec![0x5A; 29], eof: true },
        DatabaseReply::Written { req: ReqId(3), sequence: 11 },
        DatabaseReply::Truncated { req: ReqId(4), sequence: 12 },
        DatabaseReply::FileSize { req: ReqId(5), size: 99 },
        DatabaseReply::Access { req: ReqId(6), exists: true },
        DatabaseReply::Deleted { req: ReqId(7), sequence: 13 },
        DatabaseReply::Synced { req: ReqId(8), sequence: 13 },
        DatabaseReply::Failed { req: ReqId(9), error: DatabaseError::StaleAttachment },
        DatabaseReply::Stat { req: ReqId(10), exists: true, size: 1234 },
    ]
}

#[test]
fn every_variant_round_trips_and_vm_identity_is_out_of_band() {
    for request in requests() {
        let bytes = encode_request(&request);
        assert_eq!(decode_request(VmId(44), &bytes), Ok(request.clone()));
        let mut other = request;
        other.attachment.vm = VmId(45);
        assert_eq!(decode_request(VmId(45), &bytes), Ok(other));
    }
    for reply in replies() {
        assert_eq!(decode_reply(&encode_reply(&reply)), Ok(reply));
    }
}

#[test]
fn layouts_are_byte_pinned() {
    let request_bytes: Vec<u8> = requests().iter().flat_map(encode_request).collect();
    let reply_bytes: Vec<u8> = replies().iter().flat_map(encode_reply).collect();
    assert_eq!(request_bytes.len(), 520);
    assert_eq!(crc32c(&request_bytes), 0x0523_3CD2);
    assert_eq!(reply_bytes.len(), 338);
    assert_eq!(crc32c(&reply_bytes), 0x998A_D168);
}

#[test]
fn damage_truncation_and_excess_lengths_are_rejected() {
    let frame = encode_request(&requests()[3]);
    for bit in 0..frame.len() * 8 {
        let mut damaged = frame.clone();
        damaged[bit / 8] ^= 1 << (bit % 8);
        assert!(decode_request(VmId(44), &damaged).is_err());
    }
    for keep in 0..frame.len() {
        assert!(decode_request(VmId(44), &frame[..keep]).is_err());
    }
    assert!(decode_request(VmId(44), &vec![0; MAX_DATABASE_FRAME + 1]).is_err());
}

#[test]
fn the_largest_transfer_fits_a_frame() {
    let request = DatabaseRequest {
        req: ReqId(1),
        vset: VsetId(7),
        attachment: attachment(),
        op: DatabaseOp::Write { handle: 1, offset: 0, bytes: vec![7; MAX_DATABASE_IO] },
    };
    let bytes = encode_request(&request);
    assert!(bytes.len() <= MAX_DATABASE_FRAME);
    assert_eq!(decode_request(VmId(44), &bytes), Ok(request));
}

#[test]
fn replies_keep_their_answer_under_another_request() {
    for reply in replies() {
        let moved = reply.clone().with_req(ReqId(77));
        assert_eq!(moved.req(), ReqId(77));
        assert_eq!(moved.with_req(reply.req()), reply);
    }
}

#[test]
fn every_error_code_survives_the_wire() {
    let errors = [
        DatabaseError::NotAttached,
        DatabaseError::StaleAttachment,
        DatabaseError::Draining,
        DatabaseError::NotFound,
        DatabaseError::InvalidHandle,
        DatabaseError::AlreadyOpen,
        DatabaseError::TooLarge,
        DatabaseError::Busy,
        DatabaseError::Io,
    ];
    for error in errors {
        let reply = DatabaseReply::Failed { req: ReqId(3), error };
        assert_eq!(decode_reply(&encode_reply(&reply)), Ok(reply));
    }
}

#[test]
fn files_have_their_own_pages() {
    let vset = VsetId(7);
    assert_eq!(DatabaseFile::Main.volume_index().0, 0);
    assert_eq!(DatabaseFile::Wal.volume_index().0, 1);
    assert_eq!(DatabaseFile::Journal.volume_index().0, 2);
    assert_ne!(DatabaseFile::Main.page(vset, 3), DatabaseFile::Wal.page(vset, 3));
    assert_ne!(DatabaseFile::Main.page(vset, 3), DatabaseFile::Main.page(vset, 4));
}
