use protocol::error::MDSFTPError;
use protocol::mdsftp::data::{
    ChunkErrorKind, ChunkRange, CommitFlags, LockKind, PutFlags, ReserveFlags,
};
use protocol::mdsftp::frame::{decode_frame, encode_frame, parse_header, FrameError};
use protocol::mdsftp::message::{decode_payload, encode_payload, ChannelMessage};
use protocol::mdsftp::packet_type::MDSFTPPacketType;
use protocol::mdsftp::wire::MDSFTPHeader;

const CHUNK: u128 = 0x000102030405060708090a0b0c0d0e0f;

fn every_message() -> Vec<ChannelMessage> {
    vec![
        ChannelMessage::FileChunk { is_last: true, id: 9 },
        ChannelMessage::FileChunk { is_last: false, id: 0xfffffffe },
        ChannelMessage::Retrieve { chunk_id: CHUNK, chunk_buffer: 16, range: None },
        ChannelMessage::Retrieve {
            chunk_id: CHUNK,
            chunk_buffer: 3,
            range: Some(ChunkRange { start: 10, end: 20 }),
        },
        ChannelMessage::Put { flags: PutFlags { append: true }, chunk_id: CHUNK, size: 1 << 40 },
        ChannelMessage::RecvAck { chunk_id: 77 },
        ChannelMessage::DeleteChunk { chunk_id: CHUNK },
        ChannelMessage::Reserve {
            flags: ReserveFlags { auto_start: true, durable: true, temp: false, overwrite: false },
            desired: 123456789,
        },
        ChannelMessage::ReserveCancel { chunk_id: CHUNK },
        ChannelMessage::ReserveOk { chunk_id: CHUNK, chunk_buffer: 65535 },
        ChannelMessage::ReserveErr { available_space: 99 },
        ChannelMessage::LockReq { kind: LockKind::Write, chunk_id: CHUNK },
        ChannelMessage::LockAcquire { kind: LockKind::Read, chunk_id: CHUNK },
        ChannelMessage::LockErr {
            kind: LockKind::Write,
            error_kind: ChunkErrorKind::NotFound,
            chunk_id: CHUNK,
        },
        ChannelMessage::PutOk { chunk_buffer: 8 },
        ChannelMessage::PutErr { error_kind: ChunkErrorKind::NotAvailable },
        ChannelMessage::Commit { flags: CommitFlags::final_commit(), chunk_id: CHUNK },
        ChannelMessage::Query { chunk_id: CHUNK },
        ChannelMessage::QueryResponse { exists: true, size: 4096 },
        ChannelMessage::ChannelOpen,
        ChannelMessage::ChannelClose,
        ChannelMessage::ChannelErr,
    ]
}

#[test]
fn every_message_survives_a_frame() {
    for m in every_message() {
        let content: Vec<u8> = match m {
            ChannelMessage::FileChunk { .. } => vec![5, 6, 7],
            _ => Vec::new(),
        };
        let mut bytes = encode_frame(42, &m, &content);
        let len = bytes.len();
        bytes.extend_from_slice(&[0xaa, 0xbb]);
        let (frame, used) = decode_frame(&bytes).unwrap();
        assert_eq!(used, len);
        assert_eq!(frame.stream_id, 42);
        assert_eq!(frame.message, m);
        assert_eq!(frame.content, content);
    }
}

#[test]
fn payload_lengths_match_the_packet_types() {
    for m in every_message() {
        let payload = encode_payload(&m);
        let expected = match m {
            ChannelMessage::FileChunk { .. } => 5,
            _ => m.packet_type().payload_size() as usize,
        };
        assert_eq!(payload.len(), expected);
    }
}

#[test]
fn lock_request_bytes() {
    let bytes = encode_frame(1, &ChannelMessage::LockReq { kind: LockKind::Write, chunk_id: CHUNK }, &[]);
    let mut expected = vec![10, 0, 0, 0, 1, 0, 0, 0, 17, 1];
    expected.extend(0u8..16);
    assert_eq!(bytes, expected);
}

#[test]
fn lock_error_shares_one_byte() {
    let payload = encode_payload(&ChannelMessage::LockErr {
        kind: LockKind::Write,
        error_kind: ChunkErrorKind::NotFound,
        chunk_id: 0,
    });
    assert_eq!(payload[0], 3);
}

#[test]
fn query_response_bytes() {
    let payload = encode_payload(&ChannelMessage::QueryResponse { exists: true, size: 258 });
    assert_eq!(payload, vec![1, 0, 0, 0, 0, 0, 0, 1, 2]);
    assert_eq!(
        decode_payload(MDSFTPPacketType::QueryResponse, &[0, 0, 0, 0, 0, 0, 0, 0, 9]),
        Ok(ChannelMessage::QueryResponse { exists: false, size: 9 })
    );
}

#[test]
fn a_retrieve_without_range_has_zero_bounds() {
    let payload =
        encode_payload(&ChannelMessage::Retrieve { chunk_id: 0, chunk_buffer: 1, range: None });
    assert_eq!(payload.len(), 34);
    assert!(payload[18..].iter().all(|b| *b == 0));
}

#[test]
fn a_reversed_range_is_a_remote_error() {
    let mut payload = vec![0u8; 34];
    payload[25] = 9; // start = 9
    payload[33] = 3; // end = 3
    assert_eq!(
        decode_payload(MDSFTPPacketType::Retrieve, &payload),
        Err(MDSFTPError::RemoteError)
    );
    let mut bytes = vec![2, 0, 0, 0, 5, 0, 0, 0, 34];
    bytes.extend_from_slice(&payload);
    assert_eq!(decode_frame(&bytes).unwrap_err(), FrameError::Payload(MDSFTPError::RemoteError));
}

#[test]
fn truncated_frames() {
    assert_eq!(decode_frame(&[]).unwrap_err(), FrameError::Truncated);
    assert_eq!(decode_frame(&[16, 0, 0, 0]).unwrap_err(), FrameError::Truncated);
    let mut bytes = vec![16, 0, 0, 0, 1, 0, 0, 0, 16];
    bytes.extend_from_slice(&[0u8; 15]);
    assert_eq!(decode_frame(&bytes).unwrap_err(), FrameError::Truncated);
}

#[test]
fn unknown_packet_types() {
    let bytes = [50u8, 0, 0, 0, 1, 0, 0, 0, 0];
    assert_eq!(decode_frame(&bytes).unwrap_err(), FrameError::UnknownPacketType(50));
    assert_eq!(parse_header(&bytes).unwrap_err(), FrameError::UnknownPacketType(50));
}

#[test]
fn invalid_lengths() {
    let mut bytes = vec![16u8, 0, 0, 0, 1, 0, 0, 0, 15];
    bytes.extend_from_slice(&[0u8; 15]);
    assert_eq!(decode_frame(&bytes).unwrap_err(), FrameError::InvalidLength);
    let raw = [1u8, 0, 0, 0, 2, 0, 0, 0, 5];
    assert_eq!(parse_header(&raw).unwrap_err(), FrameError::InvalidLength);
}

#[test]
fn parse_header_accepts_a_valid_header() {
    let raw = [1u8, 0, 0, 1, 0, 0, 0, 0, 9];
    assert_eq!(
        parse_header(&raw),
        Ok((
            MDSFTPPacketType::FileChunk,
            MDSFTPHeader { packet_id: 1, stream_id: 256, payload_size: 9 }
        ))
    );
}
