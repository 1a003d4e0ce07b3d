//! The payloads of MDSFTP packets: what each packet type carries, how it is
//! written and how it is read back.
use vstd::prelude::*;
use crate::bytes::{
    be_u128, be_u16, be_u32, be_u64, get_u128, get_u16, get_u32, get_u64, lemma_u128_roundtrip,
    lemma_u16_roundtrip, lemma_u32_roundtrip, lemma_u64_roundtrip, put_u128, put_u16, put_u32,
    put_u64, u128_bytes, u16_bytes, u32_bytes, u64_bytes,
};
use crate::error::{MDSFTPError, MDSFTPResult};
use crate::mdsftp::data::{
    lemma_chunk_error_roundtrip, lemma_commit_flags_roundtrip, lemma_put_flags_roundtrip,
    lemma_reserve_flags_roundtrip,
    chunk_error_bits, chunk_error_of, commit_flags_bits, commit_flags_of, lock_kind_bits,
    lock_kind_of, put_flags_bits, put_flags_of, reserve_flags_bits, reserve_flags_of, ChunkErrorKind,
    ChunkId, ChunkRange, CommitFlags, LockKind, PutFlags, ReserveFlags,
};
use crate::mdsftp::packet_type::{
    packet_payload_size, packet_type_id, payload_len_ok, MDSFTPPacketType,
};

verus! {

/// The bytes of a `FileChunk` payload that precede the chunk's content.
pub const FILE_CHUNK_HEADER_SIZE: usize = 5;

/// What one MDSFTP packet carries. A `FileChunk` packet carries, after the
/// fields named here, the chunk's content.
#[derive(Debug, Clone, Copy, PartialEq, Eq)]
pub enum ChannelMessage {
    FileChunk { is_last: bool, id: u32 },
    Retrieve { chunk_id: ChunkId, chunk_buffer: u16, range: Option<ChunkRange> },
    Put { flags: PutFlags, chunk_id: ChunkId, size: u64 },
    RecvAck { chunk_id: u32 },
    DeleteChunk { chunk_id: ChunkId },
    Reserve { flags: ReserveFlags, desired: u64 },
    ReserveCancel { chunk_id: ChunkId },
    ReserveOk { chunk_id: ChunkId, chunk_buffer: u16 },
    ReserveErr { available_space: u64 },
    LockReq { kind: LockKind, chunk_id: ChunkId },
    LockAcquire { kind: LockKind, chunk_id: ChunkId },
    LockErr { kind: LockKind, error_kind: ChunkErrorKind, chunk_id: ChunkId },
    PutOk { chunk_buffer: u16 },
    PutErr { error_kind: ChunkErrorKind },
    Commit { flags: CommitFlags, chunk_id: ChunkId },
    Query { chunk_id: ChunkId },
    QueryResponse { exists: bool, size: u64 },
    ChannelOpen,
    ChannelClose,
    ChannelErr,
}

/// The packet type a message travels as.
pub open spec fn message_type(m: ChannelMessage) -> MDSFTPPacketType {
    match m {
        ChannelMessage::FileChunk { .. } => MDSFTPPacketType::FileChunk,
        ChannelMessage::Retrieve { .. } => MDSFTPPacketType::Retrieve,
        ChannelMessage::Put { .. } => MDSFTPPacketType::Put,
        ChannelMessage::RecvAck { .. } => MDSFTPPacketType::RecvAck,
        ChannelMessage::DeleteChunk { .. } => MDSFTPPacketType::DeleteChunk,
        ChannelMessage::Reserve { .. } => MDSFTPPacketType::Reserve,
        ChannelMessage::ReserveCancel { .. } => MDSFTPPacketType::ReserveCancel,
        ChannelMessage::ReserveOk { .. } => MDSFTPPacketType::ReserveOk,
        ChannelMessage::ReserveErr { .. } => MDSFTPPacketType::ReserveErr,
        ChannelMessage::LockReq { .. } => MDSFTPPacketType::LockReq,
        ChannelMessage::LockAcquire { .. } => MDSFTPPacketType::LockAcquire,
        ChannelMessage::LockErr { .. } => MDSFTPPacketType::LockErr,
        ChannelMessage::PutOk { .. } => MDSFTPPacketType::PutOk,
        ChannelMessage::PutErr { .. } => MDSFTPPacketType::PutErr,
        ChannelMessage::Commit { .. } => MDSFTPPacketType::Commit,
        ChannelMessage::Query { .. } => MDSFTPPacketType::Query,
        ChannelMessage::QueryResponse { .. } => MDSFTPPacketType::QueryResponse,
        ChannelMessage::ChannelOpen => MDSFTPPacketType::ChannelOpen,
        ChannelMessage::ChannelClose => MDSFTPPacketType::ChannelClose,
        ChannelMessage::ChannelErr => MDSFTPPacketType::ChannelErr,
    }
}

/// A retrieval range on the wire: the range's bounds, or two zeros for
/// "the whole chunk".
pub open spec fn range_bytes(range: Option<ChunkRange>) -> Seq<u8> {
    match range {
        Some(r) => u64_bytes(r.start) + u64_bytes(r.end),
        None => u64_bytes(0) + u64_bytes(0),
    }
}

/// The payload bytes of a message (for `FileChunk`, those before the content).
#[verifier::opaque]
pub open spec fn message_payload(m: ChannelMessage) -> Seq<u8> {
    match m {
        ChannelMessage::FileChunk { is_last, id } => seq![
            if is_last {
                1u8
            } else {
                0u8
            },
        ] + u32_bytes(id),
        ChannelMessage::Retrieve { chunk_id, chunk_buffer, range } => u128_bytes(chunk_id)
            + u16_bytes(chunk_buffer) + range_bytes(range),
        ChannelMessage::Put { flags, chunk_id, size } => seq![put_flags_bits(flags)] + u128_bytes(
            chunk_id,
        ) + u64_bytes(size),
        ChannelMessage::RecvAck { chunk_id } => u32_bytes(chunk_id),
        ChannelMessage::DeleteChunk { chunk_id } => u128_bytes(chunk_id),
        ChannelMessage::Reserve { flags, desired } => seq![reserve_flags_bits(flags)] + u64_bytes(
            desired,
        ),
        ChannelMessage::ReserveCancel { chunk_id } => u128_bytes(chunk_id),
        ChannelMessage::ReserveOk { chunk_id, chunk_buffer } => u128_bytes(chunk_id) + u16_bytes(
            chunk_buffer,
        ),
        ChannelMessage::ReserveErr { available_space } => u64_bytes(available_space),
        ChannelMessage::LockReq { kind, chunk_id } => seq![lock_kind_bits(kind)] + u128_bytes(
            chunk_id,
        ),
        ChannelMessage::LockAcquire { kind, chunk_id } => seq![lock_kind_bits(kind)] + u128_bytes(
            chunk_id,
        ),
        ChannelMessage::LockErr { kind, error_kind, chunk_id } => seq![
            (lock_kind_bits(kind) + chunk_error_bits(error_kind)) as u8,
        ] + u128_bytes(chunk_id),
        ChannelMessage::PutOk { chunk_buffer } => u16_bytes(chunk_buffer),
        ChannelMessage::PutErr { error_kind } => seq![chunk_error_bits(error_kind)],
        ChannelMessage::Commit { flags, chunk_id } => seq![commit_flags_bits(flags)] + u128_bytes(
            chunk_id,
        ),
        ChannelMessage::Query { chunk_id } => u128_bytes(chunk_id),
        ChannelMessage::QueryResponse { exists, size } => seq![
            if exists {
                1u8
            } else {
                0u8
            },
        ] + u64_bytes(size),
        ChannelMessage::ChannelOpen => Seq::empty(),
        ChannelMessage::ChannelClose => Seq::empty(),
        ChannelMessage::ChannelErr => Seq::empty(),
    }
}

/// The chunk id that starts at `at`.
pub open spec fn chunk_id_at(p: Seq<u8>, at: int) -> ChunkId {
    be_u128(p.subrange(at, at + 16)) as u128
}

pub open spec fn u16_at(p: Seq<u8>, at: int) -> u16 {
    be_u16(p.subrange(at, at + 2)) as u16
}

pub open spec fn u32_at(p: Seq<u8>, at: int) -> u32 {
    be_u32(p.subrange(at, at + 4)) as u32
}

pub open spec fn u64_at(p: Seq<u8>, at: int) -> u64 {
    be_u64(p.subrange(at, at + 8)) as u64
}

/// The retrieval range that two bounds stand for: none when both are zero,
/// the range when it is not empty, and a remote error otherwise.
pub open spec fn range_of_bounds(start: u64, end: u64) -> MDSFTPResult<Option<ChunkRange>> {
    if start == 0 && end == 0 {
        Ok(None)
    } else if start < end {
        Ok(Some(ChunkRange { start, end }))
    } else {
        Err(MDSFTPError::RemoteError)
    }
}

/// The message that a payload of the given packet type holds.
#[verifier::opaque]
pub open spec fn message_of_payload(t: MDSFTPPacketType, p: Seq<u8>) -> MDSFTPResult<
    ChannelMessage,
> {
    match t {
        MDSFTPPacketType::FileChunk => Ok(
            ChannelMessage::FileChunk { is_last: p[0] == 1, id: u32_at(p, 1) },
        ),
        MDSFTPPacketType::Retrieve => match range_of_bounds(u64_at(p, 18), u64_at(p, 26)) {
            Ok(range) => Ok(
                ChannelMessage::Retrieve {
                    chunk_id: chunk_id_at(p, 0),
                    chunk_buffer: u16_at(p, 16),
                    range,
                },
            ),
            Err(e) => Err(e),
        },
        MDSFTPPacketType::Put => Ok(
            ChannelMessage::Put {
                flags: put_flags_of(p[0]),
                chunk_id: chunk_id_at(p, 1),
                size: u64_at(p, 17),
            },
        ),
        MDSFTPPacketType::RecvAck => Ok(ChannelMessage::RecvAck { chunk_id: u32_at(p, 0) }),
        MDSFTPPacketType::DeleteChunk => Ok(
            ChannelMessage::DeleteChunk { chunk_id: chunk_id_at(p, 0) },
        ),
        MDSFTPPacketType::Reserve => Ok(
            ChannelMessage::Reserve { flags: reserve_flags_of(p[0]), desired: u64_at(p, 1) },
        ),
        MDSFTPPacketType::ReserveCancel => Ok(
            ChannelMessage::ReserveCancel { chunk_id: chunk_id_at(p, 0) },
        ),
        MDSFTPPacketType::ReserveOk => Ok(
            ChannelMessage::ReserveOk { chunk_id: chunk_id_at(p, 0), chunk_buffer: u16_at(p, 16) },
        ),
        MDSFTPPacketType::ReserveErr => Ok(
            ChannelMessage::ReserveErr { available_space: u64_at(p, 0) },
        ),
        MDSFTPPacketType::LockReq => Ok(
            ChannelMessage::LockReq { kind: lock_kind_of(p[0]), chunk_id: chunk_id_at(p, 1) },
        ),
        MDSFTPPacketType::LockAcquire => Ok(
            ChannelMessage::LockAcquire { kind: lock_kind_of(p[0]), chunk_id: chunk_id_at(p, 1) },
        ),
        MDSFTPPacketType::LockErr => Ok(
            ChannelMessage::LockErr {
                kind: lock_kind_of(p[0]),
                error_kind: chunk_error_of(p[0]),
                chunk_id: chunk_id_at(p, 1),
            },
        ),
        MDSFTPPacketType::PutOk => Ok(ChannelMessage::PutOk { chunk_buffer: u16_at(p, 0) }),
        MDSFTPPacketType::PutErr => Ok(ChannelMessage::PutErr { error_kind: chunk_error_of(p[0]) }),
        MDSFTPPacketType::Commit => Ok(
            ChannelMessage::Commit { flags: commit_flags_of(p[0]), chunk_id: chunk_id_at(p, 1) },
        ),
        MDSFTPPacketType::Query => Ok(ChannelMessage::Query { chunk_id: chunk_id_at(p, 0) }),
        MDSFTPPacketType::QueryResponse => Ok(
            ChannelMessage::QueryResponse { exists: p[0] == 1, size: u64_at(p, 1) },
        ),
        MDSFTPPacketType::ChannelOpen => Ok(ChannelMessage::ChannelOpen),
        MDSFTPPacketType::ChannelClose => Ok(ChannelMessage::ChannelClose),
        MDSFTPPacketType::ChannelErr => Ok(ChannelMessage::ChannelErr),
    }
}

/// Whether a message can be read back as it was written: a retrieval range,
/// when there is one, must hold at least one byte.
pub open spec fn message_well_formed(m: ChannelMessage) -> bool {
    match m {
        ChannelMessage::Retrieve { range, .. } => match range {
            Some(r) => r.start < r.end,
            None => true,
        },
        _ => true,
    }
}

impl ChannelMessage {
    /// The packet type the message travels as.
    pub fn packet_type(&self) -> (r: MDSFTPPacketType)
        ensures
            r == message_type(*self),
    {
        match self {
            ChannelMessage::FileChunk { .. } => MDSFTPPacketType::FileChunk,
            ChannelMessage::Retrieve { .. } => MDSFTPPacketType::Retrieve,
            ChannelMessage::Put { .. } => MDSFTPPacketType::Put,
            ChannelMessage::RecvAck { .. } => MDSFTPPacketType::RecvAck,
            ChannelMessage::DeleteChunk { .. } => MDSFTPPacketType::DeleteChunk,
            ChannelMessage::Reserve { .. } => MDSFTPPacketType::Reserve,
            ChannelMessage::ReserveCancel { .. } => MDSFTPPacketType::ReserveCancel,
            ChannelMessage::ReserveOk { .. } => MDSFTPPacketType::ReserveOk,
            ChannelMessage::ReserveErr { .. } => MDSFTPPacketType::ReserveErr,
            ChannelMessage::LockReq { .. } => MDSFTPPacketType::LockReq,
            ChannelMessage::LockAcquire { .. } => MDSFTPPacketType::LockAcquire,
            ChannelMessage::LockErr { .. } => MDSFTPPacketType::LockErr,
            ChannelMessage::PutOk { .. } => MDSFTPPacketType::PutOk,
            ChannelMessage::PutErr { .. } => MDSFTPPacketType::PutErr,
            ChannelMessage::Commit { .. } => MDSFTPPacketType::Commit,
            ChannelMessage::Query { .. } => MDSFTPPacketType::Query,
            ChannelMessage::QueryResponse { .. } => MDSFTPPacketType::QueryResponse,
            ChannelMessage::ChannelOpen => MDSFTPPacketType::ChannelOpen,
            ChannelMessage::ChannelClose => MDSFTPPacketType::ChannelClose,
            ChannelMessage::ChannelErr => MDSFTPPacketType::ChannelErr,
        }
    }
}

/// Appends the payload bytes of a message (for `FileChunk`, those before
/// the content).
pub fn write_message_payload(m: &ChannelMessage, buf: &mut Vec<u8>)
    ensures
        final(buf)@ == old(buf)@ + message_payload(*m),
{
    reveal(message_payload);
    let ghost start = buf@;
    match m {
        ChannelMessage::FileChunk { is_last, id } => {
            buf.push(if *is_last { 0x01 } else { 0x00 });
            put_u32(buf, *id);
        },
        ChannelMessage::Retrieve { chunk_id, chunk_buffer, range } => {
            put_u128(buf, *chunk_id);
            put_u16(buf, *chunk_buffer);
            let bounds = match range {
                Some(r) => *r,
                None => ChunkRange { start: 0, end: 0 },
            };
            put_u64(buf, bounds.start);
            put_u64(buf, bounds.end);
        },
        ChannelMessage::Put { flags, chunk_id, size } => {
            buf.push(u8::from(*flags));
            put_u128(buf, *chunk_id);
            put_u64(buf, *size);
        },
        ChannelMessage::RecvAck { chunk_id } => {
            put_u32(buf, *chunk_id);
        },
        ChannelMessage::DeleteChunk { chunk_id } => {
            put_u128(buf, *chunk_id);
        },
        ChannelMessage::Reserve { flags, desired } => {
            buf.push(u8::from(*flags));
            put_u64(buf, *desired);
        },
        ChannelMessage::ReserveCancel { chunk_id } => {
            put_u128(buf, *chunk_id);
        },
        ChannelMessage::ReserveOk { chunk_id, chunk_buffer } => {
            put_u128(buf, *chunk_id);
            put_u16(buf, *chunk_buffer);
        },
        ChannelMessage::ReserveErr { available_space } => {
            put_u64(buf, *available_space);
        },
        ChannelMessage::LockReq { kind, chunk_id } => {
            buf.push(u8::from(*kind));
            put_u128(buf, *chunk_id);
        },
        ChannelMessage::LockAcquire { kind, chunk_id } => {
            buf.push(u8::from(*kind));
            put_u128(buf, *chunk_id);
        },
        ChannelMessage::LockErr { kind, error_kind, chunk_id } => {
            let kind_bits: u8 = u8::from(*kind);
            let error_bits: u8 = u8::from(*error_kind);
            buf.push(kind_bits | error_bits);
            assert(kind_bits | error_bits == kind_bits + error_bits) by (bit_vector)
                requires
                    kind_bits == 0 || kind_bits == 1,
                    error_bits == 0 || error_bits == 2,
            ;
            put_u128(buf, *chunk_id);
        },
        ChannelMessage::PutOk { chunk_buffer } => {
            put_u16(buf, *chunk_buffer);
        },
        ChannelMessage::PutErr { error_kind } => {
            buf.push(u8::from(*error_kind));
        },
        ChannelMessage::Commit { flags, chunk_id } => {
            buf.push(u8::from(*flags));
            put_u128(buf, *chunk_id);
        },
        ChannelMessage::Query { chunk_id } => {
            put_u128(buf, *chunk_id);
        },
        ChannelMessage::QueryResponse { exists, size } => {
            buf.push(if *exists { 1u8 } else { 0u8 });
            put_u64(buf, *size);
        },
        ChannelMessage::ChannelOpen => {},
        ChannelMessage::ChannelClose => {},
        ChannelMessage::ChannelErr => {},
    }
    assert(buf@ =~= start + message_payload(*m));
}

/// The payload bytes of a message (for `FileChunk`, those before the content).
pub fn encode_payload(m: &ChannelMessage) -> (r: Vec<u8>)
    ensures
        r@ == message_payload(*m),
{
    let mut buf: Vec<u8> = Vec::new();
    write_message_payload(m, &mut buf);
    assert(buf@ =~= message_payload(*m));
    buf
}

/// Reads the message that a payload of the given packet type holds. The
/// payload's length must have passed the packet type's pre-validation.
pub fn decode_payload(t: MDSFTPPacketType, payload: &[u8]) -> (r: MDSFTPResult<ChannelMessage>)
    requires
        payload_len_ok(t, payload@.len() as int),
    ensures
        r == message_of_payload(t, payload@),
{
    reveal(message_of_payload);
    let p = payload;
    match t {
        MDSFTPPacketType::FileChunk => {
            Ok(ChannelMessage::FileChunk { is_last: p[0] == 1, id: get_u32(p, 1) })
        },
        MDSFTPPacketType::Retrieve => {
            let chunk_id = get_u128(p, 0);
            let chunk_buffer = get_u16(p, 16);
            let start = get_u64(p, 18);
            let end = get_u64(p, 26);
            let range = if start == 0 && end == 0 {
                None
            } else {
                match ChunkRange::new(start, end) {
                    Ok(r) => Some(r),
                    Err(e) => {
                        return Err(e);
                    },
                }
            };
            Ok(ChannelMessage::Retrieve { chunk_id, chunk_buffer, range })
        },
        MDSFTPPacketType::Put => {
            Ok(
                ChannelMessage::Put {
                    flags: PutFlags::from(p[0]),
                    chunk_id: get_u128(p, 1),
                    size: get_u64(p, 17),
                },
            )
        },
        MDSFTPPacketType::RecvAck => Ok(ChannelMessage::RecvAck { chunk_id: get_u32(p, 0) }),
        MDSFTPPacketType::DeleteChunk => Ok(
            ChannelMessage::DeleteChunk { chunk_id: get_u128(p, 0) },
        ),
        MDSFTPPacketType::Reserve => Ok(
            ChannelMessage::Reserve { flags: ReserveFlags::from(p[0]), desired: get_u64(p, 1) },
        ),
        MDSFTPPacketType::ReserveCancel => Ok(
            ChannelMessage::ReserveCancel { chunk_id: get_u128(p, 0) },
        ),
        MDSFTPPacketType::ReserveOk => Ok(
            ChannelMessage::ReserveOk { chunk_id: get_u128(p, 0), chunk_buffer: get_u16(p, 16) },
        ),
        MDSFTPPacketType::ReserveErr => Ok(
            ChannelMessage::ReserveErr { available_space: get_u64(p, 0) },
        ),
        MDSFTPPacketType::LockReq => Ok(
            ChannelMessage::LockReq { kind: LockKind::from(p[0]), chunk_id: get_u128(p, 1) },
        ),
        MDSFTPPacketType::LockAcquire => Ok(
            ChannelMessage::LockAcquire { kind: LockKind::from(p[0]), chunk_id: get_u128(p, 1) },
        ),
        MDSFTPPacketType::LockErr => Ok(
            ChannelMessage::LockErr {
                kind: LockKind::from(p[0]),
                error_kind: ChunkErrorKind::from(p[0]),
                chunk_id: get_u128(p, 1),
            },
        ),
        MDSFTPPacketType::PutOk => Ok(ChannelMessage::PutOk { chunk_buffer: get_u16(p, 0) }),
        MDSFTPPacketType::PutErr => Ok(
            ChannelMessage::PutErr { error_kind: ChunkErrorKind::from(p[0]) },
        ),
        MDSFTPPacketType::Commit => Ok(
            ChannelMessage::Commit { flags: CommitFlags::from(p[0]), chunk_id: get_u128(p, 1) },
        ),
        MDSFTPPacketType::Query => Ok(ChannelMessage::Query { chunk_id: get_u128(p, 0) }),
        MDSFTPPacketType::QueryResponse => Ok(
            ChannelMessage::QueryResponse { exists: p[0] == 1, size: get_u64(p, 1) },
        ),
        MDSFTPPacketType::ChannelOpen => Ok(ChannelMessage::ChannelOpen),
        MDSFTPPacketType::ChannelClose => Ok(ChannelMessage::ChannelClose),
        MDSFTPPacketType::ChannelErr => Ok(ChannelMessage::ChannelErr),
    }
}

proof fn lemma_file_chunk_roundtrip(m: ChannelMessage, content: Seq<u8>)
    requires
        m is FileChunk,
        message_well_formed(m),
        content.len() >= 1,
    ensures
        payload_len_ok(message_type(m), (message_payload(m) + content).len() as int),
        message_of_payload(message_type(m), message_payload(m) + content) == Ok::<
            ChannelMessage,
            MDSFTPError,
        >(m),
{
    reveal(message_payload);
    reveal(message_of_payload);
    let p = message_payload(m) + content;
    if let ChannelMessage::FileChunk { is_last, id } = m {
        lemma_u32_roundtrip(id);
        assert(p.subrange(1, 5) =~= u32_bytes(id));
    }
}

proof fn lemma_retrieve_fields(chunk_id: ChunkId, chunk_buffer: u16, start: u64, end: u64)
    ensures
        ({
            let p = u128_bytes(chunk_id) + u16_bytes(chunk_buffer) + u64_bytes(start) + u64_bytes(
                end,
            );
            &&& p.len() == 34
            &&& chunk_id_at(p, 0) == chunk_id
            &&& u16_at(p, 16) == chunk_buffer
            &&& u64_at(p, 18) == start
            &&& u64_at(p, 26) == end
        }),
{
    let p = u128_bytes(chunk_id) + u16_bytes(chunk_buffer) + u64_bytes(start) + u64_bytes(end);
    lemma_u128_roundtrip(chunk_id);
    lemma_u16_roundtrip(chunk_buffer);
    lemma_u64_roundtrip(start);
    lemma_u64_roundtrip(end);
    assert(p.subrange(0, 16) =~= u128_bytes(chunk_id));
    assert(p.subrange(16, 18) =~= u16_bytes(chunk_buffer));
    assert(p.subrange(18, 26) =~= u64_bytes(start));
    assert(p.subrange(26, 34) =~= u64_bytes(end));
}

proof fn lemma_retrieve_roundtrip(m: ChannelMessage, content: Seq<u8>)
    requires
        m is Retrieve,
        message_well_formed(m),
        content.len() == 0,
    ensures
        payload_len_ok(message_type(m), (message_payload(m) + content).len() as int),
        message_of_payload(message_type(m), message_payload(m) + content) == Ok::<
            ChannelMessage,
            MDSFTPError,
        >(m),
{
    reveal(message_payload);
    reveal(message_of_payload);
    let p = message_payload(m) + content;
    if let ChannelMessage::Retrieve { chunk_id, chunk_buffer, range } = m {
        let (start, end) = match range {
            Some(r) => (r.start, r.end),
            None => (0u64, 0u64),
        };
        assert(range_bytes(range) == u64_bytes(start) + u64_bytes(end));
        assert(p =~= u128_bytes(chunk_id) + u16_bytes(chunk_buffer) + u64_bytes(start) + u64_bytes(
            end,
        ));
        lemma_retrieve_fields(chunk_id, chunk_buffer, start, end);
        assert(range_of_bounds(start, end) == Ok::<Option<ChunkRange>, MDSFTPError>(range));
    }
}

proof fn lemma_put_roundtrip(m: ChannelMessage, content: Seq<u8>)
    requires
        m is Put,
        message_well_formed(m),
        content.len() == 0,
    ensures
        payload_len_ok(message_type(m), (message_payload(m) + content).len() as int),
        message_of_payload(message_type(m), message_payload(m) + content) == Ok::<
            ChannelMessage,
            MDSFTPError,
        >(m),
{
    reveal(message_payload);
    reveal(message_of_payload);
    let p = message_payload(m) + content;
    if let ChannelMessage::Put { flags, chunk_id, size } = m {
        lemma_put_flags_roundtrip(flags);
        lemma_u128_roundtrip(chunk_id);
        lemma_u64_roundtrip(size);
        assert(p.subrange(1, 17) =~= u128_bytes(chunk_id));
        assert(p.subrange(17, 25) =~= u64_bytes(size));
    }
}

proof fn lemma_recv_ack_roundtrip(m: ChannelMessage, content: Seq<u8>)
    requires
        m is RecvAck,
        message_well_formed(m),
        content.len() == 0,
    ensures
        payload_len_ok(message_type(m), (message_payload(m) + content).len() as int),
        message_of_payload(message_type(m), message_payload(m) + content) == Ok::<
            ChannelMessage,
            MDSFTPError,
        >(m),
{
    reveal(message_payload);
    reveal(message_of_payload);
    let p = message_payload(m) + content;
    if let ChannelMessage::RecvAck { chunk_id } = m {
        lemma_u32_roundtrip(chunk_id);
        assert(p.subrange(0, 4) =~= u32_bytes(chunk_id));
    }
}

proof fn lemma_delete_chunk_roundtrip(m: ChannelMessage, content: Seq<u8>)
    requires
        m is DeleteChunk,
        message_well_formed(m),
        content.len() == 0,
    ensures
        payload_len_ok(message_type(m), (message_payload(m) + content).len() as int),
        message_of_payload(message_type(m), message_payload(m) + content) == Ok::<
            ChannelMessage,
            MDSFTPError,
        >(m),
{
    reveal(message_payload);
    reveal(message_of_payload);
    let p = message_payload(m) + content;
    if let ChannelMessage::DeleteChunk { chunk_id } = m {
        lemma_u128_roundtrip(chunk_id);
        assert(p.subrange(0, 16) =~= u128_bytes(chunk_id));
    }
}

proof fn lemma_reserve_roundtrip(m: ChannelMessage, content: Seq<u8>)
    requires
        m is Reserve,
        message_well_formed(m),
        content.len() == 0,
    ensures
        payload_len_ok(message_type(m), (message_payload(m) + content).len() as int),
        message_of_payload(message_type(m), message_payload(m) + content) == Ok::<
            ChannelMessage,
            MDSFTPError,
        >(m),
{
    reveal(message_payload);
    reveal(message_of_payload);
    let p = message_payload(m) + content;
    if let ChannelMessage::Reserve { flags, desired } = m {
        lemma_reserve_flags_roundtrip(flags);
        lemma_u64_roundtrip(desired);
        assert(p.subrange(1, 9) =~= u64_bytes(desired));
    }
}

proof fn lemma_reserve_cancel_roundtrip(m: ChannelMessage, content: Seq<u8>)
    requires
        m is ReserveCancel,
        message_well_formed(m),
        content.len() == 0,
    ensures
        payload_len_ok(message_type(m), (message_payload(m) + content).len() as int),
        message_of_payload(message_type(m), message_payload(m) + content) == Ok::<
            ChannelMessage,
            MDSFTPError,
        >(m),
{
    reveal(message_payload);
    reveal(message_of_payload);
    let p = message_payload(m) + content;
    if let ChannelMessage::ReserveCancel { chunk_id } = m {
        lemma_u128_roundtrip(chunk_id);
        assert(p.subrange(0, 16) =~= u128_bytes(chunk_id));
    }
}

proof fn lemma_reserve_ok_roundtrip(m: ChannelMessage, content: Seq<u8>)
    requires
        m is ReserveOk,
        message_well_formed(m),
        content.len() == 0,
    ensures
        payload_len_ok(message_type(m), (message_payload(m) + content).len() as int),
        message_of_payload(message_type(m), message_payload(m) + content) == Ok::<
            ChannelMessage,
            MDSFTPError,
        >(m),
{
    reveal(message_payload);
    reveal(message_of_payload);
    let p = message_payload(m) + content;
    if let ChannelMessage::ReserveOk { chunk_id, chunk_buffer } = m {
        lemma_u128_roundtrip(chunk_id);
        lemma_u16_roundtrip(chunk_buffer);
        assert(p.subrange(0, 16) =~= u128_bytes(chunk_id));
        assert(p.subrange(16, 18) =~= u16_bytes(chunk_buffer));
    }
}

proof fn lemma_reserve_err_roundtrip(m: ChannelMessage, content: Seq<u8>)
    requires
        m is ReserveErr,
        message_well_formed(m),
        content.len() == 0,
    ensures
        payload_len_ok(message_type(m), (message_payload(m) + content).len() as int),
        message_of_payload(message_type(m), message_payload(m) + content) == Ok::<
            ChannelMessage,
            MDSFTPError,
        >(m),
{
    reveal(message_payload);
    reveal(message_of_payload);
    let p = message_payload(m) + content;
    if let ChannelMessage::ReserveErr { available_space } = m {
        lemma_u64_roundtrip(available_space);
        assert(p.subrange(0, 8) =~= u64_bytes(available_space));
    }
}

proof fn lemma_lock_req_roundtrip(m: ChannelMessage, content: Seq<u8>)
    requires
        m is LockReq,
        message_well_formed(m),
        content.len() == 0,
    ensures
        payload_len_ok(message_type(m), (message_payload(m) + content).len() as int),
        message_of_payload(message_type(m), message_payload(m) + content) == Ok::<
            ChannelMessage,
            MDSFTPError,
        >(m),
{
    reveal(message_payload);
    reveal(message_of_payload);
    let p = message_payload(m) + content;
    if let ChannelMessage::LockReq { kind, chunk_id } = m {
        lemma_u128_roundtrip(chunk_id);
        assert(p.subrange(1, 17) =~= u128_bytes(chunk_id));
    }
}

proof fn lemma_lock_acquire_roundtrip(m: ChannelMessage, content: Seq<u8>)
    requires
        m is LockAcquire,
        message_well_formed(m),
        content.len() == 0,
    ensures
        payload_len_ok(message_type(m), (message_payload(m) + content).len() as int),
        message_of_payload(message_type(m), message_payload(m) + content) == Ok::<
            ChannelMessage,
            MDSFTPError,
        >(m),
{
    reveal(message_payload);
    reveal(message_of_payload);
    let p = message_payload(m) + content;
    if let ChannelMessage::LockAcquire { kind, chunk_id } = m {
        lemma_u128_roundtrip(chunk_id);
        assert(p.subrange(1, 17) =~= u128_bytes(chunk_id));
    }
}

proof fn lemma_lock_err_roundtrip(m: ChannelMessage, content: Seq<u8>)
    requires
        m is LockErr,
        message_well_formed(m),
        content.len() == 0,
    ensures
        payload_len_ok(message_type(m), (message_payload(m) + content).len() as int),
        message_of_payload(message_type(m), message_payload(m) + content) == Ok::<
            ChannelMessage,
            MDSFTPError,
        >(m),
{
    reveal(message_payload);
    reveal(message_of_payload);
    let p = message_payload(m) + content;
    if let ChannelMessage::LockErr { kind, error_kind, chunk_id } = m {
        lemma_chunk_error_roundtrip(error_kind, kind);
        lemma_u128_roundtrip(chunk_id);
        assert(p.subrange(1, 17) =~= u128_bytes(chunk_id));
    }
}

proof fn lemma_put_ok_roundtrip(m: ChannelMessage, content: Seq<u8>)
    requires
        m is PutOk,
        message_well_formed(m),
        content.len() == 0,
    ensures
        payload_len_ok(message_type(m), (message_payload(m) + content).len() as int),
        message_of_payload(message_type(m), message_payload(m) + content) == Ok::<
            ChannelMessage,
            MDSFTPError,
        >(m),
{
    reveal(message_payload);
    reveal(message_of_payload);
    let p = message_payload(m) + content;
    if let ChannelMessage::PutOk { chunk_buffer } = m {
        lemma_u16_roundtrip(chunk_buffer);
        assert(p.subrange(0, 2) =~= u16_bytes(chunk_buffer));
    }
}

proof fn lemma_put_err_roundtrip(m: ChannelMessage, content: Seq<u8>)
    requires
        m is PutErr,
        message_well_formed(m),
        content.len() == 0,
    ensures
        payload_len_ok(message_type(m), (message_payload(m) + content).len() as int),
        message_of_payload(message_type(m), message_payload(m) + content) == Ok::<
            ChannelMessage,
            MDSFTPError,
        >(m),
{
    reveal(message_payload);
    reveal(message_of_payload);
    let p = message_payload(m) + content;
    if let ChannelMessage::PutErr { error_kind } = m {
        lemma_chunk_error_roundtrip(error_kind, LockKind::Read);
    }
}

proof fn lemma_commit_roundtrip(m: ChannelMessage, content: Seq<u8>)
    requires
        m is Commit,
        message_well_formed(m),
        content.len() == 0,
    ensures
        payload_len_ok(message_type(m), (message_payload(m) + content).len() as int),
        message_of_payload(message_type(m), message_payload(m) + content) == Ok::<
            ChannelMessage,
            MDSFTPError,
        >(m),
{
    reveal(message_payload);
    reveal(message_of_payload);
    let p = message_payload(m) + content;
    if let ChannelMessage::Commit { flags, chunk_id } = m {
        lemma_commit_flags_roundtrip(flags);
        lemma_u128_roundtrip(chunk_id);
        assert(p.subrange(1, 17) =~= u128_bytes(chunk_id));
    }
}

proof fn lemma_query_roundtrip(m: ChannelMessage, content: Seq<u8>)
    requires
        m is Query,
        message_well_formed(m),
        content.len() == 0,
    ensures
        payload_len_ok(message_type(m), (message_payload(m) + content).len() as int),
        message_of_payload(message_type(m), message_payload(m) + content) == Ok::<
            ChannelMessage,
            MDSFTPError,
        >(m),
{
    reveal(message_payload);
    reveal(message_of_payload);
    let p = message_payload(m) + content;
    if let ChannelMessage::Query { chunk_id } = m {
        lemma_u128_roundtrip(chunk_id);
        assert(p.subrange(0, 16) =~= u128_bytes(chunk_id));
    }
}

proof fn lemma_query_response_roundtrip(m: ChannelMessage, content: Seq<u8>)
    requires
        m is QueryResponse,
        message_well_formed(m),
        content.len() == 0,
    ensures
        payload_len_ok(message_type(m), (message_payload(m) + content).len() as int),
        message_of_payload(message_type(m), message_payload(m) + content) == Ok::<
            ChannelMessage,
            MDSFTPError,
        >(m),
{
    reveal(message_payload);
    reveal(message_of_payload);
    let p = message_payload(m) + content;
    if let ChannelMessage::QueryResponse { exists, size } = m {
        lemma_u64_roundtrip(size);
        assert(p.subrange(1, 9) =~= u64_bytes(size));
    }
}

/// Every well-formed message is read back as itself from its payload (for
/// `FileChunk`, from its payload followed by a non-empty content), and that
/// payload passes the packet type's pre-validation.
pub proof fn lemma_message_roundtrip(m: ChannelMessage, content: Seq<u8>)
    requires
        message_well_formed(m),
        m is FileChunk ==> content.len() >= 1,
        !(m is FileChunk) ==> content.len() == 0,
    ensures
        m is FileChunk ==> message_payload(m).len() == FILE_CHUNK_HEADER_SIZE,
        payload_len_ok(message_type(m), (message_payload(m) + content).len() as int),
        message_of_payload(message_type(m), message_payload(m) + content) == Ok::<
            ChannelMessage,
            MDSFTPError,
        >(m),
{
    reveal(message_payload);
    reveal(message_of_payload);
    match m {
        ChannelMessage::FileChunk { .. } => lemma_file_chunk_roundtrip(m, content),
        ChannelMessage::Retrieve { .. } => lemma_retrieve_roundtrip(m, content),
        ChannelMessage::Put { .. } => lemma_put_roundtrip(m, content),
        ChannelMessage::RecvAck { .. } => lemma_recv_ack_roundtrip(m, content),
        ChannelMessage::DeleteChunk { .. } => lemma_delete_chunk_roundtrip(m, content),
        ChannelMessage::Reserve { .. } => lemma_reserve_roundtrip(m, content),
        ChannelMessage::ReserveCancel { .. } => lemma_reserve_cancel_roundtrip(m, content),
        ChannelMessage::ReserveOk { .. } => lemma_reserve_ok_roundtrip(m, content),
        ChannelMessage::ReserveErr { .. } => lemma_reserve_err_roundtrip(m, content),
        ChannelMessage::LockReq { .. } => lemma_lock_req_roundtrip(m, content),
        ChannelMessage::LockAcquire { .. } => lemma_lock_acquire_roundtrip(m, content),
        ChannelMessage::LockErr { .. } => lemma_lock_err_roundtrip(m, content),
        ChannelMessage::PutOk { .. } => lemma_put_ok_roundtrip(m, content),
        ChannelMessage::PutErr { .. } => lemma_put_err_roundtrip(m, content),
        ChannelMessage::Commit { .. } => lemma_commit_roundtrip(m, content),
        ChannelMessage::Query { .. } => lemma_query_roundtrip(m, content),
        ChannelMessage::QueryResponse { .. } => lemma_query_response_roundtrip(m, content),
        ChannelMessage::ChannelOpen => {
            assert(content =~= Seq::<u8>::empty());
            assert(message_payload(m) + content =~= Seq::<u8>::empty());
        },
        ChannelMessage::ChannelClose => {
            assert(message_payload(m) + content =~= Seq::<u8>::empty());
        },
        ChannelMessage::ChannelErr => {
            assert(message_payload(m) + content =~= Seq::<u8>::empty());
        },
    }
}

/// Each message travels as the packet type of its own name, under that
/// type's number on the wire (`FileChunk` 1 ... `QueryResponse` 17,
/// `ChannelOpen` 128, `ChannelClose` 129, `ChannelErr` 130); and a payload of
/// a packet type, when it holds a message, holds one of that same type.
pub proof fn lemma_messages_keep_their_types(m: ChannelMessage, t: MDSFTPPacketType, p: Seq<u8>)
    ensures
        m is FileChunk <==> packet_type_id(message_type(m)) == 1,
        m is Retrieve <==> packet_type_id(message_type(m)) == 2,
        m is Put <==> packet_type_id(message_type(m)) == 3,
        m is RecvAck <==> packet_type_id(message_type(m)) == 4,
        m is DeleteChunk <==> packet_type_id(message_type(m)) == 5,
        m is Reserve <==> packet_type_id(message_type(m)) == 6,
        m is ReserveCancel <==> packet_type_id(message_type(m)) == 7,
        m is ReserveOk <==> packet_type_id(message_type(m)) == 8,
        m is ReserveErr <==> packet_type_id(message_type(m)) == 9,
        m is LockReq <==> packet_type_id(message_type(m)) == 10,
        m is LockAcquire <==> packet_type_id(message_type(m)) == 11,
        m is LockErr <==> packet_type_id(message_type(m)) == 12,
        m is PutOk <==> packet_type_id(message_type(m)) == 13,
        m is PutErr <==> packet_type_id(message_type(m)) == 14,
        m is Commit <==> packet_type_id(message_type(m)) == 15,
        m is Query <==> packet_type_id(message_type(m)) == 16,
        m is QueryResponse <==> packet_type_id(message_type(m)) == 17,
        m is ChannelOpen <==> packet_type_id(message_type(m)) == 128,
        m is ChannelClose <==> packet_type_id(message_type(m)) == 129,
        m is ChannelErr <==> packet_type_id(message_type(m)) == 130,
        message_of_payload(t, p) matches Ok(d) ==> message_type(d) == t,
{
    reveal(message_of_payload);
}

} // verus!
