//! Whole MDSFTP packets: a header followed by its payload.
use vstd::prelude::*;
use crate::bytes::{get_bytes, put_bytes};
use crate::error::MDSFTPError;
use crate::mdsftp::message::{
    decode_payload, lemma_message_roundtrip, message_of_payload, message_payload, message_type,
    message_well_formed, write_message_payload, ChannelMessage, FILE_CHUNK_HEADER_SIZE,
};
use crate::mdsftp::packet_type::{
    packet_type_id, packet_type_of_id, payload_len_ok, lemma_packet_type_id_roundtrip,
    MDSFTPPacketType,
};
use crate::mdsftp::wire::{
    header_bytes, header_of, header_to_bytes, lemma_header_roundtrip, read_header, MDSFTPHeader,
    HEADER_SIZE,
};

verus! {

/// Why bytes do not hold a packet.
#[derive(Debug, Clone, PartialEq, Eq)]
pub enum FrameError {
    /// Fewer bytes than the header, or than the payload it announces.
    Truncated,
    /// The header names no packet type.
    UnknownPacketType(u8),
    /// The payload size does not suit the packet type.
    InvalidLength,
    /// The payload does not hold a message of its type.
    Payload(MDSFTPError),
}

/// A packet read from bytes. `content` is the chunk content of a
/// `FileChunk`, and empty for every other message.
#[derive(Debug, Clone)]
pub struct Frame {
    pub stream_id: u32,
    pub message: ChannelMessage,
    pub content: Vec<u8>,
}

/// The header of the packet that carries `m` (and, for a `FileChunk`, the
/// chunk content `content`) on channel `stream_id`.
pub open spec fn frame_header(stream_id: u32, m: ChannelMessage, content: Seq<u8>) -> MDSFTPHeader {
    MDSFTPHeader {
        packet_id: packet_type_id(message_type(m)),
        stream_id,
        payload_size: (message_payload(m).len() + content.len()) as u32,
    }
}

/// The bytes of the packet that carries `m` and `content` on channel
/// `stream_id`.
pub open spec fn frame_bytes(stream_id: u32, m: ChannelMessage, content: Seq<u8>) -> Seq<u8> {
    header_bytes(frame_header(stream_id, m, content)) + message_payload(m) + content
}

/// What the front of `bytes` holds: the channel, the message, the chunk
/// content and the number of bytes the packet takes; or why it holds none.
pub open spec fn frame_of_bytes(bytes: Seq<u8>) -> Result<
    (u32, ChannelMessage, Seq<u8>, nat),
    FrameError,
> {
    if bytes.len() < 9 {
        Err(FrameError::Truncated)
    } else {
        let h = header_of(bytes.subrange(0, 9));
        match packet_type_of_id(h.packet_id) {
            None => Err(FrameError::UnknownPacketType(h.packet_id)),
            Some(t) => if !payload_len_ok(t, h.payload_size as int) {
                Err(FrameError::InvalidLength)
            } else if bytes.len() < 9 + h.payload_size {
                Err(FrameError::Truncated)
            } else {
                let payload = bytes.subrange(9, 9 + h.payload_size);
                match message_of_payload(t, payload) {
                    Err(e) => Err(FrameError::Payload(e)),
                    Ok(m) => Ok(
                        (
                            h.stream_id,
                            m,
                            if t == MDSFTPPacketType::FileChunk {
                                payload.subrange(5, payload.len() as int)
                            } else {
                                Seq::empty()
                            },
                            (9 + h.payload_size) as nat,
                        ),
                    ),
                }
            },
        }
    }
}

/// Reads a header and checks it before its payload is read: the packet
/// type must be known and the payload size must suit it.
pub fn parse_header(raw: &[u8; 9]) -> (r: Result<(MDSFTPPacketType, MDSFTPHeader), FrameError>)
    ensures
        ({
            let h = header_of(raw@);
            match packet_type_of_id(h.packet_id) {
                None => r == Err::<(MDSFTPPacketType, MDSFTPHeader), FrameError>(
                    FrameError::UnknownPacketType(h.packet_id),
                ),
                Some(t) => if payload_len_ok(t, h.payload_size as int) {
                    r == Ok::<(MDSFTPPacketType, MDSFTPHeader), FrameError>((t, h))
                } else {
                    r == Err::<(MDSFTPPacketType, MDSFTPHeader), FrameError>(
                        FrameError::InvalidLength,
                    )
                },
            }
        }),
{
    let header = read_header(raw);
    match MDSFTPPacketType::from_id(header.packet_id) {
        None => Err(FrameError::UnknownPacketType(header.packet_id)),
        Some(t) => {
            if t.pre_validate(&header) {
                Ok((t, header))
            } else {
                Err(FrameError::InvalidLength)
            }
        },
    }
}

/// The bytes of the packet that carries `m` on channel `stream_id`; for a
/// `FileChunk`, `content` is the chunk content that follows the message.
pub fn encode_frame(stream_id: u32, m: &ChannelMessage, content: &[u8]) -> (r: Vec<u8>)
    requires
        message_payload(*m).len() + content@.len() <= u32::MAX,
    ensures
        r@ == frame_bytes(stream_id, *m, content@),
{
    let mut payload: Vec<u8> = Vec::new();
    write_message_payload(m, &mut payload);
    let size = payload.len() + content.len();
    let header = MDSFTPHeader {
        packet_id: m.packet_type().id(),
        stream_id,
        payload_size: size as u32,
    };
    let mut out = header_to_bytes(&header);
    put_bytes(&mut out, payload.as_slice());
    put_bytes(&mut out, content);
    out
}

/// Reads the packet at the front of `bytes`, with the number of bytes it
/// takes. A packet whose payload holds no message (a retrieval with a
/// reversed range) is `Payload`: its bytes are all there, and a reader
/// drops that packet and reads on.
pub fn decode_frame(bytes: &[u8]) -> (r: Result<(Frame, usize), FrameError>)
    ensures
        match r {
            Ok((f, n)) => frame_of_bytes(bytes@) == Ok::<
                (u32, ChannelMessage, Seq<u8>, nat),
                FrameError,
            >((f.stream_id, f.message, f.content@, n as nat)),
            Err(e) => frame_of_bytes(bytes@) == Err::<(u32, ChannelMessage, Seq<u8>, nat), FrameError>(
                e,
            ),
        },
{
    if bytes.len() < HEADER_SIZE {
        return Err(FrameError::Truncated);
    }
    let mut raw: [u8; 9] = [0u8; 9];
    let mut i: usize = 0;
    while i < 9
        invariant
            i <= 9,
            bytes@.len() >= 9,
            raw@.len() == 9,
            forall|j: int| 0 <= j < i ==> raw@[j] == bytes@[j],
        decreases 9 - i,
    {
        raw[i] = bytes[i];
        i = i + 1;
    }
    assert(raw@ =~= bytes@.subrange(0, 9));
    let (t, header) = match parse_header(&raw) {
        Ok(v) => v,
        Err(e) => {
            return Err(e);
        },
    };
    let size = header.payload_size as usize;
    if bytes.len() - HEADER_SIZE < size {
        return Err(FrameError::Truncated);
    }
    let payload = get_bytes(bytes, HEADER_SIZE, size);
    match decode_payload(t, payload.as_slice()) {
        Err(e) => Err(FrameError::Payload(e)),
        Ok(message) => {
            let content = match t {
                MDSFTPPacketType::FileChunk => get_bytes(
                    payload.as_slice(),
                    FILE_CHUNK_HEADER_SIZE,
                    size - FILE_CHUNK_HEADER_SIZE,
                ),
                _ => Vec::new(),
            };
            Ok((Frame { stream_id: header.stream_id, message, content }, HEADER_SIZE + size))
        },
    }
}

/// A packet written for a well-formed message is read back as that message,
/// with its content and its channel, from any bytes it stands in front of;
/// and it takes exactly its own bytes. A `FileChunk` needs a non-empty
/// content, every other message none.
pub proof fn lemma_frame_roundtrip(
    stream_id: u32,
    m: ChannelMessage,
    content: Seq<u8>,
    rest: Seq<u8>,
)
    requires
        message_well_formed(m),
        m is FileChunk ==> content.len() >= 1,
        !(m is FileChunk) ==> content.len() == 0,
        message_payload(m).len() + content.len() <= u32::MAX,
    ensures
        frame_of_bytes(frame_bytes(stream_id, m, content) + rest) == Ok::<
            (u32, ChannelMessage, Seq<u8>, nat),
            FrameError,
        >((stream_id, m, content, frame_bytes(stream_id, m, content).len())),
{
    let h = frame_header(stream_id, m, content);
    let payload = message_payload(m) + content;
    let bytes = frame_bytes(stream_id, m, content) + rest;
    lemma_header_roundtrip(h);
    lemma_packet_type_id_roundtrip(message_type(m));
    lemma_message_roundtrip(m, content);
    assert(bytes.subrange(0, 9) =~= header_bytes(h));
    assert(bytes.subrange(9, 9 + h.payload_size) =~= payload);
    assert(header_of(bytes.subrange(0, 9)) == h);
    assert(h.payload_size == payload.len());
    assert(frame_bytes(stream_id, m, content).len() == 9 + h.payload_size);
    if m is FileChunk {
        assert(payload.subrange(5, payload.len() as int) =~= content);
    } else {
        assert(content =~= Seq::<u8>::empty());
    }
}

} // verus!
