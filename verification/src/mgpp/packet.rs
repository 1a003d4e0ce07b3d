//! MGPP packets and their wire format: one identifier byte, the payload's
//! length as a big-endian `u32`, then the payload.
use vstd::prelude::*;
use crate::bytes::{be_u32, get_bytes, get_u32, lemma_u32_bytes_of_value, lemma_u32_roundtrip, put_bytes, put_u32, u32_bytes};
use crate::error::{ProtocolError, ProtocolResult};
use crate::framework::traits::{Packet, PacketSerializer};

verus! {

/// The size of a packet header: the identifier byte and the payload length.
pub const PROTOCOL_HEADER_SIZE: usize = 5;

/// The identifier byte of `InvalidateCache` packets.
pub const INVALIDATE_CACHE_ID: u8 = 1;

/// The packets of MGPP.
#[derive(Debug, Clone, PartialEq, Eq)]
pub enum MGPPPacket {
    /// Drop the entry `cache_key` of the cache `cache_id`.
    InvalidateCache { cache_id: u32, cache_key: Vec<u8> },
}

/// A packet as a value: its fields, the key as a sequence of bytes.
pub ghost enum MGPPPacketView {
    InvalidateCache { cache_id: u32, cache_key: Seq<u8> },
}

impl View for MGPPPacket {
    type V = MGPPPacketView;

    open spec fn view(&self) -> MGPPPacketView {
        match self {
            MGPPPacket::InvalidateCache { cache_id, cache_key } => MGPPPacketView::InvalidateCache {
                cache_id: *cache_id,
                cache_key: cache_key@,
            },
        }
    }
}

/// The identifier byte of a packet.
pub open spec fn packet_id_of(p: MGPPPacketView) -> u8 {
    match p {
        MGPPPacketView::InvalidateCache { .. } => INVALIDATE_CACHE_ID,
    }
}

/// The packet kind that an identifier byte names, with its fields zeroed.
pub open spec fn packet_of_id(id: u8) -> Option<MGPPPacketView> {
    if id == INVALIDATE_CACHE_ID {
        Some(MGPPPacketView::InvalidateCache { cache_id: 0, cache_key: Seq::empty() })
    } else {
        None
    }
}

/// Whether a payload of `len` bytes fits a packet of the kind of `p`: an
/// `InvalidateCache` payload holds at least the four bytes of the cache id.
pub open spec fn length_fits(p: MGPPPacketView, len: int) -> bool {
    match p {
        MGPPPacketView::InvalidateCache { .. } => len >= 4,
    }
}

/// The payload of a packet: the cache id, big-endian, then the key.
pub open spec fn payload_of(p: MGPPPacketView) -> Seq<u8> {
    match p {
        MGPPPacketView::InvalidateCache { cache_id, cache_key } => u32_bytes(cache_id) + cache_key,
    }
}

/// The length field that stands for a payload of `n` bytes (the length,
/// modulo 2^32).
pub open spec fn length_field(n: nat) -> u32 {
    (n % 0x1_0000_0000) as u32
}

/// The bytes of a packet on the wire.
pub open spec fn packet_bytes(p: MGPPPacketView) -> Seq<u8> {
    seq![packet_id_of(p)] + u32_bytes(length_field(payload_of(p).len())) + payload_of(p)
}

/// What a five-byte header announces: the packet kind and the payload
/// length; an unknown identifier is `InvalidFormat`, a length that does not
/// fit the kind is `ConnectionError`.
pub open spec fn header_of(header: Seq<u8>) -> ProtocolResult<(MGPPPacketView, u32)> {
    match packet_of_id(header[0]) {
        None => Err(ProtocolError::InvalidFormat),
        Some(kind) => {
            let len = be_u32(header.subrange(1, 5)) as u32;
            if length_fits(kind, len as int) {
                Ok((kind, len))
            } else {
                Err(ProtocolError::ConnectionError)
            }
        },
    }
}

/// The packet of the kind of `kind` that a payload holds: for
/// `InvalidateCache`, the cache id in the first four bytes and the key in
/// the rest.
pub open spec fn packet_of_payload(kind: MGPPPacketView, payload: Seq<u8>) -> MGPPPacketView {
    match kind {
        MGPPPacketView::InvalidateCache { .. } => MGPPPacketView::InvalidateCache {
            cache_id: be_u32(payload.subrange(0, 4)) as u32,
            cache_key: payload.subrange(4, payload.len() as int),
        },
    }
}

impl MGPPPacket {
    /// The identifier byte of this packet.
    pub fn packet_id(&self) -> (r: u8)
        ensures
            r == packet_id_of(self@),
    {
        match self {
            MGPPPacket::InvalidateCache { .. } => INVALIDATE_CACHE_ID,
        }
    }

    /// The packet kind that an identifier byte names, with its fields
    /// zeroed; an unknown identifier is `InvalidFormat`.
    pub fn from_id(value: u8) -> (r: ProtocolResult<MGPPPacket>)
        ensures
            match r {
                Ok(p) => packet_of_id(value) == Some(p@),
                Err(e) => packet_of_id(value) is None && e == ProtocolError::InvalidFormat,
            },
    {
        if value == INVALIDATE_CACHE_ID {
            let key: Vec<u8> = Vec::new();
            let p = MGPPPacket::InvalidateCache { cache_id: 0, cache_key: key };
            assert(p@ == MGPPPacketView::InvalidateCache { cache_id: 0, cache_key: Seq::empty() });
            Ok(p)
        } else {
            Err(ProtocolError::InvalidFormat)
        }
    }
}

impl Packet for MGPPPacket {
    fn validate_length(&self, len: u32) -> (r: bool)
        ensures
            r == length_fits(self@, len as int),
    {
        match self {
            MGPPPacket::InvalidateCache { .. } => len >= 4,
        }
    }
}

/// Serializes MGPP packets.
#[derive(Debug)]
pub struct MGPPPacketSerializer;

impl PacketSerializer<MGPPPacket> for MGPPPacketSerializer {
    fn serialize_packet(&self, packet: MGPPPacket) -> (r: Vec<u8>)
        ensures
            r@ == packet_bytes(packet@),
    {
        let id = packet.packet_id();
        match packet {
            MGPPPacket::InvalidateCache { cache_id, cache_key } => {
                let key_len: u64 = cache_key.len() as u64;
                let len: u32 = ((key_len % 0x1_0000_0000 + 4) % 0x1_0000_0000) as u32;
                proof {
                    vstd::arithmetic::div_mod::lemma_add_mod_noop(
                        key_len as int,
                        4,
                        0x1_0000_0000,
                    );
                    assert(len == length_field(payload_of(packet@).len()));
                }
                let mut res: Vec<u8> = Vec::new();
                res.push(id);
                put_u32(&mut res, len);
                put_u32(&mut res, cache_id);
                put_bytes(&mut res, cache_key.as_slice());
                assert(res@ =~= packet_bytes(packet@));
                res
            },
        }
    }
}

/// Reads a packet header: the kind its identifier byte names (fields
/// zeroed) and the payload length, or the error that ends the connection.
pub fn parse_header(header: &[u8; 5]) -> (r: ProtocolResult<(MGPPPacket, u32)>)
    ensures
        match r {
            Ok((p, len)) => header_of(header@) == Ok::<(MGPPPacketView, u32), ProtocolError>(
                (p@, len),
            ),
            Err(e) => header_of(header@) == Err::<(MGPPPacketView, u32), ProtocolError>(e),
        },
{
    let s: &[u8] = header.as_slice();
    let kind = match MGPPPacket::from_id(s[0]) {
        Ok(p) => p,
        Err(e) => {
            return Err(e);
        },
    };
    let len = get_u32(s, 1);
    if !kind.validate_length(len) {
        return Err(ProtocolError::ConnectionError);
    }
    Ok((kind, len))
}

/// Reads the packet of the kind of `kind` from its payload.
pub fn decode_payload(kind: &MGPPPacket, payload: &[u8]) -> (r: MGPPPacket)
    requires
        length_fits(kind@, payload@.len() as int),
    ensures
        r@ == packet_of_payload(kind@, payload@),
{
    match kind {
        MGPPPacket::InvalidateCache { .. } => {
            let cache_id = get_u32(payload, 0);
            let cache_key = get_bytes(payload, 4, payload.len() - 4);
            MGPPPacket::InvalidateCache { cache_id, cache_key }
        },
    }
}

/// Reading a serialized packet gives it back: its header announces its
/// kind and the length of its payload, and its payload holds its fields.
pub proof fn lemma_packet_roundtrip(p: MGPPPacketView)
    requires
        payload_of(p).len() <= u32::MAX,
    ensures
        packet_bytes(p).len() == PROTOCOL_HEADER_SIZE + payload_of(p).len(),
        header_of(packet_bytes(p).subrange(0, 5)) matches Ok((kind, len)) && len
            == payload_of(p).len() && packet_of_payload(
            kind,
            packet_bytes(p).subrange(5, packet_bytes(p).len() as int),
        ) == p,
{
    match p {
        MGPPPacketView::InvalidateCache { cache_id, cache_key } => {
            let n = payload_of(p).len();
            let b = packet_bytes(p);
            assert(length_field(n) == n);
            lemma_u32_roundtrip(length_field(n));
            lemma_u32_roundtrip(cache_id);
            assert(b.subrange(0, 5).subrange(1, 5) =~= u32_bytes(length_field(n)));
            let payload = b.subrange(5, b.len() as int);
            assert(payload =~= payload_of(p));
            assert(payload.subrange(0, 4) =~= u32_bytes(cache_id));
            assert(payload.subrange(4, payload.len() as int) =~= cache_key);
        },
    }
}

/// Serializing a read packet gives back its payload.
pub proof fn lemma_payload_roundtrip(kind: MGPPPacketView, payload: Seq<u8>)
    requires
        length_fits(kind, payload.len() as int),
    ensures
        payload_of(packet_of_payload(kind, payload)) == payload,
{
    match kind {
        MGPPPacketView::InvalidateCache { .. } => {
            lemma_u32_bytes_of_value(payload.subrange(0, 4));
            assert(payload_of(packet_of_payload(kind, payload)) =~= payload);
        },
    }
}

} // verus!
