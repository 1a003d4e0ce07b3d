//! The nine-byte MDSFTP packet header.
use vstd::prelude::*;
use crate::bytes::{
    be_u128, be_u32, get_u128, get_u32, lemma_u128_bytes_of_value, lemma_u128_roundtrip,
    lemma_u32_bytes_of_value, lemma_u32_roundtrip, put_u128, put_u32, u128_bytes, u32_bytes,
};

verus! {

/// The header of every MDSFTP packet: its type, its channel and the length
/// of the payload that follows.
#[derive(Debug, Clone, Copy, PartialEq, Eq, Structural)]
pub struct MDSFTPHeader {
    pub packet_id: u8,
    pub stream_id: u32,
    pub payload_size: u32,
}

pub const HEADER_SIZE: usize = 9;

/// The largest payload a packet can carry.
pub const PAYLOAD_SIZE: u64 = 4294967295;

/// The largest packet, header included.
pub const MAX_PACKET_SIZE: u64 = 4294967304;

/// The nine bytes of a header: the packet id, then the stream id and the
/// payload size, each big-endian.
pub open spec fn header_bytes(h: MDSFTPHeader) -> Seq<u8> {
    seq![h.packet_id] + u32_bytes(h.stream_id) + u32_bytes(h.payload_size)
}

/// The header that nine bytes hold.
pub open spec fn header_of(raw: Seq<u8>) -> MDSFTPHeader {
    MDSFTPHeader {
        packet_id: raw[0],
        stream_id: be_u32(raw.subrange(1, 5)) as u32,
        payload_size: be_u32(raw.subrange(5, 9)) as u32,
    }
}

/// Reads a header from its nine bytes.
pub fn read_header(raw: &[u8; 9]) -> (h: MDSFTPHeader)
    ensures
        h == header_of(raw@),
{
    let s: &[u8] = raw.as_slice();
    MDSFTPHeader { packet_id: s[0], stream_id: get_u32(s, 1), payload_size: get_u32(s, 5) }
}

/// Writes a header into the first nine bytes of `buf`.
pub fn write_header(header: &MDSFTPHeader, buf: &mut [u8])
    requires
        old(buf)@.len() >= 9,
    ensures
        final(buf)@ == header_bytes(*header) + old(buf)@.subrange(9, old(buf)@.len() as int),
{
    let mut bytes: Vec<u8> = Vec::new();
    bytes.push(header.packet_id);
    put_u32(&mut bytes, header.stream_id);
    put_u32(&mut bytes, header.payload_size);
    let mut i: usize = 0;
    while i < 9
        invariant
            bytes@ == header_bytes(*header),
            buf@.len() == old(buf)@.len(),
            old(buf)@.len() >= 9,
            i <= 9,
            forall|j: int| 0 <= j < i ==> buf@[j] == bytes@[j],
            forall|j: int| i <= j < buf@.len() ==> buf@[j] == old(buf)@[j],
        decreases 9 - i,
    {
        buf[i] = bytes[i];
        i = i + 1;
    }
    assert(buf@ =~= header_bytes(*header) + old(buf)@.subrange(9, old(buf)@.len() as int));
}

/// The nine bytes of a header, as a vector.
pub fn header_to_bytes(header: &MDSFTPHeader) -> (r: Vec<u8>)
    ensures
        r@ == header_bytes(*header),
{
    let mut bytes: Vec<u8> = Vec::new();
    bytes.push(header.packet_id);
    put_u32(&mut bytes, header.stream_id);
    put_u32(&mut bytes, header.payload_size);
    bytes
}

/// Reading back a written header gives the header.
pub proof fn lemma_header_roundtrip(h: MDSFTPHeader)
    ensures
        header_bytes(h).len() == 9,
        header_of(header_bytes(h)) == h,
{
    let b = header_bytes(h);
    lemma_u32_roundtrip(h.stream_id);
    lemma_u32_roundtrip(h.payload_size);
    assert(b.subrange(1, 5) =~= u32_bytes(h.stream_id));
    assert(b.subrange(5, 9) =~= u32_bytes(h.payload_size));
}

/// Writing a read header gives back its nine bytes.
pub proof fn lemma_header_bytes_roundtrip(raw: Seq<u8>)
    requires
        raw.len() == 9,
    ensures
        header_bytes(header_of(raw)) == raw,
{
    lemma_u32_bytes_of_value(raw.subrange(1, 5));
    lemma_u32_bytes_of_value(raw.subrange(5, 9));
    assert(header_bytes(header_of(raw)) =~= raw);
}

/// The size of the header with which a connecting node names itself.
pub const AUTH_HEADER_SIZE: usize = 16;

/// The header with which a node names itself when it opens a connection:
/// the sixteen bytes of its identifier (its UUID), big-endian.
pub fn auth_header(node_id: u128) -> (r: Vec<u8>)
    ensures
        r@ == u128_bytes(node_id),
{
    let mut bytes: Vec<u8> = Vec::new();
    put_u128(&mut bytes, node_id);
    assert(bytes@ =~= u128_bytes(node_id));
    bytes
}

/// The identifier that the header of an incoming connection names.
pub fn read_auth_header(raw: &[u8; 16]) -> (r: u128)
    ensures
        r == be_u128(raw@),
{
    let s: &[u8] = raw.as_slice();
    let r = get_u128(s, 0);
    assert(s@.subrange(0, 16) =~= raw@);
    r
}

/// A node is known by the identifier it names itself with.
pub proof fn lemma_auth_header_roundtrip(node_id: u128)
    ensures
        u128_bytes(node_id).len() == AUTH_HEADER_SIZE,
        be_u128(u128_bytes(node_id)) == node_id,
{
    lemma_u128_roundtrip(node_id);
}

/// An auth header written for the identifier read from one is that header.
pub proof fn lemma_auth_header_bytes_roundtrip(raw: Seq<u8>)
    requires
        raw.len() == AUTH_HEADER_SIZE,
    ensures
        u128_bytes(be_u128(raw) as u128) == raw,
{
    lemma_u128_bytes_of_value(raw);
}

} // verus!
