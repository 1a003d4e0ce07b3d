//! The traits a protocol's packets and serializers implement.
use vstd::prelude::*;

verus! {

/// A packet of a framework protocol. Each kind of packet accepts some
/// payload lengths; a header announcing any other length ends the
/// connection.
pub trait Packet {
    /// Whether a payload of `len` bytes fits a packet of this kind.
    fn validate_length(&self, len: u32) -> bool;
}

/// Turns packets of a protocol into the bytes that go on the wire.
pub trait PacketSerializer<T: Packet> {
    /// The packet with its header: one identifier byte, the payload's
    /// length as a big-endian `u32`, then the payload.
    fn serialize_packet(&self, packet: T) -> Vec<u8>;
}

} // verus!
