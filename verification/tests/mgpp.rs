use protocol::error::ProtocolError;
use protocol::framework::traits::{Packet, PacketSerializer};
use protocol::mgpp::handler::{MGPPHandlers, MGPPHandlersMapper};
use protocol::mgpp::packet::{
    decode_payload, parse_header, MGPPPacket, MGPPPacketSerializer, PROTOCOL_HEADER_SIZE,
};

#[test]
fn invalidate_cache_bytes() {
    let bytes = MGPPPacketSerializer.serialize_packet(MGPPPacket::InvalidateCache {
        cache_id: 5,
        cache_key: vec![32],
    });
    assert_eq!(bytes, vec![1, 0, 0, 0, 5, 0, 0, 0, 5, 32]);
}

#[test]
fn a_serialized_packet_reads_back() {
    let packet = MGPPPacket::InvalidateCache { cache_id: 0xdeadbeef, cache_key: b"bucket/file".to_vec() };
    let bytes = MGPPPacketSerializer.serialize_packet(packet.clone());
    let mut header = [0u8; PROTOCOL_HEADER_SIZE];
    header.copy_from_slice(&bytes[..PROTOCOL_HEADER_SIZE]);
    let (kind, len) = parse_header(&header).unwrap();
    assert_eq!(len as usize, bytes.len() - PROTOCOL_HEADER_SIZE);
    let read = decode_payload(&kind, &bytes[PROTOCOL_HEADER_SIZE..]);
    assert_eq!(read, packet);
}

#[test]
fn an_empty_key_reads_back() {
    let packet = MGPPPacket::InvalidateCache { cache_id: 1, cache_key: Vec::new() };
    let bytes = MGPPPacketSerializer.serialize_packet(packet.clone());
    assert_eq!(bytes, vec![1, 0, 0, 0, 4, 0, 0, 0, 1]);
    let (kind, _) = parse_header(&[1, 0, 0, 0, 4]).unwrap();
    assert_eq!(decode_payload(&kind, &bytes[5..]), packet);
}

#[test]
fn identifiers() {
    let p = MGPPPacket::InvalidateCache { cache_id: 9, cache_key: vec![1, 2] };
    assert_eq!(p.packet_id(), 1);
    assert_eq!(
        MGPPPacket::from_id(1),
        Ok(MGPPPacket::InvalidateCache { cache_id: 0, cache_key: Vec::new() })
    );
    assert_eq!(MGPPPacket::from_id(0), Err(ProtocolError::InvalidFormat));
    assert_eq!(MGPPPacket::from_id(2), Err(ProtocolError::InvalidFormat));
}

#[test]
fn length_validation() {
    let p = MGPPPacket::InvalidateCache { cache_id: 0, cache_key: Vec::new() };
    assert!(!p.validate_length(3));
    assert!(p.validate_length(4));
    assert!(p.validate_length(u32::MAX));
}

#[test]
fn header_errors() {
    assert_eq!(parse_header(&[7, 0, 0, 0, 10]).unwrap_err(), ProtocolError::InvalidFormat);
    assert_eq!(parse_header(&[1, 0, 0, 0, 3]).unwrap_err(), ProtocolError::ConnectionError);
    let (_, len) = parse_header(&[1, 0, 0, 1, 0]).unwrap();
    assert_eq!(len, 256);
}

#[test]
fn handlers_route_to_their_table() {
    let handlers = MGPPHandlers::new(String::from("invalidate"));
    assert_eq!(handlers.invalidate_cache, "invalidate");
    let mapper = MGPPHandlersMapper::new(handlers);
    assert_eq!(mapper.invalidate_cache_handler(), "invalidate");
}
