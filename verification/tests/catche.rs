use protocol::catche::wire::{invalidate_packet, read_invalidate_header, InvalidateHeader, INITIAL_SIZE};

#[test]
fn invalidate_packet_bytes() {
    let bytes = invalidate_packet(258, b"key");
    assert_eq!(bytes, vec![0, 0, 1, 2, 0, 0, 0, 0, 0, 0, 0, 3, b'k', b'e', b'y']);
}

#[test]
fn a_written_packet_has_its_layout() {
    let key = vec![7u8; 300];
    let bytes = invalidate_packet(0xffffffff, &key);
    assert_eq!(bytes.len(), 12 + 300);
    assert_eq!(&bytes[..4], &[0xff, 0xff, 0xff, 0xff]);
    assert_eq!(&bytes[4..12], &300u64.to_be_bytes());
    assert_eq!(&bytes[12..], key.as_slice());
}

#[test]
fn an_empty_key() {
    assert_eq!(invalidate_packet(1, &[]), vec![0, 0, 0, 1, 0, 0, 0, 0, 0, 0, 0, 0]);
}

#[test]
fn reading_a_fixed_part() {
    let raw = [0u8, 0, 1, 2, 0, 0, 0, 3];
    assert_eq!(raw.len(), INITIAL_SIZE);
    assert_eq!(read_invalidate_header(&raw), InvalidateHeader { cache_id: 258, key_len: 3 });
}
