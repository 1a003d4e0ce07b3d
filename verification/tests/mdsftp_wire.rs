use protocol::mdsftp::wire::{
    auth_header, header_to_bytes, read_auth_header, read_header, write_header, MDSFTPHeader,
    AUTH_HEADER_SIZE, HEADER_SIZE,
};

#[test]
fn test_header() {
    let mut buf: [u8; HEADER_SIZE] = [0; HEADER_SIZE];
    let header = MDSFTPHeader {
        packet_id: 10,
        stream_id: 70201376,
        payload_size: 396760137,
    };

    write_header(&header, &mut buf);
    let read = read_header(&buf);

    assert_eq!(read, header);
}

#[test]
fn header_bytes_are_big_endian() {
    let header = MDSFTPHeader { packet_id: 0x81, stream_id: 0x01020304, payload_size: 0x0a0b0c0d };
    let bytes = header_to_bytes(&header);
    assert_eq!(bytes, vec![0x81, 1, 2, 3, 4, 0x0a, 0x0b, 0x0c, 0x0d]);
    let mut raw = [0u8; HEADER_SIZE];
    raw.copy_from_slice(&bytes);
    assert_eq!(read_header(&raw), header);
}

#[test]
fn write_header_keeps_the_rest_of_the_buffer() {
    let mut buf = [0xeeu8; 12];
    let header = MDSFTPHeader { packet_id: 1, stream_id: 2, payload_size: 3 };
    write_header(&header, &mut buf);
    assert_eq!(buf, [1, 0, 0, 0, 2, 0, 0, 0, 3, 0xee, 0xee, 0xee]);
}

#[test]
fn auth_headers_name_the_node() {
    let id: u128 = 0x00112233445566778899aabbccddeeff;
    let bytes = auth_header(id);
    assert_eq!(bytes.len(), AUTH_HEADER_SIZE);
    assert_eq!(bytes[0], 0x00);
    assert_eq!(bytes[1], 0x11);
    assert_eq!(bytes[15], 0xff);
    let mut raw = [0u8; 16];
    raw.copy_from_slice(&bytes);
    assert_eq!(read_auth_header(&raw), id);
    assert_eq!(read_auth_header(&[0u8; 16]), 0);
}
