use protocol::mdsftp::packet_type::{MDSFTPPacketType, UnknownPacketType};
use protocol::mdsftp::wire::MDSFTPHeader;

const ALL: [MDSFTPPacketType; 20] = [
    MDSFTPPacketType::FileChunk,
    MDSFTPPacketType::Retrieve,
    MDSFTPPacketType::Put,
    MDSFTPPacketType::RecvAck,
    MDSFTPPacketType::DeleteChunk,
    MDSFTPPacketType::Reserve,
    MDSFTPPacketType::ReserveCancel,
    MDSFTPPacketType::ReserveOk,
    MDSFTPPacketType::ReserveErr,
    MDSFTPPacketType::LockReq,
    MDSFTPPacketType::LockAcquire,
    MDSFTPPacketType::LockErr,
    MDSFTPPacketType::PutOk,
    MDSFTPPacketType::PutErr,
    MDSFTPPacketType::Commit,
    MDSFTPPacketType::Query,
    MDSFTPPacketType::QueryResponse,
    MDSFTPPacketType::ChannelOpen,
    MDSFTPPacketType::ChannelClose,
    MDSFTPPacketType::ChannelErr,
];

#[test]
fn identifiers_follow_the_wire_numbering() {
    let ids: Vec<u8> = ALL.iter().map(|t| t.id()).collect();
    assert_eq!(
        ids,
        vec![1, 2, 3, 4, 5, 6, 7, 8, 9, 10, 11, 12, 13, 14, 15, 16, 17, 128, 129, 130]
    );
    for t in ALL {
        assert_eq!(u8::from(t), t.id());
    }
}

#[test]
fn identifiers_read_back() {
    for t in ALL {
        assert_eq!(MDSFTPPacketType::from_id(t.id()), Some(t));
        assert_eq!(MDSFTPPacketType::try_from(t.id()), Ok(t));
    }
    for id in [0u8, 18, 100, 127, 131, 255] {
        assert_eq!(MDSFTPPacketType::from_id(id), None);
        assert_eq!(MDSFTPPacketType::try_from(id), Err(UnknownPacketType { id }));
    }
}

#[test]
fn system_types_are_those_from_128() {
    for t in ALL {
        assert_eq!(t.is_system(), t.id() >= 128);
    }
    assert!(MDSFTPPacketType::ChannelOpen.is_system());
    assert!(!MDSFTPPacketType::QueryResponse.is_system());
}

#[test]
fn payload_sizes() {
    let sizes: Vec<u32> = ALL.iter().map(|t| t.payload_size()).collect();
    assert_eq!(
        sizes,
        vec![6, 34, 25, 4, 16, 9, 16, 18, 8, 17, 17, 17, 2, 1, 17, 16, 9, 0, 0, 0]
    );
}

fn header(t: MDSFTPPacketType, payload_size: u32) -> MDSFTPHeader {
    MDSFTPHeader { packet_id: t.id(), stream_id: 7, payload_size }
}

#[test]
fn pre_validation_is_exact_but_for_file_chunks() {
    let t = MDSFTPPacketType::Retrieve;
    assert!(t.pre_validate(&header(t, 34)));
    assert!(!t.pre_validate(&header(t, 33)));
    assert!(!t.pre_validate(&header(t, 35)));
    let f = MDSFTPPacketType::FileChunk;
    assert!(!f.pre_validate(&header(f, 5)));
    assert!(f.pre_validate(&header(f, 6)));
    assert!(f.pre_validate(&header(f, 65535)));
    let o = MDSFTPPacketType::ChannelOpen;
    assert!(o.pre_validate(&header(o, 0)));
    assert!(!o.pre_validate(&header(o, 1)));
}
