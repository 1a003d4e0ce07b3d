//! The MDSFTP packet types, their identifiers and their payload sizes.
use vstd::prelude::*;

verus! {

#[derive(Debug, Clone, Copy, PartialEq, Eq, Structural)]
pub enum MDSFTPPacketType {
    FileChunk,
    Retrieve,
    Put,
    RecvAck,
    DeleteChunk,
    Reserve,
    ReserveCancel,
    ReserveOk,
    ReserveErr,
    LockReq,
    LockAcquire,
    LockErr,
    PutOk,
    PutErr,
    Commit,
    Query,
    QueryResponse,
    ChannelOpen,
    ChannelClose,
    ChannelErr,
}

/// The identifier byte of a packet type on the wire.
pub open spec fn packet_type_id(t: MDSFTPPacketType) -> u8 {
    match t {
        MDSFTPPacketType::FileChunk => 1,
        MDSFTPPacketType::Retrieve => 2,
        MDSFTPPacketType::Put => 3,
        MDSFTPPacketType::RecvAck => 4,
        MDSFTPPacketType::DeleteChunk => 5,
        MDSFTPPacketType::Reserve => 6,
        MDSFTPPacketType::ReserveCancel => 7,
        MDSFTPPacketType::ReserveOk => 8,
        MDSFTPPacketType::ReserveErr => 9,
        MDSFTPPacketType::LockReq => 10,
        MDSFTPPacketType::LockAcquire => 11,
        MDSFTPPacketType::LockErr => 12,
        MDSFTPPacketType::PutOk => 13,
        MDSFTPPacketType::PutErr => 14,
        MDSFTPPacketType::Commit => 15,
        MDSFTPPacketType::Query => 16,
        MDSFTPPacketType::QueryResponse => 17,
        MDSFTPPacketType::ChannelOpen => 128,
        MDSFTPPacketType::ChannelClose => 129,
        MDSFTPPacketType::ChannelErr => 130,
    }
}

/// The packet type that an identifier byte names, if any.
pub open spec fn packet_type_of_id(id: u8) -> Option<MDSFTPPacketType> {
    if id == 1 {
        Some(MDSFTPPacketType::FileChunk)
    } else if id == 2 {
        Some(MDSFTPPacketType::Retrieve)
    } else if id == 3 {
        Some(MDSFTPPacketType::Put)
    } else if id == 4 {
        Some(MDSFTPPacketType::RecvAck)
    } else if id == 5 {
        Some(MDSFTPPacketType::DeleteChunk)
    } else if id == 6 {
        Some(MDSFTPPacketType::Reserve)
    } else if id == 7 {
        Some(MDSFTPPacketType::ReserveCancel)
    } else if id == 8 {
        Some(MDSFTPPacketType::ReserveOk)
    } else if id == 9 {
        Some(MDSFTPPacketType::ReserveErr)
    } else if id == 10 {
        Some(MDSFTPPacketType::LockReq)
    } else if id == 11 {
        Some(MDSFTPPacketType::LockAcquire)
    } else if id == 12 {
        Some(MDSFTPPacketType::LockErr)
    } else if id == 13 {
        Some(MDSFTPPacketType::PutOk)
    } else if id == 14 {
        Some(MDSFTPPacketType::PutErr)
    } else if id == 15 {
        Some(MDSFTPPacketType::Commit)
    } else if id == 16 {
        Some(MDSFTPPacketType::Query)
    } else if id == 17 {
        Some(MDSFTPPacketType::QueryResponse)
    } else if id == 128 {
        Some(MDSFTPPacketType::ChannelOpen)
    } else if id == 129 {
        Some(MDSFTPPacketType::ChannelClose)
    } else if id == 130 {
        Some(MDSFTPPacketType::ChannelErr)
    } else {
        None
    }
}

/// The payload size a packet type has: exact for every type but
/// `FileChunk`, for which it is the least size.
pub open spec fn packet_payload_size(t: MDSFTPPacketType) -> u32 {
    match t {
        MDSFTPPacketType::FileChunk => 6,
        MDSFTPPacketType::Retrieve => 34,
        MDSFTPPacketType::Put => 25,
        MDSFTPPacketType::RecvAck => 4,
        MDSFTPPacketType::Reserve => 9,
        MDSFTPPacketType::ReserveCancel => 16,
        MDSFTPPacketType::ReserveOk => 18,
        MDSFTPPacketType::ReserveErr => 8,
        MDSFTPPacketType::LockReq => 17,
        MDSFTPPacketType::LockAcquire => 17,
        MDSFTPPacketType::LockErr => 17,
        MDSFTPPacketType::ChannelOpen => 0,
        MDSFTPPacketType::ChannelClose => 0,
        MDSFTPPacketType::ChannelErr => 0,
        MDSFTPPacketType::DeleteChunk => 16,
        MDSFTPPacketType::PutOk => 2,
        MDSFTPPacketType::PutErr => 1,
        MDSFTPPacketType::Commit => 17,
        MDSFTPPacketType::Query => 16,
        MDSFTPPacketType::QueryResponse => 9,
    }
}

/// Whether a payload of `len` bytes is acceptable for a packet type.
pub open spec fn payload_len_ok(t: MDSFTPPacketType, len: int) -> bool {
    match t {
        MDSFTPPacketType::FileChunk => len >= packet_payload_size(t),
        _ => len == packet_payload_size(t),
    }
}

/// The identifier byte that the wire names no packet type with.
#[derive(Debug, Clone, Copy, PartialEq, Eq)]
pub struct UnknownPacketType {
    pub id: u8,
}

impl MDSFTPPacketType {
    /// The identifier byte of the packet type.
    pub fn id(&self) -> (r: u8)
        ensures
            r == packet_type_id(*self),
    {
        match self {
            MDSFTPPacketType::FileChunk => 1,
            MDSFTPPacketType::Retrieve => 2,
            MDSFTPPacketType::Put => 3,
            MDSFTPPacketType::RecvAck => 4,
            MDSFTPPacketType::DeleteChunk => 5,
            MDSFTPPacketType::Reserve => 6,
            MDSFTPPacketType::ReserveCancel => 7,
            MDSFTPPacketType::ReserveOk => 8,
            MDSFTPPacketType::ReserveErr => 9,
            MDSFTPPacketType::LockReq => 10,
            MDSFTPPacketType::LockAcquire => 11,
            MDSFTPPacketType::LockErr => 12,
            MDSFTPPacketType::PutOk => 13,
            MDSFTPPacketType::PutErr => 14,
            MDSFTPPacketType::Commit => 15,
            MDSFTPPacketType::Query => 16,
            MDSFTPPacketType::QueryResponse => 17,
            MDSFTPPacketType::ChannelOpen => 128,
            MDSFTPPacketType::ChannelClose => 129,
            MDSFTPPacketType::ChannelErr => 130,
        }
    }

    /// The packet type an identifier byte names.
    pub fn from_id(id: u8) -> (r: Option<Self>)
        ensures
            r == packet_type_of_id(id),
    {
        match id {
            1 => Some(MDSFTPPacketType::FileChunk),
            2 => Some(MDSFTPPacketType::Retrieve),
            3 => Some(MDSFTPPacketType::Put),
            4 => Some(MDSFTPPacketType::RecvAck),
            5 => Some(MDSFTPPacketType::DeleteChunk),
            6 => Some(MDSFTPPacketType::Reserve),
            7 => Some(MDSFTPPacketType::ReserveCancel),
            8 => Some(MDSFTPPacketType::ReserveOk),
            9 => Some(MDSFTPPacketType::ReserveErr),
            10 => Some(MDSFTPPacketType::LockReq),
            11 => Some(MDSFTPPacketType::LockAcquire),
            12 => Some(MDSFTPPacketType::LockErr),
            13 => Some(MDSFTPPacketType::PutOk),
            14 => Some(MDSFTPPacketType::PutErr),
            15 => Some(MDSFTPPacketType::Commit),
            16 => Some(MDSFTPPacketType::Query),
            17 => Some(MDSFTPPacketType::QueryResponse),
            128 => Some(MDSFTPPacketType::ChannelOpen),
            129 => Some(MDSFTPPacketType::ChannelClose),
            130 => Some(MDSFTPPacketType::ChannelErr),
            _ => None,
        }
    }

    /// Whether the packet type concerns the connection rather than a channel.
    pub fn is_system(&self) -> (r: bool)
        ensures
            r == (packet_type_id(*self) >= 128),
    {
        let id = self.id();
        id >= 128u8
    }

    /// The payload size of the packet type (the least size for `FileChunk`).
    pub fn payload_size(&self) -> (r: u32)
        ensures
            r == packet_payload_size(*self),
    {
        match self {
            MDSFTPPacketType::FileChunk => 6,
            MDSFTPPacketType::Retrieve => 34,
            MDSFTPPacketType::Put => 25,
            MDSFTPPacketType::RecvAck => 4,
            MDSFTPPacketType::Reserve => 9,
            MDSFTPPacketType::ReserveCancel => 16,
            MDSFTPPacketType::ReserveOk => 18,
            MDSFTPPacketType::ReserveErr => 8,
            MDSFTPPacketType::LockReq => 17,
            MDSFTPPacketType::LockAcquire => 17,
            MDSFTPPacketType::LockErr => 17,
            MDSFTPPacketType::ChannelOpen => 0,
            MDSFTPPacketType::ChannelClose => 0,
            MDSFTPPacketType::ChannelErr => 0,
            MDSFTPPacketType::DeleteChunk => 16,
            MDSFTPPacketType::PutOk => 2,
            MDSFTPPacketType::PutErr => 1,
            MDSFTPPacketType::Commit => 17,
            MDSFTPPacketType::Query => 16,
            MDSFTPPacketType::QueryResponse => 9,
        }
    }

    /// Checks a header's payload size against the packet type before the
    /// payload is read: at least the least size for `FileChunk`, exactly the
    /// size for every other type.
    pub fn pre_validate(&self, header: &crate::mdsftp::wire::MDSFTPHeader) -> (r: bool)
        ensures
            r == payload_len_ok(*self, header.payload_size as int),
    {
        match self {
            MDSFTPPacketType::FileChunk => header.payload_size >= self.payload_size(),
            _ => self.payload_size() == header.payload_size,
        }
    }
}

impl From<MDSFTPPacketType> for u8 {
    fn from(value: MDSFTPPacketType) -> (r: Self) {
        value.id()
    }
}

impl vstd::std_specs::convert::FromSpecImpl<MDSFTPPacketType> for u8 {
    open spec fn obeys_from_spec() -> bool {
        true
    }

    open spec fn from_spec(value: MDSFTPPacketType) -> Self {
        packet_type_id(value)
    }
}

impl TryFrom<u8> for MDSFTPPacketType {
    type Error = UnknownPacketType;

    fn try_from(value: u8) -> (r: Result<Self, UnknownPacketType>) {
        match MDSFTPPacketType::from_id(value) {
            Some(t) => Ok(t),
            None => Err(UnknownPacketType { id: value }),
        }
    }
}

impl vstd::std_specs::convert::TryFromSpecImpl<u8> for MDSFTPPacketType {
    open spec fn obeys_try_from_spec() -> bool {
        true
    }

    open spec fn try_from_spec(value: u8) -> Result<Self, UnknownPacketType> {
        match packet_type_of_id(value) {
            Some(t) => Ok(t),
            None => Err(UnknownPacketType { id: value }),
        }
    }
}

/// A packet type survives its identifier byte.
pub proof fn lemma_packet_type_id_roundtrip(t: MDSFTPPacketType)
    ensures
        packet_type_of_id(packet_type_id(t)) == Some(t),
{
}

/// An identifier byte that names a packet type is that type's identifier.
pub proof fn lemma_packet_type_of_id_inverse(id: u8)
    ensures
        packet_type_of_id(id) matches Some(t) ==> packet_type_id(t) == id,
{
}

/// Exactly the packet types with identifiers from 128 on concern the
/// connection, and those carry no payload.
pub proof fn lemma_system_types_have_no_payload(t: MDSFTPPacketType)
    ensures
        (packet_type_id(t) >= 128) == (t == MDSFTPPacketType::ChannelOpen || t
            == MDSFTPPacketType::ChannelClose || t == MDSFTPPacketType::ChannelErr),
        packet_type_id(t) >= 128 ==> packet_payload_size(t) == 0,
{
}

} // verus!
