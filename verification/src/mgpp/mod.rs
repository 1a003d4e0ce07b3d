//! MGPP, the protocol by which nodes tell each other to drop cached
//! entries: its packets, their wire format, and the handler table.
pub mod handler;
pub mod packet;
pub mod reconnect;
