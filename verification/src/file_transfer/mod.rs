//! The earlier generation of the file transfer protocol, of which the
//! byte encodings of lock and error kinds remain in use.
pub mod data;
