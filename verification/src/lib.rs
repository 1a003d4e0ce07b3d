//! Wire formats, request bookkeeping and connection bookkeeping of the
//! Meowith node protocols (MDSFTP, MGPP and Catche), with their contracts.
pub mod bytes;
pub mod catche;
pub mod error;
pub mod file_transfer;
pub mod framework;
pub mod mdsftp;
pub mod mgpp;
