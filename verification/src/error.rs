//! Error kinds of the protocols.
use vstd::prelude::*;

verus! {

/// Errors of the MDSFTP file transfer protocol.
///
/// Where the underlying failure came from the TLS or socket layer, its
/// description is carried as text.
#[derive(Debug, Clone, PartialEq, Eq)]
pub enum MDSFTPError {
    ConnectionError,
    SSLError(Option<String>),
    NoSuchNode,
    AddressResolutionError,
    ConnectionAuthenticationError,
    NoSuchChunkId,
    ReserveError(u64),
    MaxChannels,
    Interrupted,
    ShuttingDown,
    RemoteError,
    NoPacketHandler,
    NoPool,
}

pub type MDSFTPResult<T> = Result<T, MDSFTPError>;

/// Errors of the MGPP broadcast protocol.
#[derive(Debug, Clone, PartialEq, Eq)]
pub enum MGPPError {
    ConnectionError,
    SSLError(Option<String>),
    AddressResolutionError,
    ConnectionAuthenticationError,
    ShuttingDown,
}

pub type MGPPResult<T> = Result<T, MGPPError>;

/// Errors of the Catche cache invalidation protocol.
#[derive(Debug, Clone, PartialEq, Eq)]
pub enum CatcheError {
    ConnectionError,
    SSLError(Option<String>),
    AddressResolutionError,
    ConnectionAuthenticationError,
    ShuttingDown,
}

pub type CatcheResult<T> = Result<T, CatcheError>;

/// Errors of the generic packet framework.
#[derive(Debug, Clone, PartialEq, Eq)]
pub enum ProtocolError {
    ShuttingDown,
    ConnectionError,
    AuthenticationFailed,
    WriteError(String),
    InvalidFormat,
    SizeMismatch,
    ReadError(String),
    Uuid(String),
    Ambiguous(String),
    Custom(String),
}

pub type ProtocolResult<T> = Result<T, ProtocolError>;

} // verus!
