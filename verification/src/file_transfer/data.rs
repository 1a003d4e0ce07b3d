//! Lock kinds and chunk error kinds of the file transfer protocol, with
//! their byte encodings.
use vstd::prelude::*;
use crate::error::MDSFTPError;

verus! {

#[derive(Debug, Clone, Copy, PartialEq, Eq, Structural)]
pub enum LockKind {
    Read,
    Write,
}

/// The lock kind that the low bit of a byte selects.
pub open spec fn lock_kind_of(value: u8) -> LockKind {
    if value % 2 == 0 {
        LockKind::Read
    } else {
        LockKind::Write
    }
}

/// The byte that stands for a lock kind.
pub open spec fn lock_kind_bits(kind: LockKind) -> u8 {
    match kind {
        LockKind::Read => 0,
        LockKind::Write => 1,
    }
}

impl From<u8> for LockKind {
    fn from(value: u8) -> (r: Self) {
        assert((value & 0x01 == 0) == (value % 2 == 0)) by (bit_vector);
        if value & 0x01 == 0 {
            LockKind::Read
        } else {
            LockKind::Write
        }
    }
}

impl vstd::std_specs::convert::FromSpecImpl<u8> for LockKind {
    open spec fn obeys_from_spec() -> bool {
        true
    }

    open spec fn from_spec(value: u8) -> Self {
        lock_kind_of(value)
    }
}

impl From<LockKind> for u8 {
    fn from(value: LockKind) -> (r: Self) {
        match value {
            LockKind::Read => 0u8,
            LockKind::Write => 1u8,
        }
    }
}

impl vstd::std_specs::convert::FromSpecImpl<LockKind> for u8 {
    open spec fn obeys_from_spec() -> bool {
        true
    }

    open spec fn from_spec(value: LockKind) -> Self {
        lock_kind_bits(value)
    }
}

#[derive(Debug, Clone, Copy, PartialEq, Eq, Structural)]
pub enum ChunkErrorKind {
    Internal,
    NotFound,
}

/// The chunk error kind that the second bit of a byte selects.
pub open spec fn chunk_error_of(value: u8) -> ChunkErrorKind {
    if (value / 2) % 2 == 0 {
        ChunkErrorKind::Internal
    } else {
        ChunkErrorKind::NotFound
    }
}

/// The byte that stands for a chunk error kind.
pub open spec fn chunk_error_bits(kind: ChunkErrorKind) -> u8 {
    match kind {
        ChunkErrorKind::Internal => 0,
        ChunkErrorKind::NotFound => 2,
    }
}

/// The protocol error that a chunk error kind reports.
pub open spec fn chunk_error_as_error(kind: ChunkErrorKind) -> MDSFTPError {
    match kind {
        ChunkErrorKind::Internal => MDSFTPError::RemoteError,
        ChunkErrorKind::NotFound => MDSFTPError::NoSuchChunkId,
    }
}

impl From<ChunkErrorKind> for MDSFTPError {
    fn from(value: ChunkErrorKind) -> (r: Self) {
        match value {
            ChunkErrorKind::Internal => MDSFTPError::RemoteError,
            ChunkErrorKind::NotFound => MDSFTPError::NoSuchChunkId,
        }
    }
}

impl vstd::std_specs::convert::FromSpecImpl<ChunkErrorKind> for MDSFTPError {
    open spec fn obeys_from_spec() -> bool {
        true
    }

    open spec fn from_spec(value: ChunkErrorKind) -> Self {
        chunk_error_as_error(value)
    }
}

impl From<u8> for ChunkErrorKind {
    fn from(value: u8) -> (r: Self) {
        assert((value & 0x2 == 0) == ((value / 2) % 2 == 0)) by (bit_vector);
        if value & 0x2 == 0 {
            ChunkErrorKind::Internal
        } else {
            ChunkErrorKind::NotFound
        }
    }
}

impl vstd::std_specs::convert::FromSpecImpl<u8> for ChunkErrorKind {
    open spec fn obeys_from_spec() -> bool {
        true
    }

    open spec fn from_spec(value: u8) -> Self {
        chunk_error_of(value)
    }
}

impl From<ChunkErrorKind> for u8 {
    fn from(value: ChunkErrorKind) -> (r: Self) {
        match value {
            ChunkErrorKind::Internal => 0u8,
            ChunkErrorKind::NotFound => 2u8,
        }
    }
}

impl vstd::std_specs::convert::FromSpecImpl<ChunkErrorKind> for u8 {
    open spec fn obeys_from_spec() -> bool {
        true
    }

    open spec fn from_spec(value: ChunkErrorKind) -> Self {
        chunk_error_bits(value)
    }
}

/// A lock kind survives its byte encoding.
pub proof fn lemma_lock_kind_roundtrip(kind: LockKind)
    ensures
        lock_kind_of(lock_kind_bits(kind)) == kind,
{
}

/// Only the low bit of a byte decides the lock kind it encodes.
pub proof fn lemma_lock_kind_bits_of(value: u8)
    ensures
        lock_kind_bits(lock_kind_of(value)) == value % 2,
{
}

/// A chunk error kind survives its byte encoding, also when a lock kind
/// shares the byte.
pub proof fn lemma_chunk_error_roundtrip(kind: ChunkErrorKind, lock: LockKind)
    ensures
        chunk_error_of(chunk_error_bits(kind)) == kind,
        chunk_error_of((chunk_error_bits(kind) + lock_kind_bits(lock)) as u8) == kind,
        lock_kind_of((chunk_error_bits(kind) + lock_kind_bits(lock)) as u8) == lock,
{
}

/// Only the second bit of a byte decides the chunk error kind it encodes.
pub proof fn lemma_chunk_error_bits_of(value: u8)
    ensures
        chunk_error_bits(chunk_error_of(value)) == 2 * ((value / 2) % 2),
{
}

} // verus!
