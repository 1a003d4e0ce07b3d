use protocol::error::MDSFTPError;
use protocol::file_transfer::data::{ChunkErrorKind, LockKind};

#[test]
fn transfer_lock_kinds() {
    assert_eq!(LockKind::from(0u8), LockKind::Read);
    assert_eq!(LockKind::from(5u8), LockKind::Write);
    assert_eq!(u8::from(LockKind::Read), 0);
    assert_eq!(u8::from(LockKind::Write), 1);
}

#[test]
fn transfer_chunk_error_kinds() {
    assert_eq!(ChunkErrorKind::from(0u8), ChunkErrorKind::Internal);
    assert_eq!(ChunkErrorKind::from(6u8), ChunkErrorKind::NotFound);
    assert_eq!(u8::from(ChunkErrorKind::Internal), 0);
    assert_eq!(u8::from(ChunkErrorKind::NotFound), 2);
    assert_eq!(MDSFTPError::from(ChunkErrorKind::Internal), MDSFTPError::RemoteError);
    assert_eq!(MDSFTPError::from(ChunkErrorKind::NotFound), MDSFTPError::NoSuchChunkId);
}
