use protocol::error::MDSFTPError;
use protocol::mdsftp::data::{
    ChunkErrorKind, ChunkRange, CommitFlags, LockKind, PutFlags, ReserveFlags,
};

#[test]
fn lock_kinds_use_the_low_bit() {
    assert_eq!(u8::from(LockKind::Read), 0);
    assert_eq!(u8::from(LockKind::Write), 1);
    assert_eq!(LockKind::from(0u8), LockKind::Read);
    assert_eq!(LockKind::from(1u8), LockKind::Write);
    assert_eq!(LockKind::from(2u8), LockKind::Read);
    assert_eq!(LockKind::from(3u8), LockKind::Write);
    assert_eq!(LockKind::from(255u8), LockKind::Write);
}

#[test]
fn chunk_error_kinds_use_the_second_bit() {
    assert_eq!(u8::from(ChunkErrorKind::NotAvailable), 0);
    assert_eq!(u8::from(ChunkErrorKind::NotFound), 2);
    assert_eq!(ChunkErrorKind::from(0u8), ChunkErrorKind::NotAvailable);
    assert_eq!(ChunkErrorKind::from(1u8), ChunkErrorKind::NotAvailable);
    assert_eq!(ChunkErrorKind::from(2u8), ChunkErrorKind::NotFound);
    assert_eq!(ChunkErrorKind::from(3u8), ChunkErrorKind::NotFound);
    assert_eq!(MDSFTPError::from(ChunkErrorKind::NotAvailable), MDSFTPError::RemoteError);
    assert_eq!(MDSFTPError::from(ChunkErrorKind::NotFound), MDSFTPError::NoSuchChunkId);
}

#[test]
fn a_shared_byte_keeps_both_kinds() {
    let byte = u8::from(LockKind::Write) | u8::from(ChunkErrorKind::NotFound);
    assert_eq!(byte, 3);
    assert_eq!(LockKind::from(byte), LockKind::Write);
    assert_eq!(ChunkErrorKind::from(byte), ChunkErrorKind::NotFound);
}

#[test]
fn reserve_flags_encoding() {
    let flags = ReserveFlags { auto_start: true, durable: false, temp: true, overwrite: true };
    assert_eq!(u8::from(flags), 13);
    assert_eq!(ReserveFlags::from(13u8), flags);
    assert_eq!(
        ReserveFlags::from(0xf2u8),
        ReserveFlags { auto_start: false, durable: true, temp: false, overwrite: false }
    );
    for v in 0u8..16 {
        assert_eq!(u8::from(ReserveFlags::from(v)), v);
    }
}

#[test]
fn put_flags_encoding() {
    assert_eq!(u8::from(PutFlags { append: true }), 1);
    assert_eq!(u8::from(PutFlags { append: false }), 0);
    assert_eq!(PutFlags::from(5u8), PutFlags { append: true });
    assert_eq!(PutFlags::from(4u8), PutFlags { append: false });
}

#[test]
fn commit_flags_encoding() {
    assert_eq!(
        CommitFlags::reject(),
        CommitFlags { reject: true, keep_alive: false, is_final: false }
    );
    assert_eq!(
        CommitFlags::keep_alive(),
        CommitFlags { reject: false, keep_alive: true, is_final: false }
    );
    assert_eq!(
        CommitFlags::final_commit(),
        CommitFlags { reject: false, keep_alive: false, is_final: true }
    );
    assert_eq!(u8::from(CommitFlags::reject()), 1);
    assert_eq!(u8::from(CommitFlags::keep_alive()), 2);
    assert_eq!(u8::from(CommitFlags::final_commit()), 4);
    assert_eq!(CommitFlags::from(6u8), CommitFlags { reject: false, keep_alive: true, is_final: true });
    for v in 0u8..8 {
        assert_eq!(u8::from(CommitFlags::from(v)), v);
    }
}

#[test]
fn chunk_ranges() {
    assert_eq!(ChunkRange::new(3, 10), Ok(ChunkRange { start: 3, end: 10 }));
    assert_eq!(ChunkRange::new(10, 10), Err(MDSFTPError::RemoteError));
    assert_eq!(ChunkRange::new(11, 10), Err(MDSFTPError::RemoteError));
    assert_eq!(ChunkRange { start: 3, end: 10 }.size(), 7);
    assert_eq!(ChunkRange { start: 5, end: 5 }.size(), 0);
    assert_eq!(ChunkRange { start: 0, end: 0 }.into_option(), None);
    assert_eq!(
        ChunkRange { start: 0, end: 4 }.into_option(),
        Some(ChunkRange { start: 0, end: 4 })
    );
    assert_eq!(ChunkRange::default(), ChunkRange { start: 0, end: 0 });
}
