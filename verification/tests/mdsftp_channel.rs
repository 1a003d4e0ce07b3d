use protocol::error::MDSFTPError;
use protocol::mdsftp::channel_state::{ChannelReply, ChannelState, PacketOutcome, RequestKind};
use protocol::mdsftp::data::{
    ChunkErrorKind, LockAcquireResult, LockKind, PutResult, QueryResult, ReserveResult,
};
use protocol::mdsftp::message::ChannelMessage;

#[test]
fn a_new_channel_awaits_nothing() {
    let s = ChannelState::new(5);
    assert_eq!(s.id, 5);
    assert!(!s.awaiting_lock && !s.awaiting_reserve && !s.awaiting_put && !s.awaiting_query);
    assert!(!s.handler_awaited && !s.handler_registered);
}

#[test]
fn a_lock_request_gets_its_answer_once() {
    let mut s = ChannelState::new(1);
    s.begin_request(RequestKind::Lock);
    assert!(s.awaiting_lock);
    let answer = ChannelMessage::LockAcquire { kind: LockKind::Write, chunk_id: 77 };
    assert_eq!(
        s.handle_message(&answer),
        PacketOutcome::Reply(ChannelReply::Lock(Ok(LockAcquireResult {
            kind: LockKind::Write,
            chunk_id: 77
        })))
    );
    assert!(!s.awaiting_lock);
    assert_eq!(s.handle_message(&answer), PacketOutcome::Unawaited);
}

#[test]
fn error_answers() {
    let mut s = ChannelState::new(1);
    s.begin_request(RequestKind::Lock);
    s.begin_request(RequestKind::Reserve);
    s.begin_request(RequestKind::Put);
    s.begin_request(RequestKind::Query);
    assert_eq!(
        s.handle_message(&ChannelMessage::LockErr {
            kind: LockKind::Read,
            error_kind: ChunkErrorKind::NotFound,
            chunk_id: 3
        }),
        PacketOutcome::Reply(ChannelReply::Lock(Err(MDSFTPError::NoSuchChunkId)))
    );
    assert_eq!(
        s.handle_message(&ChannelMessage::ReserveErr { available_space: 1000 }),
        PacketOutcome::Reply(ChannelReply::Reserve(Err(MDSFTPError::ReserveError(1000))))
    );
    assert_eq!(
        s.handle_message(&ChannelMessage::PutErr { error_kind: ChunkErrorKind::NotAvailable }),
        PacketOutcome::Reply(ChannelReply::Put(Err(MDSFTPError::RemoteError)))
    );
    assert_eq!(
        s.handle_message(&ChannelMessage::QueryResponse { exists: false, size: 12 }),
        PacketOutcome::Reply(ChannelReply::Query(Err(MDSFTPError::NoSuchChunkId)))
    );
    assert_eq!(s, ChannelState::new(1));
}

#[test]
fn success_answers() {
    let mut s = ChannelState::new(2);
    s.begin_request(RequestKind::Reserve);
    assert_eq!(
        s.handle_message(&ChannelMessage::ReserveOk { chunk_id: 9, chunk_buffer: 16 }),
        PacketOutcome::Reply(ChannelReply::Reserve(Ok(ReserveResult { chunk_id: 9, chunk_buffer: 16 })))
    );
    s.begin_request(RequestKind::Put);
    assert_eq!(
        s.handle_message(&ChannelMessage::PutOk { chunk_buffer: 4 }),
        PacketOutcome::Reply(ChannelReply::Put(Ok(PutResult { chunk_buffer: 4 })))
    );
    s.begin_request(RequestKind::Query);
    assert_eq!(
        s.handle_message(&ChannelMessage::QueryResponse { exists: true, size: 12 }),
        PacketOutcome::Reply(ChannelReply::Query(Ok(QueryResult { size: 12 })))
    );
}

#[test]
fn an_answer_ends_only_its_own_wait() {
    let mut s = ChannelState::new(3);
    s.begin_request(RequestKind::Put);
    s.begin_request(RequestKind::Query);
    assert_eq!(
        s.handle_message(&ChannelMessage::ReserveOk { chunk_id: 1, chunk_buffer: 1 }),
        PacketOutcome::Unawaited
    );
    assert!(s.awaiting_put && s.awaiting_query);
}

#[test]
fn handler_packets() {
    let mut s = ChannelState::new(4);
    let chunk = ChannelMessage::FileChunk { is_last: false, id: 1 };
    assert_eq!(s.handle_message(&chunk), PacketOutcome::NoHandler);
    s.set_incoming_handler();
    assert!(s.handler_awaited && s.handler_registered);
    assert_eq!(s.handle_message(&chunk), PacketOutcome::ToHandler(chunk));
    assert_eq!(s.handle_message(&ChannelMessage::ChannelErr), PacketOutcome::Ignored);
}

#[test]
fn a_transfer_awaits_before_it_registers() {
    let mut s = ChannelState::new(4);
    s.await_handler();
    assert!(s.handler_awaited && !s.handler_registered);
    s.register_handler();
    assert!(s.handler_registered);
    assert!(s.mark_handler_closed());
    assert!(!s.handler_awaited);
    assert!(!s.mark_handler_closed());
}

#[test]
fn interruption_answers_every_wait() {
    let mut s = ChannelState::new(6);
    s.begin_request(RequestKind::Query);
    s.begin_request(RequestKind::Lock);
    let (replies, tell_handler) = s.interrupt();
    assert_eq!(
        replies,
        vec![
            ChannelReply::Lock(Err(MDSFTPError::Interrupted)),
            ChannelReply::Query(Err(MDSFTPError::Interrupted)),
        ]
    );
    assert!(!tell_handler);
    s.set_incoming_handler();
    assert!(s.interrupt().1);
}
