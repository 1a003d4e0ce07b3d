use protocol::error::MDSFTPError;
use protocol::mdsftp::channel_state::{ChannelState, PacketOutcome, RequestKind};
use protocol::mdsftp::connection_state::{
    reader_step, ConnectionState, ReaderStep, Route, MAX_ID_TRIES,
};
use protocol::mdsftp::message::ChannelMessage;

#[test]
fn a_new_connection() {
    let c = ConnectionState::new(true);
    assert!(c.running() && !c.closing() && c.local());
    assert_eq!(c.channel_count(), 0);
    assert!(c.safe_to_close());
}

#[test]
fn local_channels_take_low_identifiers() {
    let mut c = ConnectionState::new(true);
    for _ in 0..50 {
        let id = c.create_channel().unwrap();
        assert!((1..0x80000000).contains(&id));
        assert_eq!(c.channel(id), Some(ChannelState::new(id)));
    }
    assert_eq!(c.channel_count(), 50);
    assert!(!c.safe_to_close());
}

#[test]
fn remote_channels_take_high_identifiers() {
    let mut c = ConnectionState::new(false);
    for _ in 0..50 {
        let id = c.create_channel().unwrap();
        assert!(id > 0x80000000);
    }
    let id = c.generate_id().unwrap();
    assert!(id > 0x80000000 && c.channel(id).is_none());
}

#[test]
fn choosing_takes_the_first_free_draw() {
    let mut c = ConnectionState::new(false);
    assert!(c.add_channel(0x80000005));
    assert_eq!(c.choose_channel_id(&[5, 6]), Ok(0x80000006));
    assert_eq!(c.choose_channel_id(&[7]), Ok(0x80000007));
    assert_eq!(c.choose_channel_id(&[5]), Err(MDSFTPError::MaxChannels));
    let mut draws = vec![5u32; MAX_ID_TRIES];
    draws.push(9);
    assert_eq!(c.choose_channel_id(&draws), Err(MDSFTPError::MaxChannels));
}

#[test]
fn creation_is_refused_once_closing_or_stopped() {
    let mut c = ConnectionState::new(true);
    c.mark_closing();
    assert_eq!(c.create_channel(), Err(MDSFTPError::Interrupted));
    let mut d = ConnectionState::new(true);
    d.close_channels();
    assert!(!d.running());
    assert_eq!(d.create_channel(), Err(MDSFTPError::ConnectionError));
}

#[test]
fn routing_opens_and_closes_channels() {
    let mut c = ConnectionState::new(true);
    assert_eq!(
        c.route(0x80000001, &ChannelMessage::ChannelOpen),
        Route::Opened { stream_id: 0x80000001, registered: true }
    );
    assert_eq!(
        c.route(0x80000001, &ChannelMessage::ChannelOpen),
        Route::Opened { stream_id: 0x80000001, registered: false }
    );
    assert_eq!(c.channel_count(), 1);
    assert_eq!(
        c.route(0x80000001, &ChannelMessage::ChannelClose),
        Route::Closed { stream_id: 0x80000001, state: ChannelState::new(0x80000001) }
    );
    assert_eq!(
        c.route(0x80000001, &ChannelMessage::ChannelClose),
        Route::CloseUnknown { stream_id: 0x80000001 }
    );
    assert_eq!(c.route(4, &ChannelMessage::ChannelErr), Route::ChannelError { stream_id: 4 });
    assert_eq!(c.channel(0x80000001), None);
    assert_eq!(c.channel_count(), 1);
    assert!(!c.safe_to_close());
}

#[test]
fn only_this_ends_closes_lower_the_count() {
    let mut c = ConnectionState::new(true);
    assert!(c.add_channel(1));
    assert!(c.add_channel(2));
    assert_eq!(c.channel_count(), 2);
    assert_eq!(c.remove_channel(1), Some(ChannelState::new(1)));
    assert_eq!(c.channel_count(), 1);
    assert_eq!(c.remove_channel(1), None);
    assert_eq!(c.channel_count(), 1);
    c.route(2, &ChannelMessage::ChannelClose);
    assert_eq!(c.channel_count(), 1);
    c.close_channels();
    assert_eq!(c.channel_count(), 0);
    assert!(c.safe_to_close());
}

#[test]
fn reader_steps() {
    assert_eq!(reader_step(&Ok(())), ReaderStep::Continue);
    assert_eq!(reader_step(&Err(MDSFTPError::ConnectionError)), ReaderStep::Close);
    assert_eq!(reader_step(&Err(MDSFTPError::RemoteError)), ReaderStep::LogAndContinue);
    assert_eq!(reader_step(&Err(MDSFTPError::NoSuchChunkId)), ReaderStep::LogAndContinue);
}

#[test]
fn routing_hands_packets_to_their_channel() {
    let mut c = ConnectionState::new(true);
    let id = c.create_channel().unwrap();
    assert_eq!(
        c.route(id, &ChannelMessage::PutOk { chunk_buffer: 1 }),
        Route::Channel { stream_id: id, outcome: PacketOutcome::Unawaited }
    );
    let other = if id == 1 { 2 } else { 1 };
    assert_eq!(
        c.route(other, &ChannelMessage::PutOk { chunk_buffer: 1 }),
        Route::UnknownChannel { stream_id: other }
    );
}

#[test]
fn closing_hands_back_every_channel() {
    let mut c = ConnectionState::new(true);
    let a = c.create_channel().unwrap();
    let b = c.create_channel().unwrap();
    let mut states = c.close_channels();
    states.sort_by_key(|s| s.id);
    let mut ids = vec![a, b];
    ids.sort();
    assert_eq!(states.iter().map(|s| s.id).collect::<Vec<u32>>(), ids);
    assert_eq!(c.channel_count(), 0);
    assert!(!c.running());
}

#[test]
fn removing_a_channel_returns_its_state() {
    let mut c = ConnectionState::new(true);
    assert!(c.add_channel(12));
    assert!(!c.add_channel(12));
    let mut expected = ChannelState::new(12);
    expected.begin_request(RequestKind::Query);
    assert_eq!(
        c.route(12, &ChannelMessage::Query { chunk_id: 1 }),
        Route::Channel { stream_id: 12, outcome: PacketOutcome::NoHandler }
    );
    assert_eq!(c.remove_channel(12), Some(ChannelState::new(12)));
    assert_eq!(c.remove_channel(12), None);
    assert_ne!(expected, ChannelState::new(12));
}

#[test]
fn requests_and_handlers_on_open_channels() {
    let mut c = ConnectionState::new(true);
    assert!(!c.begin_request(3, RequestKind::Lock));
    assert!(!c.set_incoming_handler(3));
    assert_eq!(c.mark_handler_closed(3), None);
    assert!(c.add_channel(3));
    assert!(c.begin_request(3, RequestKind::Lock));
    assert!(c.channel(3).unwrap().awaiting_lock);
    assert_eq!(c.mark_handler_closed(3), Some(false));
    assert!(c.set_incoming_handler(3));
    let s = c.channel(3).unwrap();
    assert!(s.handler_registered && s.handler_awaited);
    assert_eq!(c.mark_handler_closed(3), Some(true));
    assert!(!c.channel(3).unwrap().handler_awaited);
    assert_eq!(
        c.route(3, &ChannelMessage::LockAcquire { kind: protocol::mdsftp::data::LockKind::Read, chunk_id: 1 }),
        Route::Channel {
            stream_id: 3,
            outcome: PacketOutcome::Reply(protocol::mdsftp::channel_state::ChannelReply::Lock(Ok(
                protocol::mdsftp::data::LockAcquireResult {
                    kind: protocol::mdsftp::data::LockKind::Read,
                    chunk_id: 1
                }
            )))
        }
    );
    assert!(!c.channel(3).unwrap().awaiting_lock);
}
