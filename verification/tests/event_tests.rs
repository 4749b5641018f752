use mpv_client::error::Error;
use mpv_client::event::{client_message_arg_count, EventKind, EventQueueToken, RawEvent};

fn raw(event_id: u32, error: i32, reply: u64, has_data: bool) -> Option<RawEvent> {
    Some(RawEvent { event_id, error, reply_userdata: reply, has_data })
}

#[test]
fn null_event_is_nothing() {
    assert_eq!(EventKind::from_raw(None), EventKind::Nothing);
}

#[test]
fn simple_events() {
    assert_eq!(EventKind::from_raw(raw(0, 0, 0, false)), EventKind::Nothing);
    assert_eq!(EventKind::from_raw(raw(1, 0, 0, false)), EventKind::Shutdown);
    assert_eq!(EventKind::from_raw(raw(2, 0, 0, true)), EventKind::LogMessage);
    assert_eq!(EventKind::from_raw(raw(6, 0, 0, true)), EventKind::StartFile);
    assert_eq!(EventKind::from_raw(raw(7, 0, 0, true)), EventKind::EndFile);
    assert_eq!(EventKind::from_raw(raw(8, 0, 0, false)), EventKind::FileLoaded);
    assert_eq!(EventKind::from_raw(raw(16, 0, 0, true)), EventKind::ClientMessage);
    assert_eq!(EventKind::from_raw(raw(17, 0, 0, false)), EventKind::VideoReconfig);
    assert_eq!(EventKind::from_raw(raw(18, 0, 0, false)), EventKind::AudioReconfig);
    assert_eq!(EventKind::from_raw(raw(20, 0, 0, false)), EventKind::Seek);
    assert_eq!(EventKind::from_raw(raw(21, 0, 0, false)), EventKind::PlaybackRestart);
    assert_eq!(EventKind::from_raw(raw(24, 0, 0, false)), EventKind::QueueOverflow);
}

#[test]
fn replies_carry_outcome_and_identifier() {
    assert_eq!(
        EventKind::from_raw(raw(3, 0, 11, true)),
        EventKind::GetPropertyReply(Ok(()), 11, true)
    );
    assert_eq!(
        EventKind::from_raw(raw(3, -10, 12, false)),
        EventKind::GetPropertyReply(Err(Error::new(-10)), 12, false)
    );
    assert_eq!(
        EventKind::from_raw(raw(4, -9, 13, false)),
        EventKind::SetPropertyReply(Err(Error::new(-9)), 13)
    );
    assert_eq!(EventKind::from_raw(raw(5, 0, 14, false)), EventKind::CommandReply(Ok(()), 14));
    assert_eq!(EventKind::from_raw(raw(22, 0, 15, true)), EventKind::PropertyChange(15));
    assert_eq!(EventKind::from_raw(raw(25, 0, 16, true)), EventKind::Hook(16));
}

#[test]
fn unhandled_events_are_nothing() {
    for id in [9u32, 10, 11, 12, 13, 14, 15, 19, 23, 26, 1000] {
        assert_eq!(EventKind::from_raw(raw(id, 0, 0, false)), EventKind::Nothing);
    }
}

#[test]
fn event_identifier_roundtrip() {
    for id in 0u32..30 {
        let kind = EventKind::from_raw(raw(id, 0, 0, true));
        let handled = matches!(id, 1..=8 | 16..=18 | 20..=22 | 24 | 25);
        if handled {
            assert_eq!(kind.event_id(), id);
        } else {
            assert_eq!(kind.event_id(), 0);
        }
    }
}

#[test]
fn token_belongs_to_its_client() {
    let token = EventQueueToken::new(42);
    assert!(token.belongs_to(42));
    assert!(!token.belongs_to(43));
    assert_eq!(token.client_id(), 42);
}

#[test]
fn client_message_arguments() {
    assert_eq!(client_message_arg_count(0, true), 0);
    assert_eq!(client_message_arg_count(3, false), 0);
    assert_eq!(client_message_arg_count(3, true), 3);
}
