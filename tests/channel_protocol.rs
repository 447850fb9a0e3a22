use chat_relay::channel::{
    ChannelClient, ChannelReceiver, ChannelSender, ReceiverAction, ReceiverEvent, ReceiverPhase, SenderAction,
    SenderEvent, SenderPhase,
};
use chat_relay::ipc::{ack_token, check_ack, ChannelError, ChannelMessage, IPC_EXTENSION_ENDPOINT};
use chat_relay::registry::TaskRegistry;

fn fields(m: &ChannelMessage) -> (String, String) {
    match m {
        ChannelMessage::SlackEvent(e) => (e.event_type.clone(), e.body.clone()),
    }
}

fn round_trip(event_type: &str, body: &str) {
    let m = ChannelMessage::new(event_type.to_string(), body.to_string());
    let bytes = m.encode().unwrap();
    let back = ChannelMessage::decode(&bytes).unwrap();
    assert_eq!(fields(&back), (event_type.to_string(), body.to_string()));
}

#[test]
fn envelope_round_trip_ascii() {
    round_trip("event_callback", "{\"event\":{\"type\":\"message\",\"text\":\"hi \\\"there\\\"\"}}");
}

#[test]
fn envelope_round_trip_empty() {
    round_trip("", "");
}

#[test]
fn envelope_round_trip_non_ascii() {
    round_trip("ïvent", "こんにちは\n\t\u{1F600}\u{0}");
}

#[test]
fn envelope_decode_rejects_garbage() {
    assert!(matches!(ChannelMessage::decode(b"not json"), Err(ChannelError::DeserializationError)));
    assert!(matches!(ChannelMessage::decode(b""), Err(ChannelError::DeserializationError)));
    assert!(matches!(ChannelMessage::decode(b"[\"only one\"]"), Err(ChannelError::DeserializationError)));
}

#[test]
fn ack_token_and_check() {
    assert_eq!(&ack_token(), b"ACK");
    assert!(check_ack(b"ACK").is_ok());
    assert_eq!(check_ack(b"ACX"), Err(ChannelError::HandshakeMismatch));
    assert_eq!(check_ack(b"AC"), Err(ChannelError::HandshakeMismatch));
    assert_eq!(check_ack(b"ACKK"), Err(ChannelError::HandshakeMismatch));
    assert_eq!(IPC_EXTENSION_ENDPOINT, "0.0.0.0:4000");
}

#[test]
fn sender_writes_only_after_ack() {
    let client = ChannelClient::new();
    let m = ChannelMessage::new("event_callback".to_string(), "{}".to_string());
    let mut s = client.sender(m);
    assert_eq!(s.current_phase(), SenderPhase::Connecting);
    assert!(matches!(s.on_event(SenderEvent::Connected), SenderAction::ReadAck));
    let payload = match s.on_event(SenderEvent::AckRead(b"ACK".to_vec())) {
        SenderAction::Write(p) => p,
        _ => panic!("expected a write"),
    };
    let back = ChannelMessage::decode(&payload).unwrap();
    assert_eq!(fields(&back), ("event_callback".to_string(), "{}".to_string()));
    assert!(matches!(s.on_event(SenderEvent::Written), SenderAction::ShutdownWrite));
    assert!(matches!(s.on_event(SenderEvent::ShutDown), SenderAction::Finish));
    assert_eq!(s.current_phase(), SenderPhase::Done);
}

#[test]
fn sender_aborts_on_wrong_ack() {
    let m = ChannelMessage::new("event_callback".to_string(), "{}".to_string());
    let mut s = ChannelSender::new(m);
    assert!(matches!(s.on_event(SenderEvent::Connected), SenderAction::ReadAck));
    assert!(matches!(
        s.on_event(SenderEvent::AckRead(b"NAK".to_vec())),
        SenderAction::Fail(ChannelError::HandshakeMismatch)
    ));
    assert_eq!(s.current_phase(), SenderPhase::Failed);
    assert!(matches!(s.on_event(SenderEvent::Written), SenderAction::Finish));
}

#[test]
fn sender_fails_on_network_error() {
    let m = ChannelMessage::new("a".to_string(), "b".to_string());
    let mut s = ChannelSender::new(m);
    assert!(matches!(s.on_event(SenderEvent::IoFailed), SenderAction::Fail(ChannelError::NetworkError)));
}

#[test]
fn receiver_acks_before_reading() {
    let (mut r, first) = ChannelReceiver::accept();
    assert!(matches!(first, ReceiverAction::WriteAck));
    assert_eq!(r.current_phase(), ReceiverPhase::Accepted);
    assert!(matches!(r.on_event(ReceiverEvent::AckWritten), ReceiverAction::ReadToEnd));
    let bytes = ChannelMessage::new("event_callback".to_string(), "body".to_string()).encode().unwrap();
    match r.on_event(ReceiverEvent::ReadComplete(bytes)) {
        ReceiverAction::Dispatch(m) => {
            assert_eq!(fields(&m), ("event_callback".to_string(), "body".to_string()));
            assert!(m.is_event_callback());
        }
        _ => panic!("expected a dispatch"),
    }
    assert_eq!(r.current_phase(), ReceiverPhase::Dispatched);
}

#[test]
fn receiver_rejects_bad_payload_and_early_data() {
    let (mut r, _) = ChannelReceiver::accept();
    assert!(matches!(r.on_event(ReceiverEvent::AckWritten), ReceiverAction::ReadToEnd));
    assert!(matches!(
        r.on_event(ReceiverEvent::ReadComplete(b"{oops".to_vec())),
        ReceiverAction::Fail(ChannelError::DeserializationError)
    ));
    let (mut r2, _) = ChannelReceiver::accept();
    assert!(matches!(
        r2.on_event(ReceiverEvent::ReadComplete(b"x".to_vec())),
        ReceiverAction::Fail(ChannelError::NetworkError)
    ));
    let (mut r3, _) = ChannelReceiver::accept();
    assert!(matches!(r3.on_event(ReceiverEvent::IoFailed), ReceiverAction::Fail(ChannelError::NetworkError)));
}

#[test]
fn unknown_event_type_is_not_dispatched_to_callback() {
    let m = ChannelMessage::new("app_mention".to_string(), "{}".to_string());
    assert!(!m.is_event_callback());
}

#[test]
fn registry_graceful_shutdown() {
    let mut reg = TaskRegistry::new();
    assert!(reg.is_drained());
    let a = reg.register().unwrap();
    let b = reg.register().unwrap();
    assert_ne!(a, b);
    assert_eq!(reg.len(), 2);
    reg.close();
    assert!(reg.is_closed());
    assert_eq!(reg.register(), None);
    reg.close();
    assert_eq!(reg.register(), None);
    assert!(reg.complete(a));
    assert!(!reg.is_drained());
    assert!(!reg.complete(a));
    assert!(reg.complete(b));
    assert!(reg.is_drained());
    assert_eq!(reg.len(), 0);
}
