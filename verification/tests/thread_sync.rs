use agent_core::message::UserMessage;
use agent_core::thread_sync::{
    after_claim, after_connect, after_read, after_write, encode_frame, frame_len, Claim,
    ControlFile, RoleStep, ThreadSyncBus, ThreadSyncBusEvent, ThreadSyncEnvelope, ThreadSyncHub,
    ThreadSyncMessage, ThreadSyncStreamEvent, MAX_FRAME_LEN,
};

fn stream_message(client_id: &str) -> ThreadSyncMessage {
    ThreadSyncMessage::Stream {
        session_id: "session-1".into(),
        client_id: client_id.into(),
        op_id: "op-1".into(),
        event: ThreadSyncStreamEvent::Text("hello".into()),
    }
}

#[test]
fn client_id_is_extracted_for_every_variant() {
    assert_eq!(stream_message("a").client_id(), "a");
    assert_eq!(
        ThreadSyncMessage::TurnComplete {
            session_id: "s".into(),
            client_id: "b".into(),
            op_id: "o".into(),
        }
        .client_id(),
        "b"
    );
    assert_eq!(
        ThreadSyncMessage::AgentMessage {
            from_session: "from".into(),
            to_session: "to".into(),
            client_id: "c".into(),
            op_id: "o".into(),
            body: "hi".into(),
        }
        .client_id(),
        "c"
    );
    assert_eq!(
        ThreadSyncMessage::TitleChanged {
            session_id: "s".into(),
            client_id: "d".into(),
            op_id: "o".into(),
            title: "T".into(),
        }
        .client_id(),
        "d"
    );
}

#[test]
fn operations_carry_the_client_and_an_id_of_their_own() {
    let bus = ThreadSyncBus::new();
    let first = bus.broadcast_turn_complete("s".to_string());
    let second = bus.broadcast_title_changed("s".to_string(), "T".to_string());
    assert_eq!(first.client_id(), second.client_id());
    assert_eq!(first.client_id().len(), 36);
    let (ThreadSyncMessage::TurnComplete { op_id: one, .. }, ThreadSyncMessage::TitleChanged { op_id: two, .. }) =
        (&first, &second)
    else {
        panic!("unexpected messages");
    };
    assert_ne!(one, two);
    let message = UserMessage {
        id: "m".to_string(),
        content: Vec::new(),
    };
    assert!(matches!(
        bus.broadcast_user_message("s".to_string(), message),
        ThreadSyncMessage::UserMessage { .. }
    ));
    assert!(matches!(
        bus.broadcast_stream("s".to_string(), ThreadSyncStreamEvent::Text("t".to_string())),
        ThreadSyncMessage::Stream { .. }
    ));
}

#[test]
fn a_bus_takes_no_operations_of_its_own() {
    let bus = ThreadSyncBus::with_id("me".to_string());
    let own = ThreadSyncEnvelope {
        seq: 1,
        message: stream_message("me"),
    };
    assert!(bus.receive(own).is_none());
    let other = ThreadSyncEnvelope {
        seq: 2,
        message: stream_message("you"),
    };
    assert!(matches!(
        bus.receive(other),
        Some(ThreadSyncBusEvent::Message(_))
    ));
}

#[test]
fn the_hub_numbers_operations() {
    let mut hub = ThreadSyncHub::new("secret".to_string());
    assert_eq!(hub.welcome("wrong"), None);
    let first = hub.welcome("secret").unwrap();
    let second = hub.welcome("secret").unwrap();
    assert_ne!(first, second);
    let one = hub.publish(stream_message("a"));
    let two = hub.relay(stream_message("b"));
    assert_eq!(two.envelope.seq, one.envelope.seq + 1);
    assert_eq!(one.clients, vec![first, second]);
    assert!(two.local);
}

#[test]
fn frames_have_a_length_before_them() {
    let frame = encode_frame(&vec![1, 2, 3]);
    assert_eq!(frame, vec![3, 0, 0, 0, 1, 2, 3]);
    assert_eq!(frame_len([3, 0, 0, 0]), Ok(3));
    assert_eq!(frame_len([0, 0, 0, 1]), Ok(MAX_FRAME_LEN));
    assert!(frame_len([1, 0, 0, 1]).is_err());
}

#[test]
fn one_process_becomes_the_hub() {
    let own = ControlFile::for_port(9);
    let secret = own.secret.clone();
    let step = after_claim(Claim::Created, own);
    let RoleStep::WriteControl { control } = step else {
        panic!("the file is to be written");
    };
    assert_eq!(control.port, 9);
    assert!(matches!(
        after_write(Ok(()), control),
        RoleStep::Hub { secret: kept } if kept == secret
    ));
    assert!(matches!(
        after_claim(Claim::AlreadyExists, ControlFile::for_port(9)),
        RoleStep::ReadControl
    ));
    assert!(matches!(after_read(None), RoleStep::RemoveAndRetry));
    assert!(matches!(
        after_read(Some(ControlFile::for_port(1))),
        RoleStep::Connect { .. }
    ));
    assert!(matches!(
        after_connect(false, ControlFile::for_port(1)),
        RoleStep::RemoveAndRetry
    ));
    assert!(matches!(
        after_connect(true, ControlFile::for_port(1)),
        RoleStep::Client { .. }
    ));
    assert!(matches!(
        after_write(Err("full".to_string()), ControlFile::for_port(1)),
        RoleStep::RemoveAndFail { error } if error == "full"
    ));
}

#[test]
fn messages_between_threads_carry_both_sessions() {
    let bus = ThreadSyncBus::with_id("me".to_string());
    let message = bus.broadcast_agent_message("a".to_string(), "b".to_string(), "hi".to_string());
    assert_eq!(message.client_id(), "me");
    match message {
        ThreadSyncMessage::AgentMessage { from_session, to_session, body, op_id, .. } => {
            assert_eq!((from_session.as_str(), to_session.as_str()), ("a", "b"));
            assert_eq!(body, "hi");
            assert_eq!(op_id.len(), 36);
        }
        other => panic!("{other:?}"),
    }
}
