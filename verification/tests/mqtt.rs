use svc_adapter::client::{Command, MqttClient, PLACEHOLDER_ID};
use svc_adapter::events::{Event, MqttConnection, PollStep, RawFrame};
use svc_adapter::message::{Details, Message, MessageRef, RawMessage};
use svc_adapter::qos::QoS;

fn raw(pkid: u16, topic: &str, payload: &[u8]) -> RawMessage {
    RawMessage { pkid, topic: topic.to_string(), payload: payload.to_vec() }
}

fn accept_all(m: RawMessage) -> Option<Message> {
    MessageRef(&m).into_message_impl()
}

#[test]
fn qos_round_trip_all_levels() {
    for level in 0u8..3u8 {
        let q = QoS::from_external(level).unwrap();
        assert_eq!(q.to_external(), level);
    }
}

#[test]
fn qos_round_trip_back() {
    assert!(matches!(QoS::from_external(QoS::AtMostOnce.to_external()), Some(QoS::AtMostOnce)));
    assert!(matches!(QoS::from_external(QoS::AtLeastOnce.to_external()), Some(QoS::AtLeastOnce)));
    assert!(matches!(QoS::from_external(QoS::ExactlyOnce.to_external()), Some(QoS::ExactlyOnce)));
}

#[test]
fn qos_unknown_level_is_rejected() {
    assert!(QoS::from_external(3).is_none());
    assert!(QoS::from_external(255).is_none());
}

#[test]
fn message_ref_accessors() {
    let frame = raw(7, "sensors/door", b"open");
    let view = MessageRef(&frame);
    assert_eq!(view.id(), 7);
    assert_eq!(view.topic(), Some("sensors/door"));
    assert_eq!(view.data(), b"open");
    assert!(matches!(view.details(), Details::Complete));
}

#[test]
fn materialized_message_outlives_raw_frame() {
    let owned = {
        let frame = raw(9, "alarms", b"\x01\x02\x03");
        let view = MessageRef(&frame);
        view.into_message_impl().unwrap()
        // the raw frame is dropped here
    };
    assert_eq!(owned.id, 9);
    assert_eq!(owned.topic, "alarms");
    assert_eq!(owned.payload, vec![1u8, 2u8, 3u8]);
    assert!(matches!(owned.details, Details::Complete));
}

#[test]
fn step_normalizes_each_frame_kind() {
    let conn = MqttConnection::new(accept_all);
    assert!(matches!(
        conn.step::<Message, u32>(Ok(RawFrame::Connect)),
        PollStep::Yield(Ok(Event::BeforeConnect))
    ));
    assert!(matches!(
        conn.step::<Message, u32>(Ok(RawFrame::ConnAck)),
        PollStep::Yield(Ok(Event::Connected(true)))
    ));
    assert!(matches!(
        conn.step::<Message, u32>(Ok(RawFrame::Disconnect)),
        PollStep::Yield(Ok(Event::Disconnected))
    ));
    assert!(matches!(
        conn.step::<Message, u32>(Ok(RawFrame::PubAck { pkid: 4 })),
        PollStep::Yield(Ok(Event::Published(4)))
    ));
    assert!(matches!(
        conn.step::<Message, u32>(Ok(RawFrame::SubAck { pkid: 5 })),
        PollStep::Yield(Ok(Event::Subscribed(5)))
    ));
    assert!(matches!(
        conn.step::<Message, u32>(Ok(RawFrame::UnsubAck { pkid: 6 })),
        PollStep::Yield(Ok(Event::Unsubscribed(6)))
    ));
    assert!(matches!(conn.step::<Message, u32>(Ok(RawFrame::Outgoing)), PollStep::Continue));
    assert!(matches!(conn.step::<Message, u32>(Ok(RawFrame::Other)), PollStep::Continue));
}

#[test]
fn step_forwards_first_error_verbatim() {
    let conn = MqttConnection::new(accept_all);
    match conn.step::<Message, u32>(Err(42)) {
        PollStep::Yield(Err(e)) => assert_eq!(e, 42),
        _ => panic!("a transport error must be yielded verbatim"),
    }
}

#[test]
fn step_passes_accepted_message_through() {
    let conn = MqttConnection::new(accept_all);
    let frame = RawFrame::Publish { message: raw(3, "news", b"hi") };
    match conn.step::<Message, u32>(Ok(frame)) {
        PollStep::Yield(Ok(Event::Received(m))) => {
            assert_eq!(m.id, 3);
            assert_eq!(m.topic, "news");
            assert_eq!(m.payload, b"hi".to_vec());
        },
        _ => panic!("an accepted message must be yielded as Received"),
    }
}

#[test]
fn rejected_message_never_received() {
    let reject_news = |m: RawMessage| -> Option<Message> {
        if m.topic == "news" {
            None
        } else {
            MessageRef(&m).into_message_impl()
        }
    };
    let conn = MqttConnection::new(reject_news);
    let rejected = RawFrame::Publish { message: raw(1, "news", b"x") };
    assert!(matches!(conn.step::<Message, u32>(Ok(rejected)), PollStep::Continue));
    // the stream does not end: the next frame is still normalized
    let kept = RawFrame::Publish { message: raw(2, "other", b"y") };
    assert!(matches!(
        conn.step::<Message, u32>(Ok(kept)),
        PollStep::Yield(Ok(Event::Received(_)))
    ));
}

fn drain(conn: &MqttConnection<fn(RawMessage) -> Option<Message>>, frames: Vec<RawFrame>) -> Vec<Event<Message>> {
    let mut events = Vec::new();
    for frame in frames {
        match conn.step::<Message, u32>(Ok(frame)) {
            PollStep::Yield(Ok(e)) => events.push(e),
            PollStep::Yield(Err(_)) => panic!("no error was fed"),
            PollStep::Continue => {},
        }
    }
    events
}

#[test]
fn one_connect_frame_yields_one_before_connect() {
    let conn: MqttConnection<fn(RawMessage) -> Option<Message>> = MqttConnection::new(accept_all);
    let frames = vec![
        RawFrame::Outgoing,
        RawFrame::Connect,
        RawFrame::ConnAck,
        RawFrame::Publish { message: raw(1, "t", b"p") },
        RawFrame::Other,
    ];
    let events = drain(&conn, frames);
    let connects = events.iter().filter(|e| matches!(e, Event::BeforeConnect)).count();
    assert_eq!(connects, 1);
}

#[test]
fn ignorable_frames_leave_output_unchanged() {
    let conn: MqttConnection<fn(RawMessage) -> Option<Message>> = MqttConnection::new(accept_all);
    let plain = vec![RawFrame::Connect, RawFrame::ConnAck, RawFrame::Disconnect];
    let noisy = vec![
        RawFrame::Outgoing,
        RawFrame::Connect,
        RawFrame::Other,
        RawFrame::ConnAck,
        RawFrame::Outgoing,
        RawFrame::Disconnect,
        RawFrame::Other,
    ];
    let a = drain(&conn, plain);
    let b = drain(&conn, noisy);
    assert_eq!(a.len(), b.len());
    for (x, y) in a.iter().zip(b.iter()) {
        let same = matches!(
            (x, y),
            (Event::BeforeConnect, Event::BeforeConnect)
                | (Event::Connected(true), Event::Connected(true))
                | (Event::Disconnected, Event::Disconnected)
        );
        assert!(same);
    }
}

#[test]
fn subscribe_command_carries_topic_and_level() {
    let client = MqttClient::new();
    match client.subscribe("a/b", QoS::AtLeastOnce) {
        Command::Subscribe { topic, qos_level } => {
            assert_eq!(topic, "a/b");
            assert_eq!(qos_level, 1);
        },
        _ => panic!("subscribe must build a subscribe command"),
    }
}

#[test]
fn unsubscribe_command_carries_topic() {
    let client = MqttClient::new();
    match client.unsubscribe("a/b") {
        Command::Unsubscribe { topic } => assert_eq!(topic, "a/b"),
        _ => panic!("unsubscribe must build an unsubscribe command"),
    }
}

#[test]
fn publish_command_carries_everything() {
    let client = MqttClient::new();
    match client.publish("a/b", QoS::ExactlyOnce, true, b"payload") {
        Command::Publish { topic, qos_level, retain, payload } => {
            assert_eq!(topic, "a/b");
            assert_eq!(qos_level, 2);
            assert!(retain);
            assert_eq!(payload, b"payload".to_vec());
        },
        _ => panic!("publish must build a publish command"),
    }
}

#[test]
fn accepted_command_reports_placeholder_id() {
    let client = MqttClient::new();
    let r: Result<u32, &str> = client.complete(Ok(()));
    assert_eq!(r, Ok(PLACEHOLDER_ID));
    assert_eq!(PLACEHOLDER_ID, 0);
}

#[test]
fn rejected_command_is_forwarded_verbatim() {
    let client = MqttClient::new();
    let r: Result<u32, &str> = client.complete(Err("sink full"));
    assert_eq!(r, Err("sink full"));
}
