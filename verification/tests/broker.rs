use reactrix_store::backend_kind;
use reactrix_store::mq::{
    inputs_of, lifecycle_input, sequence_frame, Broker, BrokerInput, Message, PublishMessage,
    SocketLifecycle,
};
use reactrix_store::{BackendKind, ReactrixError};

#[test]
fn late_joiner_receives_latest_sequence() {
    // Scenario: sequence 5 was already published and no new event has come
    // since; a subscriber connects, and the accepted connection makes the
    // broker re-emit a "sequence" frame carrying 5.
    let mut broker = Broker::new(0);
    for input in inputs_of(PublishMessage::Sequence(5)) {
        broker.step(input);
    }
    let frame = broker
        .step(BrokerInput::ConnectionAccepted)
        .expect("an accepted connection must re-publish");
    assert_eq!(frame.topic, "sequence");
    assert_eq!(frame.payload, rmp_serde::to_vec(&5i64).unwrap());
}

#[test]
fn forwarded_messages_stay_whole_and_ordered() {
    // Scenario: two forwarded messages on topics "a" and "b" are enqueued
    // in that order; each comes out as one whole frame, in queue order.
    let mut broker = Broker::new(0);
    let first = broker
        .step(BrokerInput::Forward(Message { topic: "a".to_string(), data: vec![1, 2] }))
        .expect("a forward always emits a frame");
    let second = broker
        .step(BrokerInput::Forward(Message { topic: "b".to_string(), data: vec![3] }))
        .expect("a forward always emits a frame");
    assert_eq!(first.topic, "a");
    assert_eq!(first.payload, vec![1, 2]);
    assert_eq!(second.topic, "b");
    assert_eq!(second.payload, vec![3]);
}

#[test]
fn publish_reflects_the_matching_append() {
    let mut broker = Broker::new(0);
    let inputs = inputs_of(PublishMessage::Sequence(7));
    assert_eq!(inputs.len(), 2);
    let mut frames = Vec::new();
    for input in inputs {
        if let Some(f) = broker.step(input) {
            frames.push(f);
        }
    }
    assert_eq!(frames.len(), 1);
    assert_eq!(frames[0].topic, "sequence");
    assert_eq!(frames[0].payload, rmp_serde::to_vec(&7i64).unwrap());
    assert_eq!(broker.latest(), 7);
}

#[test]
fn set_latest_emits_nothing() {
    let mut broker = Broker::new(3);
    let r = broker.step(BrokerInput::SetLatestSequence(8));
    assert!(r.is_none());
    assert_eq!(broker.latest(), 8);
}

#[test]
fn broker_is_seeded_with_initial_sequence() {
    let mut broker = Broker::new(11);
    let frame = broker
        .step(BrokerInput::PublishLatest)
        .expect("publish must emit a frame");
    assert_eq!(frame.payload, rmp_serde::to_vec(&11i64).unwrap());
}

#[test]
fn lifecycle_events_map_to_broker_work() {
    assert!(matches!(
        lifecycle_input(&SocketLifecycle::Accepted),
        Some(BrokerInput::ConnectionAccepted)
    ));
    assert!(lifecycle_input(&SocketLifecycle::Closed).is_none());
    assert!(lifecycle_input(&SocketLifecycle::Other).is_none());
}

#[test]
fn sequence_frame_drops_failed_encodings() {
    assert!(sequence_frame(None).is_none());
    let f = sequence_frame(Some(vec![0xcc, 0x05])).expect("an encoded value yields a frame");
    assert_eq!(f.topic, "sequence");
    assert_eq!(f.payload, vec![0xcc, 0x05]);
}

#[test]
fn forward_message_expands_to_one_input() {
    let inputs = inputs_of(PublishMessage::Forward(Message {
        topic: "t".to_string(),
        data: vec![9],
    }));
    assert_eq!(inputs.len(), 1);
    match &inputs[0] {
        BrokerInput::Forward(m) => {
            assert_eq!(m.topic, "t");
            assert_eq!(m.data, vec![9]);
        }
        other => panic!("expected a forward input, got {:?}", other),
    }
}

#[test]
fn connection_url_scheme_selects_the_backend() {
    assert!(matches!(backend_kind("postgres"), Ok(BackendKind::Postgres)));
    assert!(matches!(backend_kind("mongodb"), Ok(BackendKind::Mongo)));
    match backend_kind("mysql") {
        Err(ReactrixError::UnknownDatabase(s)) => assert_eq!(s, "mysql"),
        _ => panic!("an unknown scheme must be refused"),
    }
}
