use reactrix_store::eventstore::{
    EventStore, EventStoreError, MemoryEventStore, NewEvent, Payload, PayloadEntry,
};

fn payload(key: &str, value: &str) -> Payload {
    Payload {
        entries: vec![PayloadEntry { key: key.to_string(), value: value.to_string() }],
    }
}

#[test]
fn sequences_are_strictly_increasing_and_distinct() {
    let mut log = MemoryEventStore::new();
    let mut assigned = Vec::new();
    for i in 0..5 {
        let s = log
            .store(NewEvent { version: i, data: payload("n", "x") })
            .expect("append must succeed");
        assigned.push(s);
    }
    for w in assigned.windows(2) {
        assert!(w[0] < w[1]);
    }
    let latest = log.sequence().expect("sequence must succeed");
    assert_eq!(latest, *assigned.iter().max().unwrap());
}

#[test]
fn append_then_retrieve_returns_exact_event() {
    // Scenario: append {version: 1, data: {"k": "v"}}, then another; the
    // first append gets sequence 1, the second sequence 2, and retrieving
    // sequence 1 returns the first event unchanged.
    let mut log = MemoryEventStore::new();
    let s1 = log
        .store(NewEvent { version: 1, data: payload("k", "v") })
        .expect("append must succeed");
    assert_eq!(s1, 1);
    let s2 = log
        .store(NewEvent { version: 1, data: payload("k2", "v2") })
        .expect("append must succeed");
    assert_eq!(s2, 2);
    let e = log.retrieve(1).expect("retrieve must succeed");
    assert_eq!(e.sequence, 1);
    assert_eq!(e.version, 1);
    assert_eq!(e.data, payload("k", "v"));
}

#[test]
fn retrieve_of_unwritten_sequence_is_no_record() {
    let mut log = MemoryEventStore::new();
    assert!(matches!(log.retrieve(42), Err(EventStoreError::NoRecord)));
    log.store(NewEvent { version: 1, data: payload("k", "v") })
        .expect("append must succeed");
    assert!(matches!(log.retrieve(2), Err(EventStoreError::NoRecord)));
    assert!(matches!(log.retrieve(0), Err(EventStoreError::NoRecord)));
    assert!(matches!(log.retrieve(-1), Err(EventStoreError::NoRecord)));
}

#[test]
fn empty_log_reports_sequence_zero() {
    let log = MemoryEventStore::new();
    assert_eq!(log.sequence().expect("sequence must succeed"), 0);
}

#[test]
fn payload_is_stored_opaquely() {
    let mut log = MemoryEventStore::new();
    let data = Payload {
        entries: vec![
            PayloadEntry { key: "a".to_string(), value: "1".to_string() },
            PayloadEntry { key: "b".to_string(), value: "2".to_string() },
        ],
    };
    let expected = Payload {
        entries: vec![
            PayloadEntry { key: "a".to_string(), value: "1".to_string() },
            PayloadEntry { key: "b".to_string(), value: "2".to_string() },
        ],
    };
    let s = log.store(NewEvent { version: 3, data }).expect("append must succeed");
    let e = log.retrieve(s).expect("retrieve must succeed");
    assert_eq!(e.version, 3);
    assert_eq!(e.data, expected);
}
