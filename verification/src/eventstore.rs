//! Append-only sequenced event log.
//!
//! Each appended event is assigned a strictly increasing sequence number by
//! the backend. Events are immutable and totally ordered by sequence;
//! retrieval by sequence returns the exact event stored at append time.

use vstd::prelude::*;

verus! {

/// Failure modes of the event log.
#[derive(Debug)]
pub enum EventStoreError {
    /// Any backend failure; holds the backend's diagnostic text.
    Database(String),
    /// Read miss: no event with the requested sequence number.
    NoRecord,
    /// A unique-sequence violation from racing writers; surfaced distinctly
    /// so the caller can decide whether to retry the append.
    OutOfSequence,
}

/// One key/value pair of an event payload.
#[derive(Debug, PartialEq, Eq)]
pub struct PayloadEntry {
    pub key: String,
    pub value: String,
}

/// A structured, string-keyed event payload. It is opaque to the store:
/// nothing inspects it, and retrieval returns it exactly as supplied.
#[derive(Debug, PartialEq, Eq)]
pub struct Payload {
    pub entries: Vec<PayloadEntry>,
}

/// An event as supplied by the caller: a payload and its schema version.
#[derive(Debug, PartialEq, Eq)]
pub struct NewEvent {
    pub version: i32,
    pub data: Payload,
}

/// A stored event. `sequence` and `timestamp` are assigned at write time;
/// `version` and `data` are the caller's.
#[derive(Debug, PartialEq, Eq)]
pub struct Event {
    pub sequence: i64,
    pub version: i32,
    pub data: Payload,
    pub timestamp: i64,
}

impl View for PayloadEntry {
    type V = (Seq<char>, Seq<char>);

    open spec fn view(&self) -> (Seq<char>, Seq<char>) {
        (self.key@, self.value@)
    }
}

impl View for Payload {
    type V = Seq<(Seq<char>, Seq<char>)>;

    open spec fn view(&self) -> Seq<(Seq<char>, Seq<char>)> {
        self.entries@.map_values(|e: PayloadEntry| e@)
    }
}

/// The mathematical shape of a stored event.
pub ghost struct EventV {
    pub sequence: int,
    pub version: int,
    pub data: Seq<(Seq<char>, Seq<char>)>,
    pub timestamp: int,
}

impl View for Event {
    type V = EventV;

    open spec fn view(&self) -> EventV {
        EventV {
            sequence: self.sequence as int,
            version: self.version as int,
            data: self.data@,
            timestamp: self.timestamp as int,
        }
    }
}

impl Clone for PayloadEntry {
    /// A clone is equal to the original.
    fn clone(&self) -> (r: Self)
        ensures
            r == *self,
    {
        PayloadEntry { key: self.key.clone(), value: self.value.clone() }
    }
}

impl Clone for Payload {
    /// A clone carries the same payload entries.
    fn clone(&self) -> (r: Self)
        ensures
            r@ == self@,
            r.entries@ == self.entries@,
    {
        let entries = self.entries.clone();
        proof {
            assert(entries@ =~= self.entries@);
        }
        Payload { entries }
    }
}

impl Clone for Event {
    /// A clone describes the same event.
    fn clone(&self) -> (r: Self)
        ensures
            r@ == self@,
    {
        Event {
            sequence: self.sequence,
            version: self.version,
            data: self.data.clone(),
            timestamp: self.timestamp,
        }
    }
}

/// The highest sequence number a log has assigned, 0 for an empty log.
pub open spec fn latest_sequence(evs: Seq<EventV>) -> int {
    if evs.len() == 0 {
        0
    } else {
        evs.last().sequence
    }
}

/// Well-formedness of a log: sequence numbers are positive and strictly
/// increasing in append order.
pub open spec fn events_wf(evs: Seq<EventV>) -> bool {
    &&& forall|i: int| 0 <= i < evs.len() ==> #[trigger] evs[i].sequence > 0
    &&& forall|i: int, j: int|
        0 <= i < j < evs.len() ==> #[trigger] evs[i].sequence < #[trigger] evs[j].sequence
}

/// Backend-independent contract of the sequenced event log.
///
/// The abstract state is the sequence of stored events in append order. A
/// backend that can fail reports `Database` (or, on racing writers,
/// `OutOfSequence`) and has `reliable() == false`; the in-memory log is
/// reliable.
pub trait EventStore: Sized {
    /// The stored events, in append order.
    spec fn events(&self) -> Seq<EventV>;

    /// Well-formedness of the concrete representation.
    spec fn inv(&self) -> bool;

    /// Whether the backend is free of I/O faults and write races.
    spec fn reliable(&self) -> bool;

    /// A well-formed store holds a well-formed log.
    proof fn lemma_inv_implies_wf(&self)
        requires
            self.inv(),
        ensures
            events_wf(self.events()),
    ;

    /// Appends a new event: the backend assigns it a sequence number
    /// strictly above every previously assigned one, and a write timestamp.
    /// Either the event is persisted whole or the log is unchanged.
    fn store(&mut self, data: NewEvent) -> (r: Result<i64, EventStoreError>)
        requires
            old(self).inv(),
            latest_sequence(old(self).events()) < i64::MAX,
        ensures
            final(self).inv(),
            final(self).reliable() == old(self).reliable(),
            (match r {
                Ok(s) => {
                    &&& s > latest_sequence(old(self).events())
                    &&& final(self).events().len() == old(self).events().len() + 1
                    &&& final(self).events().drop_last() == old(self).events()
                    &&& final(self).events().last().sequence == s
                    &&& final(self).events().last().version == data.version as int
                    &&& final(self).events().last().data == data.data@
                },
                Err(EventStoreError::NoRecord) => false,
                Err(EventStoreError::OutOfSequence) => !old(self).reliable()
                    && final(self).events() == old(self).events(),
                Err(EventStoreError::Database(_)) => !old(self).reliable()
                    && final(self).events() == old(self).events(),
            }),
            old(self).reliable() ==> r is Ok,
    ;

    /// Returns the event with exactly the sequence number `id`, or
    /// `NoRecord` if no event carries it.
    fn retrieve(&self, id: i64) -> (r: Result<Event, EventStoreError>)
        requires
            self.inv(),
        ensures
            (match r {
                Ok(e) => exists|i: int|
                    #![auto]
                    0 <= i < self.events().len() && self.events()[i] == e@ && e@.sequence == id,
                Err(EventStoreError::NoRecord) => forall|i: int|
                    #![auto]
                    0 <= i < self.events().len() ==> self.events()[i].sequence != id,
                Err(EventStoreError::OutOfSequence) => false,
                Err(EventStoreError::Database(_)) => !self.reliable(),
            }),
            self.reliable() && (exists|i: int|
                #![auto]
                0 <= i < self.events().len() && self.events()[i].sequence == id) ==> r is Ok,
            self.reliable() && !(exists|i: int|
                #![auto]
                0 <= i < self.events().len() && self.events()[i].sequence == id) ==> (r matches Err(
                EventStoreError::NoRecord,
            )),
    ;

    /// Returns the highest assigned sequence number, 0 for an empty log;
    /// used to answer "what is latest" and to seed the notification
    /// broker's re-publish value.
    fn sequence(&self) -> (r: Result<i64, EventStoreError>)
        requires
            self.inv(),
        ensures
            (match r {
                Ok(s) => s == latest_sequence(self.events()),
                Err(EventStoreError::Database(_)) => !self.reliable(),
                _ => false,
            }),
            self.reliable() ==> r is Ok,
    ;
}

/// Relies on std::time::SystemTime::now: the write timestamp, in
/// milliseconds since the Unix epoch; a clock reading before the epoch is
/// reported as 0 rather than panicking. It comes from the system clock, so
/// nothing is promised of its value.
#[verifier::external_body]
fn now_timestamp() -> i64 {
    match std::time::SystemTime::now().duration_since(std::time::UNIX_EPOCH) {
        Ok(d) => d.as_millis() as i64,
        Err(_) => 0,
    }
}

/// The verified in-memory event log: the reference backend, free of backend
/// faults. Its sequence numbers are assigned contiguously from 1.
pub struct MemoryEventStore {
    events: Vec<Event>,
}

impl MemoryEventStore {
    /// An empty log.
    pub fn new() -> (r: Self)
        ensures
            r.inv(),
            r.reliable(),
            r.events() == Seq::<EventV>::empty(),
    {
        let r = MemoryEventStore { events: Vec::new() };
        proof {
            assert(r.events() =~= Seq::<EventV>::empty());
        }
        r
    }

    /// The in-memory backend assigns sequence numbers contiguously from 1:
    /// the first append yields 1, the next 2, and so on, and the latest
    /// sequence equals the number of stored events.
    pub proof fn lemma_sequences_contiguous(&self)
        requires
            self.inv(),
        ensures
            forall|i: int|
                0 <= i < self.events().len() ==> #[trigger] self.events()[i].sequence == i + 1,
            latest_sequence(self.events()) == self.events().len(),
    {
    }
}

impl EventStore for MemoryEventStore {
    closed spec fn events(&self) -> Seq<EventV> {
        self.events@.map_values(|e: Event| e@)
    }

    closed spec fn inv(&self) -> bool {
        forall|i: int| 0 <= i < self.events@.len() ==> #[trigger] self.events@[i].sequence == i + 1
    }

    closed spec fn reliable(&self) -> bool {
        true
    }

    proof fn lemma_inv_implies_wf(&self) {
    }

    fn store(&mut self, data: NewEvent) -> (r: Result<i64, EventStoreError>) {
        let ghost old_events = self.events@;
        let n = self.events.len();
        proof {
            if n > 0 {
                assert(self.events()[n - 1].sequence == n as int);
            }
            assert(latest_sequence(self.events()) == n as int);
        }
        let seq_no: i64 = (n as i64) + 1;
        let ts = now_timestamp();
        let ev = Event { sequence: seq_no, version: data.version, data: data.data, timestamp: ts };
        self.events.push(ev);
        proof {
            assert(self.events@ == old_events.push(ev));
            assert(self.events().drop_last() =~= old_events.map_values(|e: Event| e@));
        }
        Ok(seq_no)
    }

    fn retrieve(&self, id: i64) -> (r: Result<Event, EventStoreError>) {
        let n = self.events.len();
        proof {
            if n > 0 {
                assert(self.events@[n - 1].sequence == n as int);
            }
        }
        if 1 <= id && id <= (n as i64) {
            let idx = (id - 1) as usize;
            let e = self.events[idx].clone();
            proof {
                assert(self.events()[id - 1] == e@);
            }
            Ok(e)
        } else {
            Err(EventStoreError::NoRecord)
        }
    }

    fn sequence(&self) -> (r: Result<i64, EventStoreError>) {
        let n = self.events.len();
        proof {
            if n > 0 {
                assert(self.events()[n - 1].sequence == n as int);
            }
        }
        Ok(n as i64)
    }
}

/// Law: in a well-formed log — which every append preserves, each new
/// sequence number lying strictly above `latest_sequence` per
/// `EventStore::store`'s contract — the assigned sequence numbers are
/// pairwise distinct and `latest_sequence`, which `EventStore::sequence`
/// returns, is their maximum.
pub proof fn lemma_sequences_strictly_increasing(evs: Seq<EventV>)
    requires
        events_wf(evs),
    ensures
        forall|i: int, j: int|
            0 <= i < j < evs.len() ==> #[trigger] evs[i].sequence != #[trigger] evs[j].sequence,
        forall|i: int| 0 <= i < evs.len() ==> #[trigger] evs[i].sequence <= latest_sequence(evs),
{
}

/// Law: appending an event with a sequence number strictly above
/// `latest_sequence` keeps the log well formed, dominates every earlier
/// sequence number, and becomes the new latest.
pub proof fn lemma_append_keeps_order(evs: Seq<EventV>, e: EventV)
    requires
        events_wf(evs),
        e.sequence > latest_sequence(evs),
        e.sequence > 0,
    ensures
        events_wf(evs.push(e)),
        forall|i: int| 0 <= i < evs.len() ==> #[trigger] evs[i].sequence < e.sequence,
        latest_sequence(evs.push(e)) == e.sequence,
{
    lemma_sequences_strictly_increasing(evs);
    assert forall|i: int, j: int| 0 <= i < j < evs.push(e).len() implies #[trigger] evs.push(
        e,
    )[i].sequence < #[trigger] evs.push(e)[j].sequence by {
        if j < evs.len() {
            assert(evs[i].sequence < evs[j].sequence);
        } else {
            assert(evs[i].sequence <= latest_sequence(evs));
        }
    }
}

/// Law: the event appended under a fresh sequence number is the only one
/// carrying it, so a retrieve of that sequence returns exactly the
/// `version`, `data` and `timestamp` stored at append time (per
/// `EventStore::retrieve`'s contract); a sequence never assigned matches no
/// event, so retrieving it fails with `NoRecord`.
pub proof fn lemma_append_then_retrieve(evs: Seq<EventV>, e: EventV)
    requires
        events_wf(evs),
        e.sequence > latest_sequence(evs),
    ensures
        ({
            let evs1 = evs.push(e);
            &&& evs1[evs1.len() - 1] == e
            &&& forall|i: int|
                0 <= i < evs1.len() && #[trigger] evs1[i].sequence == e.sequence ==> evs1[i] == e
        }),
{
    lemma_sequences_strictly_increasing(evs);
    assert forall|i: int|
        0 <= i < evs.push(e).len() && #[trigger] evs.push(e)[i].sequence
            == e.sequence implies evs.push(e)[i] == e by {
        if i < evs.len() {
            assert(evs[i].sequence <= latest_sequence(evs));
        }
    }
}

} // verus!
